//! Text primitives shared by the auth rules: trimming, lower-casing,
//! ASCII case-insensitive comparison, searching and ordering of strings.

use vstd::prelude::*;
use vstd::string::StringExecFns;
use vstd::utf8::{encode_utf8, is_ascii_chars};

verus! {

/// What `str::to_lowercase` returns for a string that holds a non-ASCII
/// character: its Unicode lower-case form.
pub uninterp spec fn unicode_lowercase(s: Seq<char>) -> Seq<char>;

/// The lower-case form of a string, as `str::to_lowercase` computes it: ASCII
/// text has its letters 'A'..='Z' mapped to 'a'..='z'; other text goes by the
/// Unicode case mapping.
pub open spec fn lowercase_text(s: Seq<char>) -> Seq<char> {
    if is_ascii_chars(s) {
        ascii_lowercase_text(s)
    } else {
        unicode_lowercase(s)
    }
}

/// The Unicode White_Space characters (what `char::is_whitespace` accepts).
pub open spec fn is_white_space(c: char) -> bool {
    ||| c == ' '
    ||| ('\t' <= c && c <= '\r')
    ||| c == '\u{85}'
    ||| c == '\u{a0}'
    ||| c == '\u{1680}'
    ||| ('\u{2000}' <= c && c <= '\u{200a}')
    ||| c == '\u{2028}'
    ||| c == '\u{2029}'
    ||| c == '\u{202f}'
    ||| c == '\u{205f}'
    ||| c == '\u{3000}'
}

/// A string without its leading whitespace.
pub open spec fn trim_start_text(s: Seq<char>) -> Seq<char>
    decreases s.len(),
{
    if s.len() > 0 && is_white_space(s[0]) {
        trim_start_text(s.drop_first())
    } else {
        s
    }
}

/// A string without its trailing whitespace.
pub open spec fn trim_end_text(s: Seq<char>) -> Seq<char>
    decreases s.len(),
{
    if s.len() > 0 && is_white_space(s.last()) {
        trim_end_text(s.drop_last())
    } else {
        s
    }
}

/// A string without leading and trailing whitespace (what `str::trim` returns).
pub open spec fn trim_text(s: Seq<char>) -> Seq<char> {
    trim_end_text(trim_start_text(s))
}

/// The ASCII lower-case form of a string.
pub open spec fn ascii_lowercase_text(s: Seq<char>) -> Seq<char> {
    s.map_values(|c: char| ascii_lower(c))
}

fn white_space(c: char) -> (r: bool)
    ensures
        r == is_white_space(c),
{
    c == ' ' || ('\t' <= c && c <= '\r') || c == '\u{85}' || c == '\u{a0}' || c == '\u{1680}'
        || ('\u{2000}' <= c && c <= '\u{200a}') || c == '\u{2028}' || c == '\u{2029}'
        || c == '\u{202f}' || c == '\u{205f}' || c == '\u{3000}'
}

proof fn lemma_trim_start_skip(s: Seq<char>, i: int)
    requires
        0 <= i <= s.len(),
        forall|k: int| 0 <= k < i ==> is_white_space(#[trigger] s[k]),
    ensures
        trim_start_text(s) == trim_start_text(s.skip(i)),
    decreases i,
{
    if i > 0 {
        assert(s.drop_first().skip(i - 1) =~= s.skip(i));
        assert forall|k: int| 0 <= k < i - 1 implies is_white_space(#[trigger] s.drop_first()[k]) by {
            assert(s.drop_first()[k] == s[k + 1]);
        }
        lemma_trim_start_skip(s.drop_first(), i - 1);
    } else {
        assert(s.skip(0) =~= s);
    }
}

proof fn lemma_trim_end_take(s: Seq<char>, j: int)
    requires
        0 <= j <= s.len(),
        forall|k: int| j <= k < s.len() ==> is_white_space(#[trigger] s[k]),
    ensures
        trim_end_text(s) == trim_end_text(s.take(j)),
    decreases s.len() - j,
{
    if j < s.len() {
        assert(s.drop_last().take(j) =~= s.take(j));
        assert(is_white_space(s.last()));
        lemma_trim_end_take(s.drop_last(), j);
    } else {
        assert(s.take(j) =~= s);
    }
}

/// All characters are whitespace.
pub open spec fn all_white_space(s: Seq<char>) -> bool {
    forall|i: int| 0 <= i < s.len() ==> is_white_space(#[trigger] s[i])
}

proof fn lemma_trim_start_shape(s: Seq<char>)
    ensures
        trim_start_text(s).len() == 0 || !is_white_space(trim_start_text(s)[0]),
        trim_start_text(s).len() <= s.len(),
        all_white_space(s) ==> trim_start_text(s).len() == 0,
        exists|k: int| 0 <= k <= s.len() && trim_start_text(s) == s.skip(k),
    decreases s.len(),
{
    if s.len() > 0 && is_white_space(s[0]) {
        lemma_trim_start_shape(s.drop_first());
        let k = choose|k: int| 0 <= k <= s.drop_first().len() && trim_start_text(s.drop_first()) == s.drop_first().skip(k);
        assert(s.drop_first().skip(k) =~= s.skip(k + 1));
        if all_white_space(s) {
            assert(all_white_space(s.drop_first())) by {
                assert forall|i: int| 0 <= i < s.drop_first().len() implies is_white_space(#[trigger] s.drop_first()[i]) by {
                    assert(s.drop_first()[i] == s[i + 1]);
                }
            }
        }
    } else {
        assert(s.skip(0) =~= s);
    }
}

proof fn lemma_trim_end_shape(s: Seq<char>)
    ensures
        trim_end_text(s).len() == 0 || !is_white_space(trim_end_text(s).last()),
        exists|k: int| 0 <= k <= s.len() && trim_end_text(s) == s.take(k),
    decreases s.len(),
{
    if s.len() > 0 && is_white_space(s.last()) {
        lemma_trim_end_shape(s.drop_last());
        let k = choose|k: int| 0 <= k <= s.drop_last().len() && trim_end_text(s.drop_last()) == s.drop_last().take(k);
        assert(s.drop_last().take(k) =~= s.take(k));
    } else {
        assert(s.take(s.len() as int) =~= s);
    }
}

/// A text that trimming leaves as it is neither begins nor ends with
/// whitespace.
pub proof fn trimmed_text_ends(s: Seq<char>)
    requires
        trim_text(s) == s,
        s.len() > 0,
    ensures
        !is_white_space(s[0]),
        !is_white_space(s.last()),
{
    let u = trim_start_text(s);
    lemma_trim_start_shape(s);
    lemma_trim_end_shape(u);
    let k = choose|k: int| 0 <= k <= s.len() && u == s.skip(k);
    if is_white_space(s[0]) {
        lemma_trim_start_shape(s.drop_first());
        assert(u.len() < s.len());
    }
    if u.len() == s.len() {
        assert(u =~= s);
        if is_white_space(s.last()) {
            lemma_trim_end_shape(s.drop_last());
            assert(trim_end_text(s).len() < s.len());
        }
    }
}

/// Trimming twice is trimming once.
pub proof fn trim_is_idempotent(s: Seq<char>)
    ensures
        trim_text(trim_text(s)) == trim_text(s),
{
    let u = trim_start_text(s);
    lemma_trim_start_shape(s);
    lemma_trim_end_shape(u);
    let t = trim_end_text(u);
    let k = choose|k: int| 0 <= k <= u.len() && t == u.take(k);
    if t.len() > 0 {
        assert(t[0] == u[0]);
        assert(trim_start_text(t) == t);
        assert(trim_end_text(t) == t);
    } else {
        assert(trim_start_text(t) == t);
        assert(trim_end_text(t) == t);
    }
}

proof fn lemma_trim_inner_suffix(h: Seq<char>, b: Seq<char>)
    requires
        all_white_space(b),
    ensures
        trim_end_text(trim_start_text(h + b)) == trim_end_text(trim_start_text(h)),
    decreases h.len(),
{
    if h.len() == 0 {
        assert(h + b =~= b);
        lemma_trim_start_shape(b);
        assert(trim_start_text(b) =~= Seq::<char>::empty());
        assert(trim_start_text(h) == h);
    } else if is_white_space(h[0]) {
        assert((h + b).drop_first() =~= h.drop_first() + b);
        lemma_trim_inner_suffix(h.drop_first(), b);
    } else {
        assert((h + b)[0] == h[0]);
        assert(trim_start_text(h + b) == h + b);
        assert(trim_start_text(h) == h);
        assert forall|k: int| h.len() <= k < (h + b).len() implies is_white_space(#[trigger] (h + b)[k]) by {
            assert((h + b)[k] == b[k - h.len()]);
        }
        lemma_trim_end_take(h + b, h.len() as int);
        assert((h + b).take(h.len() as int) =~= h);
    }
}

/// Whitespace around a text does not change what trimming gives.
pub proof fn trim_ignores_surrounding_white_space(a: Seq<char>, h: Seq<char>, b: Seq<char>)
    requires
        all_white_space(a),
        all_white_space(b),
    ensures
        trim_text(a + h + b) == trim_text(h),
{
    let t = a + h + b;
    assert(t =~= a + (h + b));
    assert forall|k: int| 0 <= k < a.len() implies is_white_space(#[trigger] t[k]) by {
        assert(t[k] == a[k]);
    }
    lemma_trim_start_skip(t, a.len() as int);
    assert(t.skip(a.len() as int) =~= h + b);
    lemma_trim_inner_suffix(h, b);
}

/// The string without leading and trailing whitespace (`str::trim`).
pub fn trim(s: &str) -> (r: String)
    ensures
        r@ == trim_text(s@),
{
    let cs = chars_of(s);
    let mut i: usize = 0;
    while i < cs.len() && white_space(cs[i])
        invariant
            cs@ == s@,
            i <= cs.len(),
            forall|k: int| 0 <= k < i ==> is_white_space(#[trigger] s@[k]),
        decreases cs.len() - i,
    {
        i += 1;
    }
    proof {
        lemma_trim_start_skip(s@, i as int);
    }
    let ghost rest = s@.skip(i as int);
    let mut j: usize = cs.len();
    while j > i && white_space(cs[j - 1])
        invariant
            cs@ == s@,
            i <= j <= cs.len(),
            rest == s@.skip(i as int),
            forall|k: int| j <= k < cs.len() ==> is_white_space(#[trigger] s@[k]),
        decreases j - i,
    {
        j -= 1;
    }
    proof {
        if i < cs.len() {
            assert(!is_white_space(rest[0]));
            assert(trim_start_text(rest) == rest);
        } else {
            assert(rest.len() == 0);
        }
        assert forall|k: int| j - i <= k < rest.len() implies is_white_space(#[trigger] rest[k]) by {
            assert(rest[k] == s@[k + i]);
        }
        lemma_trim_end_take(rest, j - i);
        let kept = rest.take(j - i);
        if j > i {
            assert(kept.last() == s@[j - 1]);
        }
    }
    let mut out: Vec<char> = Vec::new();
    let mut k: usize = i;
    while k < j
        invariant
            cs@ == s@,
            i <= k <= j <= cs.len(),
            out@ == s@.subrange(i as int, k as int),
        decreases j - k,
    {
        out.push(cs[k]);
        assert(s@.subrange(i as int, k + 1) =~= s@.subrange(i as int, k as int).push(s@[k as int]));
        k += 1;
    }
    assert(out@ =~= s@.skip(i as int).take(j - i));
    text_of(&out)
}

/// Length in bytes of the UTF-8 encoding of a string (what `str::len` counts).
pub open spec fn byte_len(s: Seq<char>) -> nat {
    encode_utf8(s).len()
}

/// The number of bytes of a string's UTF-8 encoding (`str::len`).
pub fn byte_count(s: &str) -> (r: usize)
    ensures
        r == byte_len(s@),
{
    s.as_bytes().len()
}

/// The normalised form used for user-entered keywords: trimmed, then lower-cased.
pub open spec fn keyword_text(s: Seq<char>) -> Seq<char> {
    lowercase_text(trim_text(s))
}

/// `str::to_lowercase`. Its contract states the documented behaviour on ASCII
/// text ('A'..='Z' become 'a'..='z', every other character stays) and names
/// the result for any other text `unicode_lowercase` of the input; the Unicode
/// case mapping itself is left unstated.
#[verifier::external_body]
pub(crate) fn to_lowercase(s: &str) -> (r: String)
    ensures
        is_ascii_chars(s@) ==> r@ == ascii_lowercase_text(s@),
        !is_ascii_chars(s@) ==> r@ == unicode_lowercase(s@),
{
    s.to_lowercase()
}

/// `String::push`: appends one character.
#[verifier::external_body]
pub(crate) fn push_char(s: &mut String, c: char)
    ensures
        final(s)@ == old(s)@.push(c),
{
    s.push(c);
}

/// Trim then lower-case a user-entered keyword.
pub fn keyword(s: &str) -> (r: String)
    ensures
        r@ == keyword_text(s@),
{
    let t = trim(s);
    to_lowercase(t.as_str())
}

/// Whether two strings hold the same text.
pub fn same_text(a: &str, b: &str) -> (r: bool)
    ensures
        r == (a@ == b@),
{
    let x = String::from_str(a);
    let y = String::from_str(b);
    x == y
}

/// The characters of a string, in order.
pub fn chars_of(s: &str) -> (r: Vec<char>)
    ensures
        r@ == s@,
{
    let mut r: Vec<char> = Vec::new();
    for c in it: s.chars()
        invariant
            r@ == it.seq().take(it.index() as int),
    {
        r.push(c);
    }
    r
}

/// A word of lower-case ASCII letters is its own keyword form.
pub proof fn lemma_keyword_of_lower_word(t: Seq<char>)
    requires
        forall|i: int| 0 <= i < t.len() ==> 'a' <= #[trigger] t[i] && t[i] <= 'z',
    ensures
        keyword_text(t) == t,
{
    if t.len() > 0 {
        assert(!is_white_space(t[0]));
        assert(!is_white_space(t.last()));
    }
    assert(trim_start_text(t) == t);
    assert(trim_end_text(t) == t);
    assert(is_ascii_chars(t));
    assert(ascii_lowercase_text(t) =~= t);
}

/// A string made of the given characters.
pub fn text_of(cs: &Vec<char>) -> (r: String)
    ensures
        r@ == cs@,
{
    let mut r = String::new();
    let mut i: usize = 0;
    while i < cs.len()
        invariant
            i <= cs.len(),
            r@ == cs@.take(i as int),
        decreases cs.len() - i,
    {
        push_char(&mut r, cs[i]);
        assert(cs@.take(i + 1) == cs@.take(i as int).push(cs@[i as int]));
        i += 1;
    }
    assert(cs@.take(cs.len() as int) == cs@);
    r
}

/// ASCII lower-casing of one character; other characters are unchanged.
pub open spec fn ascii_lower(c: char) -> char {
    if 'A' <= c && c <= 'Z' {
        ((c as u32) + 32) as char
    } else {
        c
    }
}

/// ASCII case-insensitive equality, as `str::eq_ignore_ascii_case` defines it.
pub open spec fn eq_ignore_ascii_case_text(a: Seq<char>, b: Seq<char>) -> bool {
    &&& a.len() == b.len()
    &&& forall|i: int| 0 <= i < a.len() ==> ascii_lower(#[trigger] a[i]) == ascii_lower(b[i])
}

fn ascii_lower_char(c: char) -> (r: char)
    ensures
        r == ascii_lower(c),
{
    if 'A' <= c && c <= 'Z' {
        let b: u8 = (c as u32) as u8;
        ((b + 32) as char)
    } else {
        c
    }
}

/// Whether two strings are equal when ASCII letters are compared without case.
pub fn eq_ignore_ascii_case(a: &str, b: &str) -> (r: bool)
    ensures
        r == eq_ignore_ascii_case_text(a@, b@),
{
    let ca = chars_of(a);
    let cb = chars_of(b);
    if ca.len() != cb.len() {
        return false;
    }
    let mut i: usize = 0;
    while i < ca.len()
        invariant
            ca@ == a@,
            cb@ == b@,
            ca.len() == cb.len(),
            i <= ca.len(),
            forall|j: int| 0 <= j < i ==> ascii_lower(#[trigger] a@[j]) == ascii_lower(b@[j]),
        decreases ca.len() - i,
    {
        if ascii_lower_char(ca[i]) != ascii_lower_char(cb[i]) {
            return false;
        }
        i += 1;
    }
    true
}

/// `needle` occurs in `hay` as a contiguous piece.
pub open spec fn has_infix(hay: Seq<char>, needle: Seq<char>) -> bool {
    exists|i: int| 0 <= i && i + needle.len() <= hay.len() && #[trigger] hay.subrange(i, i + needle.len()) == needle
}

fn matches_at(h: &Vec<char>, n: &Vec<char>, i: usize) -> (r: bool)
    requires
        i + n.len() <= h.len(),
    ensures
        r == (h@.subrange(i as int, i + n.len()) == n@),
{
    let mut j: usize = 0;
    while j < n.len()
        invariant
            i + n.len() <= h.len(),
            j <= n.len(),
            forall|k: int| 0 <= k < j ==> h@[i + k] == n@[k],
        decreases n.len() - j,
    {
        if h[i + j] != n[j] {
            assert(h@.subrange(i as int, i + n.len())[j as int] != n@[j as int]);
            return false;
        }
        j += 1;
    }
    assert(h@.subrange(i as int, i + n.len()) =~= n@);
    true
}

/// Whether `needle` occurs in `hay` (`str::contains` with a string pattern).
pub fn contains_text(hay: &str, needle: &str) -> (r: bool)
    ensures
        r == has_infix(hay@, needle@),
{
    let h = chars_of(hay);
    let n = chars_of(needle);
    if n.len() > h.len() {
        return false;
    }
    let last: usize = h.len() - n.len();
    let mut i: usize = 0;
    loop
        invariant
            h@ == hay@,
            n@ == needle@,
            last == h.len() - n.len(),
            i <= last,
            forall|k: int| 0 <= k < i ==> #[trigger] hay@.subrange(k, k + needle@.len()) != needle@,
        decreases last - i,
    {
        if matches_at(&h, &n, i) {
            return true;
        }
        if i == last {
            assert forall|k: int| 0 <= k && k + needle@.len() <= hay@.len() implies #[trigger] hay@.subrange(
                k,
                k + needle@.len(),
            ) != needle@ by {}
            return false;
        }
        i += 1;
    }
}

/// Whether `s` begins with `prefix` (`str::starts_with` with a string pattern).
pub fn starts_with_text(s: &str, prefix: &str) -> (r: bool)
    ensures
        r == prefix@.is_prefix_of(s@),
{
    let h = chars_of(s);
    let n = chars_of(prefix);
    if n.len() > h.len() {
        return false;
    }
    let r = matches_at(&h, &n, 0);
    assert(r == (s@.subrange(0, prefix@.len() as int) == prefix@));
    if !r {
        assert(!prefix@.is_prefix_of(s@)) by {
            if prefix@.is_prefix_of(s@) {
                assert(s@.subrange(0, prefix@.len() as int) =~= prefix@);
            }
        }
    }
    r
}

/// Strict lexicographic order of strings by code point (the order of `str`'s
/// `Ord`, which compares UTF-8 bytes and so agrees with code points).
pub open spec fn text_lt(a: Seq<char>, b: Seq<char>) -> bool
    decreases a.len(),
{
    if a.len() == 0 {
        b.len() > 0
    } else if b.len() == 0 {
        false
    } else if a[0] < b[0] {
        true
    } else if a[0] == b[0] {
        text_lt(a.drop_first(), b.drop_first())
    } else {
        false
    }
}

/// Non-strict lexicographic order of strings.
pub open spec fn text_le(a: Seq<char>, b: Seq<char>) -> bool {
    a == b || text_lt(a, b)
}

/// `text_lt` is irreflexive.
pub proof fn lemma_text_lt_irreflexive(a: Seq<char>)
    ensures
        !text_lt(a, a),
    decreases a.len(),
{
    if a.len() > 0 {
        lemma_text_lt_irreflexive(a.drop_first());
    }
}

/// `text_lt` is transitive.
pub proof fn lemma_text_lt_transitive(a: Seq<char>, b: Seq<char>, c: Seq<char>)
    requires
        text_lt(a, b),
        text_lt(b, c),
    ensures
        text_lt(a, c),
    decreases a.len(),
{
    if a.len() > 0 && b.len() > 0 && c.len() > 0 && a[0] == b[0] && b[0] == c[0] {
        lemma_text_lt_transitive(a.drop_first(), b.drop_first(), c.drop_first());
    }
}

/// Any two strings are equal or ordered one way or the other.
pub proof fn lemma_text_lt_total(a: Seq<char>, b: Seq<char>)
    ensures
        a == b || text_lt(a, b) || text_lt(b, a),
    decreases a.len(),
{
    if a.len() > 0 && b.len() > 0 && a[0] == b[0] {
        lemma_text_lt_total(a.drop_first(), b.drop_first());
        if a.drop_first() == b.drop_first() {
            assert(a =~= seq![a[0]] + a.drop_first());
            assert(b =~= seq![b[0]] + b.drop_first());
        }
    } else if a.len() == 0 && b.len() == 0 {
        assert(a =~= b);
    }

}

proof fn lemma_text_lt_skip(a: Seq<char>, b: Seq<char>, i: int)
    requires
        0 <= i <= a.len(),
        i <= b.len(),
        a.take(i) == b.take(i),
    ensures
        text_lt(a, b) == text_lt(a.skip(i), b.skip(i)),
    decreases i,
{
    if i > 0 {
        assert(a[0] == a.take(i)[0]);
        assert(b[0] == b.take(i)[0]);
        assert(a.drop_first().take(i - 1) =~= a.take(i).drop_first());
        assert(b.drop_first().take(i - 1) =~= b.take(i).drop_first());
        lemma_text_lt_skip(a.drop_first(), b.drop_first(), i - 1);
        assert(a.drop_first().skip(i - 1) =~= a.skip(i));
        assert(b.drop_first().skip(i - 1) =~= b.skip(i));
    } else {
        assert(a.skip(0) =~= a);
        assert(b.skip(0) =~= b);
    }
}

/// Whether `a` sorts strictly before `b`.
pub fn text_less(a: &str, b: &str) -> (r: bool)
    ensures
        r == text_lt(a@, b@),
{
    let ca = chars_of(a);
    let cb = chars_of(b);
    let mut i: usize = 0;
    while i < ca.len() && i < cb.len()
        invariant
            ca@ == a@,
            cb@ == b@,
            i <= ca.len(),
            i <= cb.len(),
            a@.take(i as int) == b@.take(i as int),
        decreases ca.len() - i,
    {
        let x = ca[i];
        let y = cb[i];
        if x != y {
            proof {
                lemma_text_lt_skip(a@, b@, i as int);
                assert(a@.skip(i as int)[0] == x);
                assert(b@.skip(i as int)[0] == y);
            }
            return x < y;
        }
        assert(a@.take(i + 1) =~= a@.take(i as int).push(x));
        assert(b@.take(i + 1) =~= b@.take(i as int).push(y));
        i += 1;
    }
    proof {
        lemma_text_lt_skip(a@, b@, i as int);
    }
    i == ca.len() && i < cb.len()
}

/// The texts of a list of strings.
pub open spec fn texts_of(v: Seq<String>) -> Seq<Seq<char>> {
    v.map_values(|x: String| x@)
}

/// A list of texts in non-decreasing order.
pub open spec fn sorted_texts(s: Seq<Seq<char>>) -> bool {
    forall|i: int, j: int| 0 <= i < j < s.len() ==> text_le(#[trigger] s[i], #[trigger] s[j])
}

/// A list of texts in increasing order (so without repetitions).
pub open spec fn strictly_sorted_texts(s: Seq<Seq<char>>) -> bool {
    forall|i: int, j: int| 0 <= i < j < s.len() ==> text_lt(#[trigger] s[i], #[trigger] s[j])
}

/// Two lists in increasing order that hold the same texts are the same list.
pub proof fn strictly_sorted_same_texts_are_equal(s: Seq<Seq<char>>, t: Seq<Seq<char>>)
    requires
        strictly_sorted_texts(s),
        strictly_sorted_texts(t),
        s.to_set() == t.to_set(),
    ensures
        s == t,
    decreases s.len(),
{
    if s.len() == 0 {
        if t.len() > 0 {
            assert(t.to_set().contains(t[0]));
        }
        assert(s =~= t);
    } else {
        assert(s.to_set().contains(s[0]));
        assert(t.len() > 0);
        assert(t.to_set().contains(t[0]));
        let j = choose|j: int| 0 <= j < t.len() && t[j] == s[0];
        let i = choose|i: int| 0 <= i < s.len() && s[i] == t[0];
        if i > 0 && j > 0 {
            assert(text_lt(s[0], s[i]));
            assert(text_lt(t[0], t[j]));
            lemma_text_lt_transitive(s[0], t[0], s[0]);
            lemma_text_lt_irreflexive(s[0]);
        }
        assert(s[0] == t[0]);
        let s1 = s.drop_first();
        let t1 = t.drop_first();
        assert forall|x: Seq<char>| s1.to_set().contains(x) implies t1.to_set().contains(x) by {
            let k = choose|k: int| 0 <= k < s1.len() && s1[k] == x;
            assert(s[k + 1] == x);
            assert(text_lt(s[0], x));
            lemma_text_lt_irreflexive(x);
            assert(s.to_set().contains(x));
            let m = choose|m: int| 0 <= m < t.len() && t[m] == x;
            assert(m != 0);
            assert(t1[m - 1] == x);
        }
        assert forall|x: Seq<char>| t1.to_set().contains(x) implies s1.to_set().contains(x) by {
            let k = choose|k: int| 0 <= k < t1.len() && t1[k] == x;
            assert(t[k + 1] == x);
            assert(text_lt(t[0], x));
            lemma_text_lt_irreflexive(x);
            assert(t.to_set().contains(x));
            let m = choose|m: int| 0 <= m < s.len() && s[m] == x;
            assert(m != 0);
            assert(s1[m - 1] == x);
        }
        assert(s1.to_set() =~= t1.to_set());
        assert(strictly_sorted_texts(s1)) by {
            assert forall|a: int, b: int| 0 <= a < b < s1.len() implies text_lt(#[trigger] s1[a], #[trigger] s1[b]) by {
                assert(s1[a] == s[a + 1] && s1[b] == s[b + 1]);
            }
        }
        assert(strictly_sorted_texts(t1)) by {
            assert forall|a: int, b: int| 0 <= a < b < t1.len() implies text_lt(#[trigger] t1[a], #[trigger] t1[b]) by {
                assert(t1[a] == t[a + 1] && t1[b] == t[b + 1]);
            }
        }
        strictly_sorted_same_texts_are_equal(s1, t1);
        assert(s =~= seq![s[0]] + s1);
        assert(t =~= seq![t[0]] + t1);
    }
}

proof fn lemma_insert_multiset(s: Seq<Seq<char>>, p: int, x: Seq<char>)
    requires
        0 <= p <= s.len(),
    ensures
        s.insert(p, x).to_multiset() =~= s.to_multiset().insert(x),
{
    broadcast use vstd::seq_lib::group_to_multiset_ensures;
    let t = s.insert(p, x);
    assert(t.remove(p) =~= s);
    assert(t[p] == x);
    assert(t.remove(p).to_multiset() =~= t.to_multiset().remove(x));
    assert(t.to_multiset().count(x) > 0);
}

/// Index of the first element of a sorted list that `x` sorts strictly before
/// (the list's length when there is none).
fn upper_position(v: &Vec<String>, x: &str) -> (p: usize)
    requires
        sorted_texts(texts_of(v@)),
    ensures
        p <= v.len(),
        forall|i: int| 0 <= i < p ==> text_le(#[trigger] v@[i]@, x@),
        forall|i: int| p <= i < v.len() ==> text_lt(x@, #[trigger] v@[i]@),
{
    let mut p: usize = 0;
    while p < v.len()
        invariant
            p <= v.len(),
            sorted_texts(texts_of(v@)),
            forall|i: int| 0 <= i < p ==> text_le(#[trigger] v@[i]@, x@),
        decreases v.len() - p,
    {
        if text_less(x, v[p].as_str()) {
            assert forall|i: int| p <= i < v.len() implies text_lt(x@, #[trigger] v@[i]@) by {
                if i > p {
                    assert(text_le(texts_of(v@)[p as int], texts_of(v@)[i]));
                    if v@[p as int]@ != v@[i]@ {
                        lemma_text_lt_transitive(x@, v@[p as int]@, v@[i]@);
                    }
                }
            }
            return p;
        }
        proof {
            lemma_text_lt_total(x@, v@[p as int]@);
        }
        p += 1;
    }
    p
}

/// Inserts a string into a sorted list, keeping it sorted.
pub fn insert_sorted(v: &mut Vec<String>, x: String)
    requires
        sorted_texts(texts_of(old(v)@)),
    ensures
        sorted_texts(texts_of(final(v)@)),
        texts_of(final(v)@).to_multiset() =~= texts_of(old(v)@).to_multiset().insert(x@),
{
    let p = upper_position(v, x.as_str());
    let ghost xv = x@;
    let ghost before = texts_of(v@);
    v.insert(p, x);
    proof {
        assert(texts_of(v@) =~= before.insert(p as int, xv));
        lemma_insert_multiset(before, p as int, xv);
        let after = texts_of(v@);
        assert forall|i: int, j: int| 0 <= i < j < after.len() implies text_le(
            #[trigger] after[i],
            #[trigger] after[j],
        ) by {
            if j < p {
                assert(after[i] == before[i] && after[j] == before[j]);
            } else if j == p {
                assert(after[i] == before[i]);
            } else if i < p {
                assert(after[i] == before[i] && after[j] == before[j - 1]);
                assert(text_lt(xv, before[j - 1]));
                if before[i] != xv {
                    lemma_text_lt_transitive(before[i], xv, before[j - 1]);
                }
            } else if i == p {
                assert(after[j] == before[j - 1]);
            } else {
                assert(after[i] == before[i - 1] && after[j] == before[j - 1]);
            }
        }
    }
}

/// The given strings in non-decreasing order (`slice::sort` on strings).
pub fn sort_texts(v: Vec<String>) -> (r: Vec<String>)
    ensures
        sorted_texts(texts_of(r@)),
        texts_of(r@).to_multiset() =~= texts_of(v@).to_multiset(),
{
    let mut r: Vec<String> = Vec::new();
    let mut i: usize = 0;
    assert(texts_of(r@) =~= texts_of(v@).take(0));
    while i < v.len()
        invariant
            i <= v.len(),
            sorted_texts(texts_of(r@)),
            texts_of(r@).to_multiset() =~= texts_of(v@).take(i as int).to_multiset(),
        decreases v.len() - i,
    {
        let x = v[i].clone();
        insert_sorted(&mut r, x);
        proof {
            broadcast use vstd::seq_lib::group_to_multiset_ensures;
            assert(texts_of(v@).take(i + 1) =~= texts_of(v@).take(i as int).push(v@[i as int]@));
        }
        i += 1;
    }
    assert(texts_of(v@).take(v.len() as int) =~= texts_of(v@));
    r
}

/// Whether a string holds the character `c` (`str::contains` with a `char`).
pub fn has_char(s: &str, c: char) -> (r: bool)
    ensures
        r == s@.contains(c),
{
    let cs = chars_of(s);
    let mut i: usize = 0;
    while i < cs.len()
        invariant
            cs@ == s@,
            i <= cs.len(),
            forall|k: int| 0 <= k < i ==> s@[k] != c,
        decreases cs.len() - i,
    {
        if cs[i] == c {
            assert(s@[i as int] == c);
            return true;
        }
        i += 1;
    }
    false
}

} // verus!
