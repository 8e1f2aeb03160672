//! Locale-prefixed links: every page lives under "/<locale>/", and internal
//! links are rewritten to carry the current locale.

use vstd::prelude::*;
use vstd::string::StringExecFns;

use crate::text::{
    all_white_space, chars_of, same_text, starts_with_text, text_of, trim, trim_end_text,
    trim_ignores_surrounding_white_space, trim_is_idempotent, trim_start_text, trim_text, trimmed_text_ends,
};

verus! {

/// A language the site is translated into. German is the default.
#[derive(Clone, Copy, Debug, PartialEq, Eq, Structural)]
pub enum Locale {
    De,
    En,
}

impl Locale {
    /// The locale's code as it appears in paths.
    pub open spec fn code(self) -> Seq<char> {
        match self {
            Locale::De => "de"@,
            Locale::En => "en"@,
        }
    }

    /// The locale whose code is exactly `code`, if any.
    pub open spec fn for_code(code: Seq<char>) -> Option<Locale> {
        if code == "de"@ {
            Some(Locale::De)
        } else if code == "en"@ {
            Some(Locale::En)
        } else {
            None
        }
    }

    /// The locale whose code is exactly `code`, if any.
    pub fn from_code(code: &str) -> (r: Option<Locale>)
        ensures
            r == Locale::for_code(code@),
    {
        if same_text(code, "de") {
            Some(Locale::De)
        } else if same_text(code, "en") {
            Some(Locale::En)
        } else {
            None
        }
    }

    /// The locale chosen in the language switch: the one whose code was
    /// picked, or the current one when the value names none.
    pub fn switched(current: Locale, picked: &str) -> (r: Locale)
        ensures
            r == match Locale::for_code(picked@) {
                Some(l) => l,
                None => current,
            },
    {
        match Locale::from_code(picked) {
            Some(l) => l,
            None => current,
        }
    }

    /// The locale's code as it appears in paths.
    pub fn as_str(&self) -> (r: &'static str)
        ensures
            r@ == self.code(),
    {
        match self {
            Locale::De => "de",
            Locale::En => "en",
        }
    }
}

/// The text without its leading '/' characters.
pub open spec fn strip_leading_slashes(s: Seq<char>) -> Seq<char>
    decreases s.len(),
{
    if s.len() > 0 && s[0] == '/' {
        strip_leading_slashes(s.drop_first())
    } else {
        s
    }
}

/// A link that leaves the site or stays on the page: absolute http(s) URLs,
/// mail and phone links, and fragments.
pub open spec fn is_external_href(h: Seq<char>) -> bool {
    ||| "http://"@.is_prefix_of(h)
    ||| "https://"@.is_prefix_of(h)
    ||| "mailto:"@.is_prefix_of(h)
    ||| "tel:"@.is_prefix_of(h)
    ||| (h.len() > 0 && h[0] == '#')
}

/// The root of the locale's pages, "/<code>/".
pub open spec fn locale_root(locale: Locale) -> Seq<char> {
    "/"@ + locale.code() + "/"@
}

/// The locale-prefixed form of a link: the link is trimmed; an empty one is
/// the locale's root; an external one is kept as it is; otherwise its leading
/// slashes are dropped and what is left is put under the locale's root.
pub open spec fn localized_href(locale: Locale, href: Seq<char>) -> Seq<char> {
    let h = trim_text(href);
    if h.len() == 0 {
        locale_root(locale)
    } else if is_external_href(h) {
        h
    } else {
        locale_root(locale) + strip_leading_slashes(h)
    }
}

proof fn lemma_strip_skip(s: Seq<char>, i: int)
    requires
        0 <= i <= s.len(),
        forall|k: int| 0 <= k < i ==> #[trigger] s[k] == '/',
    ensures
        strip_leading_slashes(s) == strip_leading_slashes(s.skip(i)),
    decreases i,
{
    if i > 0 {
        assert(s.drop_first().skip(i - 1) =~= s.skip(i));
        assert forall|k: int| 0 <= k < i - 1 implies #[trigger] s.drop_first()[k] == '/' by {
            assert(s.drop_first()[k] == s[k + 1]);
        }
        lemma_strip_skip(s.drop_first(), i - 1);
    } else {
        assert(s.skip(0) =~= s);
    }
}

/// The text without its leading '/' characters (`str::trim_start_matches('/')`).
pub fn trim_leading_slashes(s: &str) -> (r: String)
    ensures
        r@ == strip_leading_slashes(s@),
{
    let cs = chars_of(s);
    let mut i: usize = 0;
    while i < cs.len() && cs[i] == '/'
        invariant
            cs@ == s@,
            i <= cs.len(),
            forall|k: int| 0 <= k < i ==> #[trigger] s@[k] == '/',
        decreases cs.len() - i,
    {
        i += 1;
    }
    proof {
        lemma_strip_skip(s@, i as int);
    }
    let mut out: Vec<char> = Vec::new();
    let mut k: usize = i;
    while k < cs.len()
        invariant
            cs@ == s@,
            i <= k <= cs.len(),
            out@ == s@.subrange(i as int, k as int),
        decreases cs.len() - k,
    {
        out.push(cs[k]);
        assert(s@.subrange(i as int, k + 1) =~= s@.subrange(i as int, k as int).push(s@[k as int]));
        k += 1;
    }
    assert(out@ =~= s@.skip(i as int));
    proof {
        if i < cs.len() {
            assert(s@.skip(i as int)[0] != '/');
        }
    }
    text_of(&out)
}

/// Rewrites a link so that it stays within the locale's pages.
pub fn lp(locale: Locale, href: &str) -> (r: String)
    ensures
        r@ == localized_href(locale, href@),
{
    let h = trim(href);
    if h.as_str().is_empty() {
        let mut r = String::from_str("/");
        r.append(locale.as_str());
        r.append("/");
        return r;
    }
    let hs = h.as_str();
    let first = chars_of(hs);
    if starts_with_text(hs, "http://") || starts_with_text(hs, "https://") || starts_with_text(hs, "mailto:")
        || starts_with_text(hs, "tel:") || first[0] == '#' {
        return h;
    }
    let p = trim_leading_slashes(hs);
    let mut r = String::from_str("/");
    r.append(locale.as_str());
    r.append("/");
    r.append(p.as_str());
    r
}

/// A locale's code names that locale again.
pub proof fn locale_code_round_trip(l: Locale)
    ensures
        Locale::for_code(l.code()) == Some(l),
{
    reveal_strlit("de");
    reveal_strlit("en");
    assert("de"@ != "en"@) by {
        assert("de"@[0] != "en"@[0]);
    }
}

/// Every link that does not leave the page ends up under the locale's root;
/// links that leave it are kept as they are, up to surrounding whitespace.
pub proof fn localized_links_stay_in_locale(locale: Locale, href: Seq<char>)
    ensures
        !is_external_href(trim_text(href)) ==> locale_root(locale).is_prefix_of(localized_href(locale, href)),
        is_external_href(trim_text(href)) ==> localized_href(locale, href) == trim_text(href),
{
    let h = trim_text(href);
    if h.len() != 0 && is_external_href(h) {
    } else if h.len() == 0 {
        assert(locale_root(locale).is_prefix_of(locale_root(locale))) by {
            assert(locale_root(locale).take(locale_root(locale).len() as int) =~= locale_root(locale));
        }
        reveal_strlit("http://");
        reveal_strlit("https://");
        reveal_strlit("mailto:");
        reveal_strlit("tel:");
        assert(!is_external_href(h));
    } else {
        let r = locale_root(locale) + strip_leading_slashes(h);
        assert(r.take(locale_root(locale).len() as int) =~= locale_root(locale));
    }
}

/// Whitespace around a link does not change its localized form, and a link
/// that is already trimmed localizes as the untrimmed one does.
pub proof fn localized_links_ignore_surrounding_white_space(
    locale: Locale,
    a: Seq<char>,
    href: Seq<char>,
    b: Seq<char>,
)
    requires
        all_white_space(a),
        all_white_space(b),
    ensures
        localized_href(locale, a + href + b) == localized_href(locale, href),
        localized_href(locale, trim_text(href)) == localized_href(locale, href),
{
    trim_ignores_surrounding_white_space(a, href, b);
    trim_is_idempotent(href);
}

/// `n` slashes.
pub open spec fn slashes(n: nat) -> Seq<char> {
    Seq::new(n, |i: int| '/')
}

/// Leading slashes before a trimmed link that stays on the site do not change
/// its localized form: "/x", "//x" and "x" all give the same path.
pub proof fn localized_links_ignore_leading_slashes(locale: Locale, s: Seq<char>, n: nat)
    requires
        trim_text(s) == s,
        !is_external_href(s),
    ensures
        localized_href(locale, slashes(n) + s) == localized_href(locale, s),
{
    reveal_strlit("http://");
    reveal_strlit("https://");
    reveal_strlit("mailto:");
    reveal_strlit("tel:");
    if n > 0 {
        let t = slashes(n) + s;
        assert(t[0] == '/');
        assert(trim_start_text(t) == t);
        if s.len() > 0 {
            trim_is_idempotent(s);
            assert(t.last() == s.last());
            trimmed_text_ends(s);
        } else {
            assert(t.last() == '/');
        }
        assert(trim_end_text(t) == t);
        assert(trim_text(t) == t);
        assert(!is_external_href(t)) by {
            assert("http://"@[0] != t[0]);
            assert("https://"@[0] != t[0]);
            assert("mailto:"@[0] != t[0]);
            assert("tel:"@[0] != t[0]);
            assert(!"http://"@.is_prefix_of(t));
            assert(!"https://"@.is_prefix_of(t));
            assert(!"mailto:"@.is_prefix_of(t));
            assert(!"tel:"@.is_prefix_of(t));
        }
        assert forall|k: int| 0 <= k < n implies #[trigger] t[k] == '/' by {}
        lemma_strip_skip(t, n as int);
        assert(t.skip(n as int) =~= s);
        if s.len() == 0 {
            assert(strip_leading_slashes(s) == s);
            assert(locale_root(locale) + s =~= locale_root(locale));
        }
    } else {
        assert(slashes(n) + s =~= s);
    }
}

} // verus!
