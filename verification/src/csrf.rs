//! CSRF tokens: one random token per session, handed to pages and required
//! back on every state-changing request.

use vstd::prelude::*;
use vstd::string::StringExecFns;
use vstd::utf8::encode_utf8_decode_utf8;

use base64::Engine;
use rand::RngCore;
use subtle::ConstantTimeEq;

verus! {

/// A CSRF token as pages receive it.
pub struct CsrfToken {
    pub token: String,
}

/// What a session stores under its CSRF key.
pub struct CsrfSession {
    pub token: Option<String>,
}

/// Why a request's CSRF check failed.
#[derive(Clone, Copy, Debug, PartialEq, Eq, Structural)]
pub enum CsrfError {
    /// The session could not be read or written.
    Session,
    /// The submitted token is missing or wrong.
    Missing,
}

impl CsrfError {
    /// The message key that the server reports for the error.
    pub fn code(&self) -> (r: &'static str)
        ensures
            r@ == match self {
                CsrfError::Session => "err_session"@,
                CsrfError::Missing => "err_missing_csrf"@,
            },
    {
        match self {
            CsrfError::Session => "err_session",
            CsrfError::Missing => "err_missing_csrf",
        }
    }
}

/// The character that stands for a 6-bit value in the URL-safe base64
/// alphabet (`A`-`Z`, `a`-`z`, `0`-`9`, `-`, `_`).
pub open spec fn base64_url_digit(v: int) -> char {
    if v < 26 {
        (65 + v) as char
    } else if v < 52 {
        (97 + v - 26) as char
    } else if v < 62 {
        (48 + v - 52) as char
    } else if v == 62 {
        '-'
    } else {
        '_'
    }
}

/// The URL-safe base64 encoding of bytes, without `=` padding: every three
/// bytes become four characters, and a last one or two bytes become two or
/// three characters.
pub open spec fn base64_url_text(b: Seq<u8>) -> Seq<char>
    decreases b.len(),
{
    if b.len() == 0 {
        Seq::empty()
    } else if b.len() == 1 {
        let n = b[0] as int;
        seq![base64_url_digit(n / 4), base64_url_digit((n % 4) * 16)]
    } else if b.len() == 2 {
        let n = b[0] as int * 256 + b[1] as int;
        seq![
            base64_url_digit(n / 1024),
            base64_url_digit((n / 16) % 64),
            base64_url_digit((n % 16) * 4),
        ]
    } else {
        let n = b[0] as int * 65536 + b[1] as int * 256 + b[2] as int;
        seq![
            base64_url_digit(n / 262144),
            base64_url_digit((n / 4096) % 64),
            base64_url_digit((n / 64) % 64),
            base64_url_digit(n % 64),
        ] + base64_url_text(b.skip(3))
    }
}

/// The length of the URL-safe base64 text of `n` bytes: four characters per
/// three bytes, and two or three for a last one or two bytes.
pub open spec fn base64_url_len(n: nat) -> nat {
    4 * (n / 3) + if n % 3 == 0 {
        0nat
    } else if n % 3 == 1 {
        2nat
    } else {
        3nat
    }
}

proof fn lemma_base64_url_len(b: Seq<u8>)
    ensures
        base64_url_text(b).len() == base64_url_len(b.len()),
    decreases b.len(),
{
    if b.len() >= 3 {
        lemma_base64_url_len(b.skip(3));
        assert(b.skip(3).len() == b.len() - 3);
        assert((b.len() - 3) as nat / 3 == b.len() / 3 - 1);
        assert((b.len() - 3) as nat % 3 == b.len() % 3);
    }
}

proof fn lemma_digit_injective(v: int, w: int)
    requires
        0 <= v < 64,
        0 <= w < 64,
        base64_url_digit(v) == base64_url_digit(w),
    ensures
        v == w,
{
    let cv = base64_url_digit(v);
    let cw = base64_url_digit(w);
    assert(cv as int == cw as int);
}

proof fn lemma_block_injective(n: int, m: int)
    requires
        0 <= n < 16777216,
        0 <= m < 16777216,
        n / 262144 == m / 262144,
        (n / 4096) % 64 == (m / 4096) % 64,
        (n / 64) % 64 == (m / 64) % 64,
        n % 64 == m % 64,
    ensures
        n == m,
{
    assert(n == (n / 262144) * 262144 + ((n / 4096) % 64) * 4096 + ((n / 64) % 64) * 64 + n % 64)
        by (nonlinear_arith)
        requires
            0 <= n < 16777216,
    ;
    assert(m == (m / 262144) * 262144 + ((m / 4096) % 64) * 4096 + ((m / 64) % 64) * 64 + m % 64)
        by (nonlinear_arith)
        requires
            0 <= m < 16777216,
    ;
}

proof fn lemma_len_injective(n: nat, m: nat)
    requires
        base64_url_len(n) == base64_url_len(m),
    ensures
        n == m,
{
    assert(n == 3 * (n / 3) + n % 3);
    assert(m == 3 * (m / 3) + m % 3);
}

proof fn lemma_one_byte(a: Seq<u8>, b: Seq<u8>)
    requires
        a.len() == 1,
        b.len() == 1,
        base64_url_text(a) == base64_url_text(b),
    ensures
        a == b,
{
    let n = a[0] as int;
    let m = b[0] as int;
    assert(base64_url_text(a)[0] == base64_url_text(b)[0]);
    assert(base64_url_text(a)[1] == base64_url_text(b)[1]);
    lemma_digit_injective(n / 4, m / 4);
    lemma_digit_injective((n % 4) * 16, (m % 4) * 16);
    assert(n == (n / 4) * 4 + n % 4);
    assert(m == (m / 4) * 4 + m % 4);
    assert(a =~= b);
}

proof fn lemma_pair_digits(n: int, m: int)
    requires
        0 <= n < 65536,
        0 <= m < 65536,
        base64_url_digit(n / 1024) == base64_url_digit(m / 1024),
        base64_url_digit((n / 16) % 64) == base64_url_digit((m / 16) % 64),
        base64_url_digit((n % 16) * 4) == base64_url_digit((m % 16) * 4),
    ensures
        n == m,
{
    assert(0 <= n / 1024 < 64 && 0 <= m / 1024 < 64) by (nonlinear_arith)
        requires
            0 <= n < 65536,
            0 <= m < 65536,
    ;
    lemma_digit_injective(n / 1024, m / 1024);
    lemma_digit_injective((n / 16) % 64, (m / 16) % 64);
    lemma_digit_injective((n % 16) * 4, (m % 16) * 4);
    assert(n == (n / 1024) * 1024 + ((n / 16) % 64) * 16 + n % 16) by (nonlinear_arith)
        requires
            0 <= n,
    ;
    assert(m == (m / 1024) * 1024 + ((m / 16) % 64) * 16 + m % 16) by (nonlinear_arith)
        requires
            0 <= m,
    ;
}

proof fn lemma_block_digits(n: int, m: int)
    requires
        0 <= n < 16777216,
        0 <= m < 16777216,
        base64_url_digit(n / 262144) == base64_url_digit(m / 262144),
        base64_url_digit((n / 4096) % 64) == base64_url_digit((m / 4096) % 64),
        base64_url_digit((n / 64) % 64) == base64_url_digit((m / 64) % 64),
        base64_url_digit(n % 64) == base64_url_digit(m % 64),
    ensures
        n == m,
{
    assert(0 <= n / 262144 < 64 && 0 <= m / 262144 < 64) by (nonlinear_arith)
        requires
            0 <= n < 16777216,
            0 <= m < 16777216,
    ;
    lemma_digit_injective(n / 262144, m / 262144);
    lemma_digit_injective((n / 4096) % 64, (m / 4096) % 64);
    lemma_digit_injective((n / 64) % 64, (m / 64) % 64);
    lemma_digit_injective(n % 64, m % 64);
    lemma_block_injective(n, m);
}

proof fn lemma_two_bytes(a: Seq<u8>, b: Seq<u8>)
    requires
        a.len() == 2,
        b.len() == 2,
        base64_url_text(a) == base64_url_text(b),
    ensures
        a == b,
{
    let n = a[0] as int * 256 + a[1] as int;
    let m = b[0] as int * 256 + b[1] as int;
    let ta = base64_url_text(a);
    let tb = base64_url_text(b);
    assert(ta == seq![
        base64_url_digit(n / 1024),
        base64_url_digit((n / 16) % 64),
        base64_url_digit((n % 16) * 4),
    ]);
    assert(tb == seq![
        base64_url_digit(m / 1024),
        base64_url_digit((m / 16) % 64),
        base64_url_digit((m % 16) * 4),
    ]);
    assert(ta[0] == tb[0] && ta[1] == tb[1] && ta[2] == tb[2]);
    lemma_pair_digits(n, m);
    assert(a =~= b);
}

proof fn lemma_three_bytes(a: Seq<u8>, b: Seq<u8>)
    requires
        a.len() >= 3,
        b.len() >= 3,
        base64_url_text(a) == base64_url_text(b),
    ensures
        a[0] == b[0],
        a[1] == b[1],
        a[2] == b[2],
        base64_url_text(a.skip(3)) == base64_url_text(b.skip(3)),
{
    let n = a[0] as int * 65536 + a[1] as int * 256 + a[2] as int;
    let m = b[0] as int * 65536 + b[1] as int * 256 + b[2] as int;
    let ta = base64_url_text(a);
    let tb = base64_url_text(b);
    let ha = seq![
        base64_url_digit(n / 262144),
        base64_url_digit((n / 4096) % 64),
        base64_url_digit((n / 64) % 64),
        base64_url_digit(n % 64),
    ];
    let hb = seq![
        base64_url_digit(m / 262144),
        base64_url_digit((m / 4096) % 64),
        base64_url_digit((m / 64) % 64),
        base64_url_digit(m % 64),
    ];
    assert(ta == ha + base64_url_text(a.skip(3)));
    assert(tb == hb + base64_url_text(b.skip(3)));
    assert(ta[0] == ha[0] && ta[1] == ha[1] && ta[2] == ha[2] && ta[3] == ha[3]);
    assert(tb[0] == hb[0] && tb[1] == hb[1] && tb[2] == hb[2] && tb[3] == hb[3]);
    lemma_block_digits(n, m);
    assert(base64_url_text(a.skip(3)) =~= ta.skip(4));
    assert(base64_url_text(b.skip(3)) =~= tb.skip(4));
}

/// Different bytes have different URL-safe base64 texts, so decoding a text
/// that `b64u_encode` produced gives back exactly the encoded bytes.
pub proof fn base64_url_text_is_injective(a: Seq<u8>, b: Seq<u8>)
    requires
        base64_url_text(a) == base64_url_text(b),
    ensures
        a == b,
    decreases a.len(),
{
    lemma_base64_url_len(a);
    lemma_base64_url_len(b);
    lemma_len_injective(a.len(), b.len());
    if a.len() == 0 {
        assert(a =~= b);
    } else if a.len() == 1 {
        lemma_one_byte(a, b);
    } else if a.len() == 2 {
        lemma_two_bytes(a, b);
    } else {
        lemma_three_bytes(a, b);
        base64_url_text_is_injective(a.skip(3), b.skip(3));
        assert forall|i: int| 0 <= i < a.len() implies a[i] == b[i] by {
            if i >= 3 {
                assert(a[i] == a.skip(3)[i - 3]);
                assert(b[i] == b.skip(3)[i - 3]);
            }
        }
        assert(a =~= b);
    }
}

/// `base64`'s `URL_SAFE_NO_PAD.encode`: the URL-safe base64 text of the bytes,
/// without padding.
#[verifier::external_body]
pub(crate) fn base64_url_encode(bytes: &[u8]) -> (r: String)
    ensures
        r@ == base64_url_text(bytes@),
{
    base64::engine::general_purpose::URL_SAFE_NO_PAD.encode(bytes)
}

/// `base64`'s `URL_SAFE_NO_PAD.decode`: the bytes of a URL-safe base64 text
/// without padding, or `None` when the engine refuses the text. This engine
/// requires the absence of padding and refuses set trailing bits, so what it
/// accepts is exactly the texts that its encoder produces: a decoded result
/// encodes back to the input, and every such text decodes.
#[verifier::external_body]
pub(crate) fn base64_url_decode(s: &str) -> (r: Option<Vec<u8>>)
    ensures
        r matches Some(b) ==> base64_url_text(b@) == s@,
        (exists|b: Seq<u8>| base64_url_text(b) == s@) ==> r is Some,
{
    base64::engine::general_purpose::URL_SAFE_NO_PAD.decode(s.as_bytes()).ok()
}

/// 32 bytes from the operating system's random source (`rand`'s `OsRng`
/// through `RngCore::fill_bytes`). Only the length is stated: the bytes are
/// random.
#[verifier::external_body]
fn random_bytes_32() -> (r: Vec<u8>)
    ensures
        r.len() == 32,
{
    let mut bytes = [0u8; 32];
    rand::rngs::OsRng.fill_bytes(&mut bytes);
    bytes.to_vec()
}

/// `subtle`'s `ConstantTimeEq::ct_eq` on byte slices, turned into a `bool`:
/// whether the slices are equal (same length, same bytes), compared in time
/// that does not depend on where they differ.
#[verifier::external_body]
fn constant_time_eq(a: &[u8], b: &[u8]) -> (r: bool)
    ensures
        r == (a@ == b@),
{
    a.ct_eq(b).into()
}

/// A fresh token: the URL-safe base64 text of 32 random bytes.
pub fn new_token() -> (r: String)
    ensures
        exists|b: Seq<u8>| b.len() == 32 && r@ == base64_url_text(b),
        r@.len() == 43,
{
    let bytes = random_bytes_32();
    proof {
        lemma_base64_url_len(bytes@);
    }
    base64_url_encode(bytes.as_slice())
}

/// Whether the token stored in a session accepts a submitted token: there is a
/// stored token and the submitted one is exactly it.
pub open spec fn token_accepts(stored: Option<Seq<char>>, submitted: Seq<char>) -> bool {
    match stored {
        Some(t) => t == submitted,
        None => false,
    }
}

impl CsrfSession {
    /// The stored token's text, if any.
    pub open spec fn stored(self) -> Option<Seq<char>> {
        match self.token {
            Some(t) => Some(t@),
            None => None,
        }
    }

    /// The session's token; a fresh one is created and stored when there is
    /// none yet.
    pub fn get_or_create_csrf_token(&mut self) -> (r: String)
        ensures
            old(self).stored() is Some ==> r@ == old(self).stored()->0 && final(self).stored()
                == old(self).stored(),
            old(self).stored() is None ==> final(self).stored() == Some(r@) && r@.len() == 43 && exists|b: Seq<
                u8,
            >| b.len() == 32 && r@ == base64_url_text(b),
    {
        match &self.token {
            Some(t) => t.clone(),
            None => {
                let t = new_token();
                self.token = Some(t.clone());
                t
            },
        }
    }

    /// Replaces the session's token with a fresh one, which is returned.
    pub fn set_new_csrf_token(&mut self) -> (r: String)
        ensures
            final(self).stored() == Some(r@),
            exists|b: Seq<u8>| b.len() == 32 && r@ == base64_url_text(b),
            r@.len() == 43,
    {
        let t = new_token();
        self.token = Some(t.clone());
        t
    }

    /// Whether a submitted token matches the session's token.
    pub fn verify_csrf_token(&self, submitted: &str) -> (r: bool)
        ensures
            r == token_accepts(self.stored(), submitted@),
    {
        match &self.token {
            None => false,
            Some(expected) => {
                let ok = constant_time_eq(expected.as_str().as_bytes(), submitted.as_bytes());
                proof {
                    encode_utf8_decode_utf8(expected@);
                    encode_utf8_decode_utf8(submitted@);
                }
                ok
            },
        }
    }

    /// The CSRF check of a state-changing request.
    pub fn require(&self, submitted: &str) -> (r: Result<(), CsrfError>)
        ensures
            r is Ok <==> token_accepts(self.stored(), submitted@),
            r is Err ==> r == Err::<(), CsrfError>(CsrfError::Missing),
    {
        if self.verify_csrf_token(submitted) {
            Ok(())
        } else {
            Err(CsrfError::Missing)
        }
    }

    /// The token for a page: the session's token, created when missing.
    pub fn get_token(&mut self) -> (r: CsrfToken)
        ensures
            old(self).stored() is Some ==> r.token@ == old(self).stored()->0 && final(self).stored()
                == old(self).stored(),
            old(self).stored() is None ==> final(self).stored() == Some(r.token@) && r.token@.len() == 43
                && exists|b: Seq<u8>| b.len() == 32 && r.token@ == base64_url_text(b),
    {
        CsrfToken { token: self.get_or_create_csrf_token() }
    }

    /// A fresh token for a page, replacing the session's token.
    pub fn rotate(&mut self) -> (r: CsrfToken)
        ensures
            final(self).stored() == Some(r.token@),
            r.token@.len() == 43,
            exists|b: Seq<u8>| b.len() == 32 && r.token@ == base64_url_text(b),
    {
        CsrfToken { token: self.set_new_csrf_token() }
    }
}

/// The token that a page's CSRF context starts with: none for an empty token.
pub fn csrf_context_value(csrf: &CsrfToken) -> (r: Option<String>)
    ensures
        match r {
            Some(t) => csrf.token@.len() > 0 && t@ == csrf.token@,
            None => csrf.token@.len() == 0,
        },
{
    if csrf.token.as_str().is_empty() {
        None
    } else {
        Some(csrf.token.clone())
    }
}

/// A token that a session hands out is accepted back by that session, and
/// no other text is; a session without a token accepts nothing.
pub proof fn issued_token_is_the_only_accepted_one(stored: Option<Seq<char>>, issued: Seq<char>, submitted: Seq<char>)
    requires
        stored == Some(issued),
    ensures
        token_accepts(stored, issued),
        token_accepts(stored, submitted) <==> submitted == issued,
        !token_accepts(None, submitted),
{
}

} // verus!
