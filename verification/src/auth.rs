//! The OIDC side of the API client: saved tokens and their expiry, the
//! PKCE values, the Keycloak endpoints, and the URL coding used on the way.
use vstd::prelude::*;

use crate::text::{find_from, is_whitespace, is_ws, split_chars, split_on, str_chars, string_from_chars};
use crate::tui_model::starts_with;

verus! {

// ---------------------------------------------------------------------------
// UTF-8
// ---------------------------------------------------------------------------

/// The UTF-8 bytes of one character.
pub open spec fn utf8_char(c: char) -> Seq<u8> {
    let v = c as u32;
    if v < 0x80 {
        seq![v as u8]
    } else if v < 0x800 {
        seq![(0xC0 | (v >> 6)) as u8, (0x80 | (v & 0x3F)) as u8]
    } else if v < 0x10000 {
        seq![(0xE0 | (v >> 12)) as u8, (0x80 | ((v >> 6) & 0x3F)) as u8, (0x80 | (v & 0x3F)) as u8]
    } else {
        seq![
            (0xF0 | (v >> 18)) as u8,
            (0x80 | ((v >> 12) & 0x3F)) as u8,
            (0x80 | ((v >> 6) & 0x3F)) as u8,
            (0x80 | (v & 0x3F)) as u8,
        ]
    }
}

/// The UTF-8 bytes of a text (what `str::as_bytes` gives).
pub open spec fn utf8_encode(s: Seq<char>) -> Seq<u8>
    decreases s.len(),
{
    if s.len() == 0 {
        seq![]
    } else {
        utf8_encode(s.drop_last()) + utf8_char(s.last())
    }
}

/// The UTF-8 bytes of `s`.
pub fn utf8_bytes(s: &str) -> (b: Vec<u8>)
    ensures
        b@ == utf8_encode(s@),
{
    let cs = str_chars(s);
    let mut b: Vec<u8> = Vec::new();
    let mut i: usize = 0;
    while i < cs.len()
        invariant
            i <= cs@.len(),
            cs@ == s@,
            b@ == utf8_encode(cs@.take(i as int)),
        decreases cs.len() - i,
    {
        let ghost before = b@;
        let v = cs[i] as u32;
        if v < 0x80 {
            b.push(v as u8);
        } else if v < 0x800 {
            b.push((0xC0 | (v >> 6)) as u8);
            b.push((0x80 | (v & 0x3F)) as u8);
        } else if v < 0x10000 {
            b.push((0xE0 | (v >> 12)) as u8);
            b.push((0x80 | ((v >> 6) & 0x3F)) as u8);
            b.push((0x80 | (v & 0x3F)) as u8);
        } else {
            b.push((0xF0 | (v >> 18)) as u8);
            b.push((0x80 | ((v >> 12) & 0x3F)) as u8);
            b.push((0x80 | ((v >> 6) & 0x3F)) as u8);
            b.push((0x80 | (v & 0x3F)) as u8);
        }
        assert(cs@.take(i + 1).drop_last() =~= cs@.take(i as int));
        assert(b@ =~= before + utf8_char(cs@[i as int]));
        i = i + 1;
    }
    assert(cs@.take(i as int) =~= cs@);
    b
}

/// The text `String::from_utf8_lossy` makes of some bytes.
pub uninterp spec fn utf8_lossy(b: Seq<u8>) -> Seq<char>;

/// Calls `String::from_utf8_lossy`. The result is named `utf8_lossy`; the
/// contract states what std documents for valid UTF-8: the text those bytes
/// encode comes back unchanged. Invalid sequences become U+FFFD, which is
/// not restated.
#[verifier::external_body]
fn lossy_text(b: &Vec<u8>) -> (s: String)
    ensures
        s@ == utf8_lossy(b@),
        forall|cs: Seq<char>| b@ == utf8_encode(cs) ==> s@ == cs,
{
    String::from_utf8_lossy(b.as_slice()).into_owned()
}

// ---------------------------------------------------------------------------
// Percent-encoding
// ---------------------------------------------------------------------------

/// Bytes that stand for themselves in a URL component.
pub open spec fn unreserved(b: u8) -> bool {
    ||| (0x41 <= b && b <= 0x5A)
    ||| (0x61 <= b && b <= 0x7A)
    ||| (0x30 <= b && b <= 0x39)
    ||| b == 0x2D
    ||| b == 0x5F
    ||| b == 0x2E
    ||| b == 0x7E
}

/// The lower-case hexadecimal digit for `d` (below 16).
pub open spec fn hex_digit(d: u8) -> char {
    if d < 10 {
        (48 + d) as char
    } else {
        (87 + d) as char
    }
}

/// One byte, percent-encoded when it is not unreserved.
pub open spec fn pct_byte(b: u8) -> Seq<char> {
    if unreserved(b) {
        seq![b as char]
    } else {
        seq!['%', hex_digit(b >> 4), hex_digit(b & 0xF)]
    }
}

/// Bytes, percent-encoded.
pub open spec fn pct_encode(b: Seq<u8>) -> Seq<char>
    decreases b.len(),
{
    if b.len() == 0 {
        seq![]
    } else {
        pct_encode(b.drop_last()) + pct_byte(b.last())
    }
}

fn hex_char(d: u8) -> (c: char)
    requires
        d < 16,
    ensures
        c == hex_digit(d),
{
    if d < 10 {
        ((48u8 + d) as char)
    } else {
        ((87u8 + d) as char)
    }
}

/// Percent-encodes the UTF-8 bytes of `s`, keeping `A-Z a-z 0-9 - _ . ~`.
pub fn url_encode(s: &str) -> (r: String)
    ensures
        r@ == pct_encode(utf8_encode(s@)),
{
    let bytes = utf8_bytes(s);
    let mut out = String::new();
    let mut i: usize = 0;
    while i < bytes.len()
        invariant
            i <= bytes@.len(),
            out@ == pct_encode(bytes@.take(i as int)),
        decreases bytes.len() - i,
    {
        let b = bytes[i];
        assert(bytes@.take(i + 1).drop_last() =~= bytes@.take(i as int));
        let ghost before = out@;
        if (0x41 <= b && b <= 0x5A) || (0x61 <= b && b <= 0x7A) || (0x30 <= b && b <= 0x39) || b == 0x2D
            || b == 0x5F || b == 0x2E || b == 0x7E {
            crate::text::push_char(&mut out, b as char);
        } else {
            crate::text::push_char(&mut out, '%');
            assert(b >> 4 < 16) by (bit_vector);
            assert(b & 0xF < 16) by (bit_vector);
            crate::text::push_char(&mut out, hex_char(b >> 4));
            crate::text::push_char(&mut out, hex_char(b & 0xF));
        }
        assert(out@ =~= before + pct_byte(b));
        i = i + 1;
    }
    assert(bytes@.take(i as int) =~= bytes@);
    out
}

/// The value of a hexadecimal digit byte (either case), if it is one.
pub open spec fn hex_value(b: u8) -> Option<u8> {
    if 0x30 <= b && b <= 0x39 {
        Some((b - 0x30) as u8)
    } else if 0x61 <= b && b <= 0x66 {
        Some((b - 0x61 + 10) as u8)
    } else if 0x41 <= b && b <= 0x46 {
        Some((b - 0x41 + 10) as u8)
    } else {
        None
    }
}

/// Percent-decoding of bytes: `%` and two hex digits become that byte,
/// every other byte is kept.
pub open spec fn pct_decode(b: Seq<u8>) -> Seq<u8>
    decreases b.len(),
{
    if b.len() == 0 {
        seq![]
    } else if b[0] == 0x25 && 2 < b.len() && hex_value(b[1]) is Some && hex_value(b[2]) is Some {
        seq![(hex_value(b[1])->0 * 16 + hex_value(b[2])->0) as u8] + pct_decode(b.subrange(3, b.len() as int))
    } else {
        seq![b[0]] + pct_decode(b.drop_first())
    }
}

fn hex_val(b: u8) -> (r: Option<u8>)
    ensures
        r == hex_value(b),
{
    if 0x30 <= b && b <= 0x39 {
        Some(b - 0x30)
    } else if 0x61 <= b && b <= 0x66 {
        Some(b - 0x61 + 10)
    } else if 0x41 <= b && b <= 0x46 {
        Some(b - 0x41 + 10)
    } else {
        None
    }
}

/// What `url_decode` gives for `s`.
pub open spec fn url_decode_spec(s: Seq<char>) -> Seq<char> {
    utf8_lossy(pct_decode(utf8_encode(s)))
}

/// Percent-decodes `s`; a `%` not followed by two hex digits is kept, and
/// the bytes are read back as UTF-8 (invalid sequences replaced).
pub fn url_decode(s: &str) -> (r: String)
    ensures
        r@ == url_decode_spec(s@),
        forall|cs: Seq<char>| pct_decode(utf8_encode(s@)) == #[trigger] utf8_encode(cs) ==> r@ == cs,
        forall|t: Seq<char>| s@ == #[trigger] pct_encode(utf8_encode(t)) ==> r@ == t,
{
    let bytes = utf8_bytes(s);
    let mut out: Vec<u8> = Vec::new();
    let mut i: usize = 0;
    assert(bytes@.subrange(0, bytes@.len() as int) =~= bytes@);
    while i < bytes.len()
        invariant
            i <= bytes@.len(),
            pct_decode(bytes@) == out@ + pct_decode(bytes@.subrange(i as int, bytes@.len() as int)),
        decreases bytes.len() - i,
    {
        let ghost rest = bytes@.subrange(i as int, bytes@.len() as int);
        assert(rest[0] == bytes@[i as int]);
        if bytes[i] == 0x25 && bytes.len() - i > 2 {
            assert(rest[1] == bytes@[i + 1] && rest[2] == bytes@[i + 2]);
            let hi = hex_val(bytes[i + 1]);
            let lo = hex_val(bytes[i + 2]);
            if hi.is_some() && lo.is_some() {
                let h = hi.unwrap();
                let l = lo.unwrap();
                assert(h < 16 && l < 16);
                let v = h * 16 + l;
                out.push(v);
                assert(rest.subrange(3, rest.len() as int) =~= bytes@.subrange(i + 3, bytes@.len() as int));
                assert(pct_decode(rest) == seq![v] + pct_decode(rest.subrange(3, rest.len() as int)));
                i = i + 3;
                continue;
            }
        }
        out.push(bytes[i]);
        assert(rest.drop_first() =~= bytes@.subrange(i + 1, bytes@.len() as int));
        i = i + 1;
    }
    assert(pct_decode(bytes@.subrange(i as int, bytes@.len() as int)) =~= seq![]);
    assert(out@ =~= pct_decode(bytes@));
    let r = lossy_text(&out);
    assert forall|t: Seq<char>| s@ == pct_encode(utf8_encode(t)) implies r@ == t by {
        lemma_url_round_trip(t);
    }
    r
}

// ---------------------------------------------------------------------------
// The authorization callback
// ---------------------------------------------------------------------------

/// The first index at or after `i` that is not whitespace (or the end).
pub open spec fn skip_ws(s: Seq<char>, i: int) -> int
    decreases s.len() - i,
{
    if i < 0 || i >= s.len() {
        s.len() as int
    } else if is_ws(s[i]) {
        skip_ws(s, i + 1)
    } else {
        i
    }
}

/// The first index at or after `i` that is whitespace (or the end).
pub open spec fn skip_word(s: Seq<char>, i: int) -> int
    decreases s.len() - i,
{
    if i < 0 || i >= s.len() {
        s.len() as int
    } else if is_ws(s[i]) {
        i
    } else {
        skip_word(s, i + 1)
    }
}

/// The second whitespace-separated word of `s` (`split_whitespace().nth(1)`).
pub open spec fn second_word(s: Seq<char>) -> Option<Seq<char>> {
    let a = skip_ws(s, 0);
    let b = skip_word(s, a);
    let c = skip_ws(s, b);
    if c < s.len() {
        Some(s.subrange(c, skip_word(s, c)))
    } else {
        None
    }
}

/// What follows the first `?` of a path.
pub open spec fn query_of(path: Seq<char>) -> Option<Seq<char>> {
    match find_from(path, '?', 0) {
        None => None,
        Some(i) => Some(path.subrange(i + 1, path.len() as int)),
    }
}

/// The value of the first `code=` pair.
pub open spec fn code_in(pairs: Seq<Seq<char>>) -> Option<Seq<char>>
    decreases pairs.len(),
{
    if pairs.len() == 0 {
        None
    } else if starts_with(pairs[0], "code="@) {
        Some(pairs[0].subrange(5, pairs[0].len() as int))
    } else {
        code_in(pairs.drop_first())
    }
}

/// The authorization code carried by the request line of the browser's
/// callback (`GET /callback?code=...&... HTTP/1.1`), percent-decoded.
pub open spec fn extract_code_spec(line: Seq<char>) -> Option<Seq<char>> {
    match second_word(line) {
        None => None,
        Some(path) => match query_of(path) {
            None => None,
            Some(q) => match code_in(split_on(q, '&')) {
                None => None,
                Some(v) => Some(url_decode_spec(v)),
            },
        },
    }
}

fn skip_ws_exec(v: &Vec<char>, i: usize) -> (r: usize)
    requires
        i <= v.len(),
    ensures
        r == skip_ws(v@, i as int),
        i <= r <= v.len(),
{
    let mut k = i;
    while k < v.len() && is_whitespace(v[k])
        invariant
            i <= k <= v.len(),
            skip_ws(v@, i as int) == skip_ws(v@, k as int),
        decreases v.len() - k,
    {
        k = k + 1;
    }
    k
}

fn skip_word_exec(v: &Vec<char>, i: usize) -> (r: usize)
    requires
        i <= v.len(),
    ensures
        r == skip_word(v@, i as int),
        i <= r <= v.len(),
{
    let mut k = i;
    while k < v.len() && !is_whitespace(v[k])
        invariant
            i <= k <= v.len(),
            skip_word(v@, i as int) == skip_word(v@, k as int),
        decreases v.len() - k,
    {
        k = k + 1;
    }
    k
}

fn find_char(v: &Vec<char>, c: char) -> (r: Option<usize>)
    ensures
        match r {
            Some(i) => find_from(v@, c, 0) == Some(i as int) && i < v@.len(),
            None => find_from(v@, c, 0) is None,
        },
{
    let mut i: usize = 0;
    while i < v.len()
        invariant
            i <= v@.len(),
            find_from(v@, c, 0) == find_from(v@, c, i as int),
        decreases v.len() - i,
    {
        if v[i] == c {
            return Some(i);
        }
        i = i + 1;
    }
    None
}

/// The authorization code in the request line of the browser's callback.
pub fn extract_code_from_request_line(line: &str) -> (r: Option<String>)
    ensures
        match r {
            Some(c) => extract_code_spec(line@) == Some(c@),
            None => extract_code_spec(line@) is None,
        },
{
    let v = str_chars(line);
    let a = skip_ws_exec(&v, 0);
    let b = skip_word_exec(&v, a);
    let c = skip_ws_exec(&v, b);
    if c >= v.len() {
        return None;
    }
    let d = skip_word_exec(&v, c);
    let path = str_chars(string_from_chars(&v, c, d).as_str());
    let q = match find_char(&path, '?') {
        None => return None,
        Some(i) => i,
    };
    let query = str_chars(string_from_chars(&path, q + 1, path.len()).as_str());
    let pairs = split_chars(&query, '&');
    let ghost ps = pairs@.map_values(|p: String| p@);
    let prefix = String::from_str("code=");
    proof {
        reveal_strlit("code=");
    }
    assert(ps.subrange(0, ps.len() as int) =~= ps);
    assert(query_of(path@) == Some(query@));
    assert(second_word(line@) == Some(path@));
    let mut j: usize = 0;
    while j < pairs.len()
        invariant
            j <= pairs@.len(),
            ps == pairs@.map_values(|p: String| p@),
            prefix@ == "code="@,
            "code="@.len() == 5,
            ps == split_on(query@, '&'),
            query_of(path@) == Some(query@),
            second_word(line@) == Some(path@),
            code_in(ps) == code_in(ps.subrange(j as int, ps.len() as int)),
        decreases pairs.len() - j,
    {
        let ghost rest = ps.subrange(j as int, ps.len() as int);
        assert(rest[0] == pairs@[j as int]@);
        assert(rest.drop_first() =~= ps.subrange(j + 1, ps.len() as int));
        if crate::tui::text_starts_with(&pairs[j], &prefix) {
            let pv = str_chars(pairs[j].as_str());
            let value = string_from_chars(&pv, 5, pv.len());
            assert(code_in(ps) == Some(value@));
            assert(ps == split_on(query@, '&'));
            assert(query_of(path@) == Some(query@));
            assert(second_word(line@) == Some(path@));
            return Some(url_decode(value.as_str()));
        }
        j = j + 1;
    }
    assert(ps.subrange(j as int, ps.len() as int) =~= seq![]);
    None
}

// ---------------------------------------------------------------------------
// Saved tokens
// ---------------------------------------------------------------------------

/// Tokens obtained from Keycloak.
pub struct OidcTokens {
    pub access_token: String,
    pub refresh_token: Option<String>,
    /// Unix timestamp (seconds) after which the access token is considered
    /// expired.
    pub expires_at: u64,
}

impl OidcTokens {
    /// Expired at `now`, with a 30 second margin.
    pub open spec fn expired_at(&self, now: u64) -> bool {
        now >= (if self.expires_at >= 30 {
            self.expires_at - 30
        } else {
            0
        })
    }

    /// Whether the access token counts as expired at `now` (Unix seconds):
    /// within 30 seconds of its expiry or past it.
    pub fn is_expired_at(&self, now: u64) -> (r: bool)
        ensures
            r == self.expired_at(now),
    {
        now >= self.expires_at.saturating_sub(30)
    }

    /// Whether the access token counts as expired now. Whatever the clock
    /// says, a token that expires within the first 30 seconds of the epoch
    /// is expired.
    pub fn is_expired(&self) -> (r: bool)
        ensures
            self.expires_at <= 30 ==> r,
    {
        let now = unix_now();
        self.is_expired_at(now)
    }
}

/// Reads the system clock as Unix seconds (`SystemTime::now()` since
/// `UNIX_EPOCH`, 0 if the clock is before it). Nothing is promised of the
/// value.
#[verifier::external_body]
fn unix_now() -> u64 {
    std::time::SystemTime::now().duration_since(std::time::UNIX_EPOCH).unwrap_or_default().as_secs()
}

/// The tokens of a token response read at `now`.
pub fn tokens_from_response(access_token: String, refresh_token: Option<String>, expires_in: u64, now: u64) -> (t: OidcTokens)
    requires
        now + expires_in <= u64::MAX,
    ensures
        t.access_token == access_token,
        t.refresh_token == refresh_token,
        t.expires_at == now + expires_in,
{
    OidcTokens { access_token, refresh_token, expires_at: now + expires_in }
}

/// The refresh token that logging out revokes at Keycloak, if saved tokens
/// hold one.
pub fn refresh_token_to_revoke(tokens: &Option<OidcTokens>) -> (r: Option<String>)
    ensures
        match tokens {
            Some(t) => match (r, t.refresh_token) {
                (Some(a), Some(b)) => a@ == b@,
                (None, None) => true,
                _ => false,
            },
            None => r is None,
        },
{
    match tokens {
        Some(t) => match &t.refresh_token {
            Some(rt) => Some(rt.clone()),
            None => None,
        },
        None => None,
    }
}

// ---------------------------------------------------------------------------
// PKCE
// ---------------------------------------------------------------------------

/// The SHA-256 digest of some bytes.
pub uninterp spec fn sha256(b: Seq<u8>) -> Seq<u8>;

/// Computes `sha2::Sha256::digest`. The digest is named `sha256`; it is
/// 32 bytes long. The hash function itself is not restated.
#[verifier::external_body]
fn sha256_digest(b: &Vec<u8>) -> (d: Vec<u8>)
    ensures
        d@ == sha256(b@),
        d@.len() == 32,
{
    <sha2::Sha256 as sha2::Digest>::digest(b.as_slice()).to_vec()
}

/// The URL-safe base64 text, without padding, of some bytes.
pub uninterp spec fn base64_url(b: Seq<u8>) -> Seq<char>;

/// Encodes with `base64`'s `URL_SAFE_NO_PAD` engine. The text is named
/// `base64_url`; the encoding is not restated.
#[verifier::external_body]
fn base64_url_encode(b: &Vec<u8>) -> (s: String)
    ensures
        s@ == base64_url(b@),
{
    base64::Engine::encode(&base64::engine::general_purpose::URL_SAFE_NO_PAD, b.as_slice())
}

/// Thirty-two random bytes from two version-4 UUIDs (drawn from the OS's
/// random source). Only their number is promised.
#[verifier::external_body]
fn random_bytes() -> (b: Vec<u8>)
    ensures
        b@.len() == 32,
{
    let mut b = uuid::Uuid::new_v4().as_bytes().to_vec();
    b.extend_from_slice(uuid::Uuid::new_v4().as_bytes());
    b
}

/// A fresh PKCE code verifier: 32 random bytes in URL-safe base64.
pub fn generate_code_verifier() -> (v: String)
    ensures
        exists|b: Seq<u8>| b.len() == 32 && v@ == base64_url(b),
{
    let b = random_bytes();
    base64_url_encode(&b)
}

/// The PKCE challenge of a verifier: its SHA-256 digest in URL-safe base64.
pub fn pkce_challenge(verifier: &str) -> (c: String)
    ensures
        c@ == base64_url(sha256(utf8_encode(verifier@))),
{
    let b = utf8_bytes(verifier);
    let d = sha256_digest(&b);
    base64_url_encode(&d)
}

// ---------------------------------------------------------------------------
// Keycloak endpoints
// ---------------------------------------------------------------------------

/// A realm's OpenID Connect endpoint `name`.
pub open spec fn endpoint(keycloak_url: Seq<char>, realm: Seq<char>, name: Seq<char>) -> Seq<char> {
    keycloak_url + "/realms/"@ + realm + "/protocol/openid-connect/"@ + name
}

fn endpoint_url(keycloak_url: &str, realm: &str, name: &str) -> (s: String)
    ensures
        s@ == endpoint(keycloak_url@, realm@, name@),
{
    let mut s = String::from_str(keycloak_url);
    s.append("/realms/");
    s.append(realm);
    s.append("/protocol/openid-connect/");
    s.append(name);
    s
}

/// The token endpoint.
pub fn token_url(keycloak_url: &str, realm: &str) -> (s: String)
    ensures
        s@ == endpoint(keycloak_url@, realm@, "token"@),
{
    endpoint_url(keycloak_url, realm, "token")
}

/// The end-session endpoint.
pub fn logout_url(keycloak_url: &str, realm: &str) -> (s: String)
    ensures
        s@ == endpoint(keycloak_url@, realm@, "logout"@),
{
    endpoint_url(keycloak_url, realm, "logout")
}

/// Where the browser is sent back to after login.
pub fn redirect_uri(port: u16) -> (s: String)
    ensures
        s@ == "http://localhost:"@ + crate::tui_model::decimal(port as nat) + "/callback"@,
{
    let mut s = String::from_str("http://localhost:");
    s.append(crate::tui::decimal_text(port as usize).as_str());
    s.append("/callback");
    s
}

/// The authorization URL the browser opens for a PKCE login.
pub open spec fn auth_url_spec(
    keycloak_url: Seq<char>,
    realm: Seq<char>,
    client_id: Seq<char>,
    redirect: Seq<char>,
    challenge: Seq<char>,
) -> Seq<char> {
    endpoint(keycloak_url, realm, "auth"@) + "?response_type=code&client_id="@ + client_id + "&redirect_uri="@
        + pct_encode(utf8_encode(redirect)) + "&code_challenge="@ + challenge
        + "&code_challenge_method=S256&scope=openid+email+profile"@
}

/// The authorization URL the browser opens for a PKCE login.
pub fn auth_url(keycloak_url: &str, realm: &str, client_id: &str, redirect: &str, challenge: &str) -> (s: String)
    ensures
        s@ == auth_url_spec(keycloak_url@, realm@, client_id@, redirect@, challenge@),
{
    let mut s = endpoint_url(keycloak_url, realm, "auth");
    s.append("?response_type=code&client_id=");
    s.append(client_id);
    s.append("&redirect_uri=");
    s.append(url_encode(redirect).as_str());
    s.append("&code_challenge=");
    s.append(challenge);
    s.append("&code_challenge_method=S256&scope=openid+email+profile");
    s
}

// ---------------------------------------------------------------------------
// Laws of the URL coding
// ---------------------------------------------------------------------------

/// The UTF-8 bytes of two texts in a row are the bytes of each in a row.
pub proof fn lemma_utf8_concat(a: Seq<char>, b: Seq<char>)
    ensures
        utf8_encode(a + b) == utf8_encode(a) + utf8_encode(b),
    decreases b.len(),
{
    if b.len() == 0 {
        assert(a + b =~= a);
        assert(utf8_encode(a) + utf8_encode(b) =~= utf8_encode(a));
    } else {
        lemma_utf8_concat(a, b.drop_last());
        assert((a + b).drop_last() =~= a + b.drop_last());
        assert((a + b).last() == b.last());
        assert(utf8_encode(a) + utf8_encode(b) =~= utf8_encode(a) + utf8_encode(b.drop_last()) + utf8_char(
            b.last(),
        ));
    }
}

/// Percent-encoding, read from the front.
proof fn lemma_pct_encode_front(bs: Seq<u8>)
    requires
        bs.len() > 0,
    ensures
        pct_encode(bs) == pct_byte(bs[0]) + pct_encode(bs.drop_first()),
    decreases bs.len(),
{
    if bs.len() == 1 {
        assert(bs.drop_last() =~= seq![]);
        assert(bs.drop_first() =~= seq![]);
        assert(pct_encode(bs.drop_last()) =~= seq![]);
        assert(pct_byte(bs[0]) + pct_encode(bs.drop_first()) =~= pct_byte(bs[0]));
    } else {
        lemma_pct_encode_front(bs.drop_last());
        assert(bs.drop_last().drop_first() =~= bs.drop_first().drop_last());
        assert(bs.drop_first().last() == bs.last());
        assert(bs.drop_last()[0] == bs[0]);
        assert(pct_byte(bs[0]) + pct_encode(bs.drop_first()) =~= pct_byte(bs[0]) + pct_encode(
            bs.drop_last().drop_first(),
        ) + pct_byte(bs.last()));
    }
}

proof fn lemma_hex_digit(d: u8)
    requires
        d < 16,
    ensures
        (hex_digit(d) as u32) < 0x80,
        hex_value((hex_digit(d) as u32) as u8) == Some(d),
{
}

proof fn lemma_utf8_single_ascii(c: char)
    requires
        (c as u32) < 0x80,
    ensures
        utf8_encode(seq![c]) == seq![(c as u32) as u8],
{
    assert(seq![c].drop_last() =~= Seq::<char>::empty());
    assert(seq![c].last() == c);
    assert(utf8_encode(Seq::<char>::empty()) =~= Seq::<u8>::empty());
    assert(utf8_encode(seq![c]) =~= seq![(c as u32) as u8]);
}

/// Decoding the UTF-8 bytes of one percent-encoded byte gives that byte
/// back, whatever follows.
proof fn lemma_decode_one(b: u8, rest: Seq<u8>)
    ensures
        pct_decode(utf8_encode(pct_byte(b)) + rest) == seq![b] + pct_decode(rest),
{
    if unreserved(b) {
        assert(((b as char) as u32) == b);
        lemma_utf8_single_ascii(b as char);
        assert(utf8_encode(pct_byte(b)) =~= seq![b]);
        let x = seq![b] + rest;
        assert(x[0] == b);
        assert(x.drop_first() =~= rest);
    } else {
        assert((b >> 4) < 16 && (b & 0xF) < 16 && (b >> 4) * 16 + (b & 0xF) == b) by (bit_vector);
        let hi = b >> 4;
        let lo = b & 0xF;
        lemma_hex_digit(hi);
        lemma_hex_digit(lo);
        let cs = seq!['%', hex_digit(hi), hex_digit(lo)];
        assert(cs =~= seq!['%'] + seq![hex_digit(hi)] + seq![hex_digit(lo)]);
        lemma_utf8_concat(seq!['%'] + seq![hex_digit(hi)], seq![hex_digit(lo)]);
        lemma_utf8_concat(seq!['%'], seq![hex_digit(hi)]);
        lemma_utf8_single_ascii('%');
        lemma_utf8_single_ascii(hex_digit(hi));
        lemma_utf8_single_ascii(hex_digit(lo));
        let h1 = (hex_digit(hi) as u32) as u8;
        let h2 = (hex_digit(lo) as u32) as u8;
        assert(utf8_encode(cs) =~= seq![0x25u8, h1, h2]);
        let x = seq![0x25u8, h1, h2] + rest;
        assert(x.subrange(3, x.len() as int) =~= rest);
        assert(x[0] == 0x25u8 && x[1] == h1 && x[2] == h2);
    }
}

/// Decoding the UTF-8 bytes of a percent-encoding gives the encoded bytes
/// back.
pub proof fn lemma_pct_round_trip(bs: Seq<u8>)
    ensures
        pct_decode(utf8_encode(pct_encode(bs))) == bs,
    decreases bs.len(),
{
    if bs.len() == 0 {
        assert(pct_encode(bs) =~= seq![]);
        assert(utf8_encode(Seq::<char>::empty()) =~= seq![]);
    } else {
        lemma_pct_encode_front(bs);
        lemma_utf8_concat(pct_byte(bs[0]), pct_encode(bs.drop_first()));
        lemma_decode_one(bs[0], utf8_encode(pct_encode(bs.drop_first())));
        lemma_pct_round_trip(bs.drop_first());
        assert(seq![bs[0]] + bs.drop_first() =~= bs);
    }
}

/// Decoding an encoded text gives back the UTF-8 bytes of the text, which
/// `url_decode` reads back as the text itself.
pub proof fn lemma_url_round_trip(s: Seq<char>)
    ensures
        pct_decode(utf8_encode(pct_encode(utf8_encode(s)))) == utf8_encode(s),
{
    lemma_pct_round_trip(utf8_encode(s));
}

} // verus!
