//! HTTP Basic authentication of the web interface.

use crate::text::{chars_of, find_in, string_from};
use base64::{engine::general_purpose::STANDARD, Engine};
use vstd::prelude::*;

verus! {

/// Paths that chat platforms post to without the operator's credentials.
pub const PUBLIC_INGEST_PATH: &'static str = "/api/chat/ingest";

/// The `WWW-Authenticate` challenge sent with a refused request.
pub const AUTH_CHALLENGE: &'static str = "Basic realm=\"stream-infra\", charset=\"UTF-8\"";

/// The body of a refused request.
pub const AUTH_REQUIRED_MESSAGE: &'static str = "Authentication required";

/// The operator's web credentials; both empty means the interface is open.
#[derive(Debug, Clone)]
pub struct WebAuthSettings {
    pub username: String,
    pub password: String,
}

/// Whether two byte strings are equal, comparing every byte whatever the
/// earlier bytes were, so that the time taken does not reveal where they differ.
pub fn constant_time_eq(expected: &[u8], submitted: &[u8]) -> (r: bool)
    ensures
        r == (expected@ == submitted@),
{
    if expected.len() != submitted.len() {
        return false;
    }
    let mut difference: u8 = 0;
    let mut k: usize = 0;
    while k < expected.len()
        invariant
            expected@.len() == submitted@.len(),
            k <= expected@.len(),
            (difference == 0) == (forall|m: int| 0 <= m < k ==> expected@[m] == submitted@[m]),
        decreases expected@.len() - k,
    {
        let left = expected[k];
        let right = submitted[k];
        let next = difference | (left ^ right);
        assert((difference | (left ^ right)) == 0 <==> (difference == 0 && left == right))
            by (bit_vector);
        difference = next;
        k += 1;
    }
    assert(expected@ =~= submitted@ <==> (forall|m: int| 0 <= m < expected@.len() ==> expected@[m] == submitted@[m]));
    difference == 0
}

/// What standard Base64 (with padding) decodes `input` to, as
/// `base64::engine::general_purpose::STANDARD.decode` computes it.
pub uninterp spec fn base64_standard_decode(input: Seq<u8>) -> Option<Seq<u8>>;

/// The Base64 digit for a 6-bit value in the standard (RFC 4648) alphabet:
/// `A`-`Z`, `a`-`z`, `0`-`9`, `+`, `/`.
pub open spec fn base64_digit(v: int) -> u8 {
    if v < 26 {
        (65 + v) as u8
    } else if v < 52 {
        (97 + v - 26) as u8
    } else if v < 62 {
        (48 + v - 52) as u8
    } else if v == 62 {
        43u8
    } else {
        47u8
    }
}

/// The standard Base64 encoding of `b`, with `=` padding (RFC 4648, section 4).
pub open spec fn base64_standard_encode(b: Seq<u8>) -> Seq<u8>
    decreases b.len(),
{
    if b.len() == 0 {
        Seq::empty()
    } else if b.len() == 1 {
        seq![base64_digit((b[0] as int) / 4), base64_digit(((b[0] as int) % 4) * 16), 61u8, 61u8]
    } else if b.len() == 2 {
        seq![
            base64_digit((b[0] as int) / 4),
            base64_digit(((b[0] as int) % 4) * 16 + (b[1] as int) / 16),
            base64_digit(((b[1] as int) % 16) * 4),
            61u8,
        ]
    } else {
        seq![
            base64_digit((b[0] as int) / 4),
            base64_digit(((b[0] as int) % 4) * 16 + (b[1] as int) / 16),
            base64_digit(((b[1] as int) % 16) * 4 + (b[2] as int) / 64),
            base64_digit((b[2] as int) % 64),
        ] + base64_standard_encode(b.skip(3))
    }
}

/// Decodes standard Base64 with `base64::engine::general_purpose::STANDARD`.
/// The contract names the result [`base64_standard_decode`], and claims what
/// the engine's documentation promises of the standard alphabet with padding:
/// the padded standard encoding of any bytes decodes back to those bytes.
#[verifier::external_body]
fn decode_base64(input: &[u8]) -> (r: Option<Vec<u8>>)
    ensures
        match base64_standard_decode(input@) {
            Some(bytes) => r matches Some(v) && v@ == bytes,
            None => r is None,
        },
        r is None ==> forall|b: Seq<u8>| #[trigger] base64_standard_encode(b) != input@,
        r matches Some(v) ==> forall|b: Seq<u8>| #[trigger] base64_standard_encode(b) == input@ ==> v@ == b,
{
    STANDARD.decode(input).ok()
}

/// `String::from_utf8`: the text that `bytes` encode, when they are valid UTF-8.
#[verifier::external_body]
fn utf8_string(bytes: Vec<u8>) -> (r: Option<String>)
    ensures
        r is Some <==> vstd::utf8::valid_utf8(bytes@),
        r matches Some(s) ==> s@ == vstd::utf8::decode_utf8(bytes@),
{
    String::from_utf8(bytes).ok()
}

pub open spec fn basic_prefix() -> Seq<u8> {
    seq![66u8, 97u8, 115u8, 105u8, 99u8, 32u8]
}

/// `(username, password)` from decoded credentials `user:password`.
pub open spec fn split_credentials(decoded: Seq<u8>) -> Option<(Seq<char>, Seq<char>)> {
    if vstd::utf8::valid_utf8(decoded) {
        crate::text::split_once(vstd::utf8::decode_utf8(decoded), seq![':'])
    } else {
        None
    }
}

/// The credentials that an `Authorization: Basic ...` header value carries.
pub open spec fn header_credentials(header: Seq<u8>) -> Option<(Seq<char>, Seq<char>)> {
    if header.len() >= 6 && header.take(6) == basic_prefix() {
        match base64_standard_decode(header.skip(6)) {
            Some(decoded) => split_credentials(decoded),
            None => None,
        }
    } else {
        None
    }
}

pub open spec fn pair_view(p: Option<(String, String)>) -> Option<(Seq<char>, Seq<char>)> {
    match p {
        Some((a, b)) => Some((a@, b@)),
        None => None,
    }
}

/// Splits decoded credentials `user:password` at the first colon.
pub fn credentials_from_decoded(decoded: Vec<u8>) -> (r: Option<(String, String)>)
    ensures
        pair_view(r) == split_credentials(decoded@),
{
    let ghost bytes = decoded@;
    let text = match utf8_string(decoded) {
        Some(t) => t,
        None => return None,
    };
    let v = chars_of(text.as_str());
    let colon = [':'];
    assert(colon@ =~= seq![':']);
    assert(v@.subrange(0, v@.len() as int) =~= v@);
    match find_in(&v, 0, v.len(), &colon) {
        Some(k) => {
            assert(v@.take(k as int) =~= v@.subrange(0, k as int));
            assert(v@.skip(k + 1) =~= v@.subrange(k + 1, v@.len() as int));
            Some((string_from(&v, 0, k), string_from(&v, k + 1, v.len())))
        },
        None => None,
    }
}

/// `s` holds no `:`.
pub open spec fn no_colon(s: Seq<char>) -> bool {
    forall|k: int| 0 <= k < s.len() ==> s[k] != ':'
}

/// The bytes of the header value a browser sends for `user` and `password`:
/// `Basic ` and the standard Base64 of `user:password` in UTF-8.
pub open spec fn basic_header(user: Seq<char>, password: Seq<char>) -> Seq<u8> {
    basic_prefix() + base64_standard_encode(vstd::utf8::encode_utf8(user + seq![':'] + password))
}

/// Credentials `user:password`, with no colon in the user name, split back
/// into the user name and the password.
pub proof fn credentials_split_at_the_first_colon(user: Seq<char>, password: Seq<char>)
    requires
        no_colon(user),
    ensures
        split_credentials(vstd::utf8::encode_utf8(user + seq![':'] + password)) == Some((user, password)),
{
    let t = user + seq![':'] + password;
    vstd::utf8::encode_utf8_valid_utf8(t);
    vstd::utf8::encode_utf8_decode_utf8(t);
    crate::text::lemma_find_char(t, ':', user.len() as int);
    assert(t.take(user.len() as int) =~= user);
    assert(t.skip(user.len() as int + 1) =~= password);
}

/// The credentials of an `Authorization` header value `Basic <base64 of user:password>`.
pub fn submitted_credentials(authorization: &str) -> (r: Option<(String, String)>)
    ensures
        pair_view(r) == header_credentials(vstd::utf8::encode_utf8(authorization@)),
        forall|user: Seq<char>, password: Seq<char>|
            #![trigger basic_header(user, password)]
            no_colon(user) && vstd::utf8::encode_utf8(authorization@) == basic_header(user, password)
                ==> pair_view(r) == Some((user, password)),
{
    let h = authorization.as_bytes();
    assert forall|u: Seq<char>, p: Seq<char>|
        #![trigger basic_header(u, p)]
        no_colon(u) && h@ == basic_header(u, p) implies h@.len() >= 6 && h@.take(6) == basic_prefix()
        && h@.skip(6) == base64_standard_encode(vstd::utf8::encode_utf8(u + seq![':'] + p)) by {
        assert(basic_header(u, p).take(6) =~= basic_prefix());
        assert(basic_header(u, p).skip(6) =~= base64_standard_encode(
            vstd::utf8::encode_utf8(u + seq![':'] + p),
        ));
    }
    let prefix: [u8; 6] = [66u8, 97u8, 115u8, 105u8, 99u8, 32u8];
    if h.len() < 6 {
        return None;
    }
    let mut k: usize = 0;
    while k < 6
        invariant
            h@.len() >= 6,
            h@ == vstd::utf8::encode_utf8(authorization@),
            k <= 6,
            prefix@ == basic_prefix(),
            forall|m: int| 0 <= m < k ==> h@[m] == basic_prefix()[m],
        decreases 6 - k,
    {
        if h[k] != prefix[k] {
            assert(h@.take(6)[k as int] != basic_prefix()[k as int]);
            assert(h@.take(6) != basic_prefix());
            return None;
        }
        k += 1;
    }
    assert(h@.take(6) =~= basic_prefix());
    let mut encoded: Vec<u8> = Vec::new();
    let mut i: usize = 6;
    while i < h.len()
        invariant
            6 <= i <= h@.len(),
            h@ == vstd::utf8::encode_utf8(authorization@),
            h@.take(6) == basic_prefix(),
            encoded@ == h@.subrange(6, i as int),
        decreases h@.len() - i,
    {
        encoded.push(h[i]);
        assert(h@.subrange(6, i + 1) =~= h@.subrange(6, i as int).push(h@[i as int]));
        i += 1;
    }
    assert(encoded@ =~= h@.skip(6));
    let result = decode_base64(encoded.as_slice());
    match result {
        Some(decoded) => {
            let ghost bytes = decoded@;
            let r = credentials_from_decoded(decoded);
            assert forall|u: Seq<char>, p: Seq<char>|
                #![trigger basic_header(u, p)]
                no_colon(u) && h@ == basic_header(u, p) implies pair_view(r) == Some((u, p)) by {
                assert(base64_standard_encode(vstd::utf8::encode_utf8(u + seq![':'] + p)) == encoded@);
                credentials_split_at_the_first_colon(u, p);
            }
            r
        },
        None => {
            assert forall|u: Seq<char>, p: Seq<char>|
                #![trigger basic_header(u, p)]
                no_colon(u) && h@ == basic_header(u, p) implies false by {
                assert(base64_standard_encode(vstd::utf8::encode_utf8(u + seq![':'] + p)) == encoded@);
            }
            None
        },
    }
}

/// Whether a request may proceed: the public ingest path always may; an
/// interface without credentials is open; otherwise the submitted username and
/// password must both match.
pub open spec fn authorized(
    path: Seq<char>,
    username: Seq<char>,
    password: Seq<char>,
    submitted: Option<(Seq<char>, Seq<char>)>,
) -> bool {
    ||| path == PUBLIC_INGEST_PATH@
    ||| (username.len() == 0 && password.len() == 0)
    ||| (submitted matches Some((u, p)) && vstd::utf8::encode_utf8(u) == vstd::utf8::encode_utf8(
        username,
    ) && vstd::utf8::encode_utf8(p) == vstd::utf8::encode_utf8(password))
}

/// Decides whether a request for `path` with the given submitted credentials is let through.
pub fn authorize(path: &str, auth: &WebAuthSettings, submitted: &Option<(String, String)>) -> (r:
    bool)
    ensures
        r == authorized(path@, auth.username@, auth.password@, pair_view(*submitted)),
{
    let p = path.to_owned();
    if p == PUBLIC_INGEST_PATH.to_owned() {
        return true;
    }
    if auth.username.as_str().is_empty() && auth.password.as_str().is_empty() {
        return true;
    }
    match submitted {
        Some((user, pass)) => constant_time_eq(auth.username.as_str().as_bytes(), user.as_str().as_bytes())
            && constant_time_eq(auth.password.as_str().as_bytes(), pass.as_str().as_bytes()),
        None => false,
    }
}

/// Once credentials are configured, every path but the public ingest path
/// requires them: a request passes exactly when it submits the configured
/// username and password.
pub proof fn configured_credentials_are_required(
    path: Seq<char>,
    username: Seq<char>,
    password: Seq<char>,
    submitted: Option<(Seq<char>, Seq<char>)>,
)
    requires
        path != PUBLIC_INGEST_PATH@,
        username.len() > 0 || password.len() > 0,
    ensures
        authorized(path, username, password, submitted) <==> submitted == Some((username, password)),
{
    if let Some((u, p)) = submitted {
        if vstd::utf8::encode_utf8(u) == vstd::utf8::encode_utf8(username)
            && vstd::utf8::encode_utf8(p) == vstd::utf8::encode_utf8(password) {
            vstd::utf8::encode_utf8_decode_utf8(u);
            vstd::utf8::encode_utf8_decode_utf8(username);
            vstd::utf8::encode_utf8_decode_utf8(p);
            vstd::utf8::encode_utf8_decode_utf8(password);
        }
    }
}

} // verus!
