//! Time-limited TURN relay credentials, shared-secret style: the username is
//! the expiry time and a fixed suffix, the password is the Base64 of the
//! HMAC-SHA1 of the username under the secret shared with the TURN server.
use vstd::prelude::*;
use vstd::utf8::encode_utf8;
use base64::Engine;
use base64::engine::general_purpose::STANDARD;
use hmac::{Hmac, Mac};
use sha1::Sha1;
use crate::clock::now_secs;
use crate::decimal::{decimal, push_decimal};

verus! {

/// How long issued credentials stay valid, in seconds (one day).
pub const TURN_TTL_SECS: u64 = 86400;

/// The reply of the credentials endpoint.
#[derive(Debug, Clone, PartialEq, Eq)]
pub struct TurnCredentials {
    pub urls: String,
    pub username: String,
    pub credential: String,
}

/// The HMAC-SHA1 tag of `message` under `key`.
pub uninterp spec fn hmac_sha1(key: Seq<u8>, message: Seq<u8>) -> Seq<u8>;

/// HMAC over SHA-1 from the `hmac` and `sha1` crates: keyed with `key`
/// (HMAC accepts keys of any length, so keying cannot fail), fed `message`,
/// finalized. The tag is named `hmac_sha1(key, message)`; a SHA-1 tag is 20
/// bytes long.
#[verifier::external_body]
fn hmac_sha1_tag(key: &[u8], message: &[u8]) -> (tag: Vec<u8>)
    ensures
        tag@ == hmac_sha1(key@, message@),
        tag@.len() == 20,
{
    let mut mac = <Hmac<Sha1> as Mac>::new_from_slice(key).expect("HMAC takes keys of any length");
    mac.update(message);
    mac.finalize().into_bytes().to_vec()
}

/// The standard Base64 alphabet (RFC 4648): the digit of value `v` is the
/// `v`-th character.
pub open spec fn base64_alphabet() -> Seq<char> {
    seq![
        'A', 'B', 'C', 'D', 'E', 'F', 'G', 'H', 'I', 'J', 'K', 'L', 'M', 'N', 'O', 'P', 'Q', 'R',
        'S', 'T', 'U', 'V', 'W', 'X', 'Y', 'Z', 'a', 'b', 'c', 'd', 'e', 'f', 'g', 'h', 'i', 'j',
        'k', 'l', 'm', 'n', 'o', 'p', 'q', 'r', 's', 't', 'u', 'v', 'w', 'x', 'y', 'z', '0', '1',
        '2', '3', '4', '5', '6', '7', '8', '9', '+', '/',
    ]
}

/// A character of the standard Base64 alphabet: `A`-`Z`, `a`-`z`, `0`-`9`,
/// `+` and `/`.
pub open spec fn is_base64_char(c: char) -> bool {
    base64_alphabet().contains(c)
}

/// The Base64 digit of value `v` (below 64).
pub open spec fn b64(v: int) -> char {
    base64_alphabet()[v]
}

/// The standard padded Base64 encoding of `data` (RFC 4648, section 4): each
/// group of 3 bytes becomes 4 digits of 6 bits each; a last group of 1 or 2
/// bytes is filled with zero bits and the text with `=` to 4 characters.
pub open spec fn base64_standard(data: Seq<u8>) -> Seq<char>
    decreases data.len(),
{
    if data.len() == 0 {
        seq![]
    } else if data.len() == 1 {
        let a = data[0] as int;
        seq![b64(a / 4), b64((a % 4) * 16), '=', '=']
    } else if data.len() == 2 {
        let (a, b) = (data[0] as int, data[1] as int);
        seq![b64(a / 4), b64((a % 4) * 16 + b / 16), b64((b % 16) * 4), '=']
    } else {
        let (a, b, c) = (data[0] as int, data[1] as int, data[2] as int);
        seq![b64(a / 4), b64((a % 4) * 16 + b / 16), b64((b % 16) * 4 + c / 64), b64(c % 64)]
            + base64_standard(data.subrange(3, data.len() as int))
    }
}

/// How many `=` end the padded Base64 text of `n` bytes.
pub open spec fn base64_padding(n: nat) -> nat {
    if n % 3 == 0 {
        0
    } else {
        (3 - n % 3) as nat
    }
}

proof fn lemma_b64_digit(v: int)
    requires
        0 <= v < 64,
    ensures
        is_base64_char(b64(v)),
{
    assert(base64_alphabet().len() == 64);
    assert(base64_alphabet()[v] == b64(v));
}

/// The shape of a Base64 text: 4 characters per started group of 3 bytes, all
/// digits but the padding, which is `=`.
pub proof fn lemma_base64_shape(data: Seq<u8>)
    ensures
        base64_standard(data).len() == 4 * ((data.len() + 2) / 3),
        forall|i: int|
            0 <= i < base64_standard(data).len() - base64_padding(data.len()) ==> is_base64_char(
                #[trigger] base64_standard(data)[i],
            ),
        forall|i: int|
            base64_standard(data).len() - base64_padding(data.len()) <= i < base64_standard(data).len()
                ==> #[trigger] base64_standard(data)[i] == '=',
    decreases data.len(),
{
    let t = base64_standard(data);
    if data.len() == 0 {
    } else if data.len() == 1 {
        let a = data[0] as int;
        lemma_b64_digit(a / 4);
        lemma_b64_digit((a % 4) * 16);
    } else if data.len() == 2 {
        let (a, b) = (data[0] as int, data[1] as int);
        lemma_b64_digit(a / 4);
        lemma_b64_digit((a % 4) * 16 + b / 16);
        lemma_b64_digit((b % 16) * 4);
    } else {
        let (a, b, c) = (data[0] as int, data[1] as int, data[2] as int);
        lemma_b64_digit(a / 4);
        lemma_b64_digit((a % 4) * 16 + b / 16);
        lemma_b64_digit((b % 16) * 4 + c / 64);
        lemma_b64_digit(c % 64);
        let rest = data.subrange(3, data.len() as int);
        lemma_base64_shape(rest);
        let head = seq![b64(a / 4), b64((a % 4) * 16 + b / 16), b64((b % 16) * 4 + c / 64), b64(c % 64)];
        let tr = base64_standard(rest);
        assert(t == head + tr);
        assert(base64_padding(data.len()) == base64_padding(rest.len()));
        assert forall|i: int| 0 <= i < t.len() - base64_padding(data.len()) implies is_base64_char(#[trigger] t[i]) by {
            if i < 4 {
                assert(t[i] == head[i]);
            } else {
                assert(t[i] == tr[i - 4]);
            }
        }
        assert forall|i: int| t.len() - base64_padding(data.len()) <= i < t.len() implies #[trigger] t[i] == '=' by {
            assert(t[i] == tr[i - 4]);
        }
    }
}

/// `Engine::encode` of the `base64` crate's `STANDARD` engine: the standard
/// padded Base64 encoding of `data`, as `base64_standard` writes it out. The
/// crate panics when the length of the text overflows `usize`, which
/// `requires` rules out.
#[verifier::external_body]
fn base64_encode(data: &[u8]) -> (text: String)
    requires
        (data@.len() / 3) * 4 + 4 <= usize::MAX,
    ensures
        text@ == base64_standard(data@),
{
    STANDARD.encode(data)
}

/// The TURN username for credentials that expire at `expires_at` seconds
/// since the Unix epoch: its decimal notation followed by ":disintea".
pub open spec fn spec_turn_username(expires_at: nat) -> Seq<char> {
    decimal(expires_at) + ":disintea"@
}

/// The shape of a TURN password: 28 characters, the Base64 of a 20-byte tag,
/// so 27 characters of the standard alphabet and one `=`.
pub open spec fn is_turn_password(p: Seq<char>) -> bool {
    &&& p.len() == 28
    &&& forall|i: int| 0 <= i < 27 ==> is_base64_char(#[trigger] p[i])
    &&& p[27] == '='
}

/// The TURN password for `username` under `secret`.
pub open spec fn spec_turn_password(secret: Seq<char>, username: Seq<char>) -> Seq<char> {
    base64_standard(hmac_sha1(encode_utf8(secret), encode_utf8(username)))
}

/// The TURN username for credentials expiring at `expires_at`.
pub fn turn_username(expires_at: u64) -> (r: String)
    ensures
        r@ == spec_turn_username(expires_at as nat),
{
    let mut out = String::new();
    push_decimal(&mut out, expires_at);
    out.append(":disintea");
    assert(out@ =~= spec_turn_username(expires_at as nat));
    out
}

/// The TURN password for `username` under `secret`: 28 Base64 characters.
pub fn turn_password(secret: &str, username: &str) -> (r: String)
    ensures
        r@ == spec_turn_password(secret@, username@),
        is_turn_password(r@),
{
    let tag = hmac_sha1_tag(secret.as_bytes(), username.as_bytes());
    let text = base64_encode(tag.as_slice());
    proof {
        lemma_base64_shape(tag@);
    }
    text
}

/// Credentials for `turn_url` issued at `now` seconds since the Unix epoch,
/// valid for [`TURN_TTL_SECS`].
pub fn turn_credentials_at(turn_secret: &str, turn_url: &str, now: u64) -> (r: TurnCredentials)
    requires
        now + TURN_TTL_SECS <= u64::MAX,
    ensures
        r.urls@ == turn_url@,
        r.username@ == spec_turn_username((now + TURN_TTL_SECS) as nat),
        r.credential@ == spec_turn_password(turn_secret@, r.username@),
        is_turn_password(r.credential@),
{
    let username = turn_username(now + TURN_TTL_SECS);
    let credential = turn_password(turn_secret, username.as_str());
    TurnCredentials { urls: turn_url.to_owned(), username, credential }
}

/// The issue time for a clock reading of `read` seconds: the reading itself,
/// or, for a reading so late that the expiry would not fit in 64 bits, the
/// latest reading for which it does.
pub open spec fn spec_issue_time(read: u64) -> u64 {
    if read > u64::MAX - TURN_TTL_SECS {
        (u64::MAX - TURN_TTL_SECS) as u64
    } else {
        read
    }
}

/// Credentials for `turn_url` from a clock reading of `read` seconds since
/// the Unix epoch; `None` when there is no reading (a clock before the epoch).
pub fn turn_credentials_from_reading(turn_secret: &str, turn_url: &str, read: Option<u64>) -> (r: Option<
    TurnCredentials,
>)
    ensures
        match read {
            None => r is None,
            Some(t) => r matches Some(c) && {
                &&& c.urls@ == turn_url@
                &&& c.username@ == spec_turn_username((spec_issue_time(t) + TURN_TTL_SECS) as nat)
                &&& c.credential@ == spec_turn_password(turn_secret@, c.username@)
                &&& is_turn_password(c.credential@)
            },
        },
{
    match read {
        Some(t) => {
            let now = if t > u64::MAX - TURN_TTL_SECS {
                u64::MAX - TURN_TTL_SECS
            } else {
                t
            };
            Some(turn_credentials_at(turn_secret, turn_url, now))
        },
        None => None,
    }
}

/// Credentials for `turn_url` issued now, from one reading of the clock
/// (see [`turn_credentials_from_reading`]); `None` when the clock reads a time
/// before the Unix epoch.
pub fn turn_credentials(turn_secret: &str, turn_url: &str) -> (r: Option<TurnCredentials>)
    ensures
        r matches Some(c) ==> {
            &&& c.urls@ == turn_url@
            &&& exists|now: u64|
                now + TURN_TTL_SECS <= u64::MAX && #[trigger] spec_turn_username(
                    (now + TURN_TTL_SECS) as nat,
                ) == c.username@
            &&& c.credential@ == spec_turn_password(turn_secret@, c.username@)
            &&& is_turn_password(c.credential@)
        },
{
    let read = now_secs();
    let r = turn_credentials_from_reading(turn_secret, turn_url, read);
    proof {
        if read is Some {
            let now = spec_issue_time(read.unwrap());
            assert(now + TURN_TTL_SECS <= u64::MAX);
            assert(spec_turn_username((now + TURN_TTL_SECS) as nat) == r.unwrap().username@);
        }
    }
    r
}

} // verus!
