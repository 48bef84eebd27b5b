//! The signature message and the tag computed over it.
//!
//! The message binds method, path and the canonical query together. The
//! signature is the HMAC-SHA256 tag of the message under the secret key,
//! written in lower-case hexadecimal.

use crate::method::Method;
use crate::tonce::digit_char;
use hmac::{Hmac, Mac};
use sha2::Sha256;
use vstd::prelude::*;
use vstd::utf8::encode_utf8;

verus! {

/// The text that is signed: method, path and canonical query, with `|`
/// between them. An empty query leaves nothing after the second `|`.
pub open spec fn message_text(method: Method, path: Seq<char>, query: Seq<char>) -> Seq<char> {
    method.text() + seq!['|'] + path + seq!['|'] + query
}

/// The signed text binds its three parts: where one of method, path and
/// query changes and the other two stay, the text changes.
pub proof fn lemma_message_binds_parts(
    method_a: Method,
    path_a: Seq<char>,
    query_a: Seq<char>,
    method_b: Method,
    path_b: Seq<char>,
    query_b: Seq<char>,
)
    requires
        (method_a != method_b && path_a == path_b && query_a == query_b) || (method_a == method_b
            && path_a != path_b && query_a == query_b) || (method_a == method_b && path_a
            == path_b && query_a != query_b),
    ensures
        message_text(method_a, path_a, query_a) != message_text(method_b, path_b, query_b),
{
    let text_a = message_text(method_a, path_a, query_a);
    let text_b = message_text(method_b, path_b, query_b);
    if method_a != method_b {
        assert(text_a[0] == method_a.text()[0]);
        assert(text_b[0] == method_b.text()[0]);
    } else if path_a != path_b {
        let n = method_a.text().len() + 1;
        if path_a.len() == path_b.len() {
            if forall|i: int| 0 <= i < path_a.len() ==> path_a[i] == path_b[i] {
                assert(path_a =~= path_b);
            }
            let i = choose|i: int| 0 <= i < path_a.len() && path_a[i] != path_b[i];
            assert(text_a[n + i] == path_a[i]);
            assert(text_b[n + i] == path_b[i]);
        } else {
            assert(text_a.len() != text_b.len());
        }
    } else {
        let n = method_a.text().len() + path_a.len() + 2;
        if query_a.len() == query_b.len() {
            if forall|i: int| 0 <= i < query_a.len() ==> query_a[i] == query_b[i] {
                assert(query_a =~= query_b);
            }
            let i = choose|i: int| 0 <= i < query_a.len() && query_a[i] != query_b[i];
            assert(text_a[n + i] == query_a[i]);
            assert(text_b[n + i] == query_b[i]);
        } else {
            assert(text_a.len() != text_b.len());
        }
    }
}

/// The HMAC-SHA256 tag of `message` under `key`.
pub uninterp spec fn hmac_sha256(key: Seq<u8>, message: Seq<u8>) -> Seq<u8>;

/// The character for the hexadecimal digit `n`, in lower case.
pub open spec fn hex_digit(n: int) -> char {
    if n < 10 {
        digit_char(n)
    } else if n == 10 {
        'a'
    } else if n == 11 {
        'b'
    } else if n == 12 {
        'c'
    } else if n == 13 {
        'd'
    } else if n == 14 {
        'e'
    } else {
        'f'
    }
}

/// `bytes` in lower-case hexadecimal: two digits for every byte, the high
/// half first.
pub open spec fn hex_lower(bytes: Seq<u8>) -> Seq<char> {
    Seq::new(
        2 * bytes.len(),
        |i: int|
            if i % 2 == 0 {
                hex_digit(bytes[i / 2] as int / 16)
            } else {
                hex_digit(bytes[i / 2] as int % 16)
            },
    )
}

/// The signature of `message` under the secret `secret`, as it is sent.
pub open spec fn signature_text(secret: Seq<char>, message: Seq<char>) -> Seq<char> {
    hex_lower(hmac_sha256(encode_utf8(secret), encode_utf8(message)))
}

/// Computes an HMAC-SHA256 tag with `hmac::Hmac<sha2::Sha256>`: the key goes
/// to `Mac::new_from_slice`, the message to `Mac::update`, and the tag comes
/// from `Mac::finalize` and `CtOutput::into_bytes`.
///
/// The contract claims that the tag depends on the bytes of key and message
/// and on nothing else, and calls it `hmac_sha256`; and that the tag has 32
/// bytes, the output size of SHA-256, which is the length of the array
/// that `into_bytes` returns. `new_from_slice` of this type takes a key of
/// any length: a long key is hashed, a short one padded, and `Ok` is
/// returned in every case.
#[verifier::external_body]
fn hmac_sha256_tag(key: &[u8], message: &[u8]) -> (tag: Vec<u8>)
    ensures
        tag@ == hmac_sha256(key@, message@),
        tag@.len() == 32,
{
    let mut mac = Hmac::<Sha256>::new_from_slice(key).expect("a key of any length is accepted");
    mac.update(message);
    mac.finalize().into_bytes().to_vec()
}

/// Writes bytes in hexadecimal with `hex::encode`.
///
/// `encode` writes every byte as two characters taken from
/// `0123456789abcdef`, the one for the high four bits first. The contract
/// claims exactly that.
#[verifier::external_body]
fn hex_string(bytes: &[u8]) -> (text: String)
    ensures
        text@ == hex_lower(bytes@),
{
    hex::encode(bytes)
}

/// The message that is signed for a call.
pub fn signature_message(method: Method, path: &str, query: &str) -> (message: String)
    ensures
        message@ == message_text(method, path@, query@),
{
    proof {
        reveal_strlit("|");
    }
    let mut message = String::from_str(method.as_str());
    message.append("|");
    message.append(path);
    message.append("|");
    message.append(query);
    assert(message@ =~= message_text(method, path@, query@));
    message
}

/// The HMAC-SHA256 tag of `message` under `secret`, both taken as UTF-8.
pub fn message_tag(secret: &str, message: &str) -> (tag: Vec<u8>)
    ensures
        tag@ == hmac_sha256(encode_utf8(secret@), encode_utf8(message@)),
        tag@.len() == 32,
{
    hmac_sha256_tag(secret.as_bytes(), message.as_bytes())
}

/// The signature that stands for the tag `tag`: its bytes in lower-case
/// hexadecimal.
pub fn signature_of_tag(tag: &[u8]) -> (signature: String)
    ensures
        signature@ == hex_lower(tag@),
        signature@.len() == 2 * tag@.len(),
{
    hex_string(tag)
}

/// The signature of `message` under `secret`.
pub fn sign_message(secret: &str, message: &str) -> (signature: String)
    ensures
        signature@ == signature_text(secret@, message@),
        signature@.len() == 64,
{
    let tag = message_tag(secret, message);
    signature_of_tag(tag.as_slice())
}

} // verus!
