//! Bytes and the texts that stand for them: UTF-8 and base64.

use base64::Engine;
use vstd::prelude::*;
use vstd::string::*;
use vstd::utf8::*;

verus! {

/// The message of the error that `String::from_utf8` gives for bytes that are not UTF-8.
pub uninterp spec fn utf8_error(bytes: Seq<u8>) -> Seq<char>;

/// What `String::from_utf8_lossy` makes of bytes.
pub uninterp spec fn utf8_lossy(bytes: Seq<u8>) -> Seq<char>;

/// What the standard base64 engine makes of a text: bytes, or the message of an error.
pub uninterp spec fn base64_decoded(encoded: Seq<char>) -> Result<Seq<u8>, Seq<char>>;

/// What the standard base64 engine makes of bytes.
pub uninterp spec fn base64_encoded(bytes: Seq<u8>) -> Seq<char>;

/// `String::from_utf8`: the text of bytes that are UTF-8, and for all others the message of
/// the error.
#[verifier::external_body]
fn std_from_utf8(bytes: Vec<u8>) -> (r: Result<String, String>)
    ensures
        match r {
            Ok(s) => valid_utf8(bytes@) && s@ == decode_utf8(bytes@),
            Err(message) => !valid_utf8(bytes@) && message@ == utf8_error(bytes@),
        },
{
    String::from_utf8(bytes).map_err(|e| e.to_string())
}

/// `String::from_utf8_lossy`: the text of bytes that are UTF-8; for all others a text of which
/// nothing but the name is stated.
#[verifier::external_body]
pub(crate) fn std_from_utf8_lossy(bytes: &Vec<u8>) -> (s: String)
    ensures
        s@ == utf8_lossy(bytes@),
        valid_utf8(bytes@) ==> s@ == decode_utf8(bytes@),
{
    String::from_utf8_lossy(bytes).into_owned()
}

/// `Engine::decode` of `base64::engine::general_purpose::STANDARD`: the bytes or the message of
/// the error, each a function of the text.
#[verifier::external_body]
pub(crate) fn base64_decode(encoded: &str) -> (r: Result<Vec<u8>, String>)
    ensures
        match r {
            Ok(bytes) => base64_decoded(encoded@) == Ok::<Seq<u8>, Seq<char>>(bytes@),
            Err(message) => base64_decoded(encoded@) == Err::<Seq<u8>, Seq<char>>(message@),
        },
{
    base64::engine::general_purpose::STANDARD.decode(encoded).map_err(|e| e.to_string())
}

/// `Engine::encode` of `base64::engine::general_purpose::STANDARD`: a text that the same engine
/// decodes to the bytes it was given, and that is empty only if there are none.
#[verifier::external_body]
pub(crate) fn base64_encode(bytes: &[u8]) -> (s: String)
    ensures
        s@ == base64_encoded(bytes@),
        (base64_decoded(s@) == Ok::<Seq<u8>, Seq<char>>(bytes@)),
        (s@.len() == 0 <==> bytes@.len() == 0),
{
    base64::engine::general_purpose::STANDARD.encode(bytes)
}

/// What the text of bytes is, if they are UTF-8, and else the message of the error.
pub open spec fn utf8_read(bytes: Seq<u8>) -> Result<Seq<char>, Seq<char>> {
    if valid_utf8(bytes) {
        Ok(decode_utf8(bytes))
    } else {
        Err(utf8_error(bytes))
    }
}

/// The text of bytes that are UTF-8.
pub fn from_utf8(bytes: Vec<u8>) -> (r: Result<String, String>)
    ensures
        match r {
            Ok(s) => utf8_read(bytes@) == Ok::<Seq<char>, Seq<char>>(s@),
            Err(message) => utf8_read(bytes@) == Err::<Seq<char>, Seq<char>>(message@),
        },
{
    std_from_utf8(bytes)
}

/// The UTF-8 bytes of a text.
pub fn to_utf8(s: &str) -> (bytes: Vec<u8>)
    ensures
        bytes@ == encode_utf8(s@),
{
    let mut bytes: Vec<u8> = Vec::new();
    bytes.extend_from_slice(s.as_bytes());
    assert(bytes@ =~= encode_utf8(s@));
    bytes
}

} // verus!
