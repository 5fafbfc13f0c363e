//! Bytes that only a password opens, and bytes as text.

use std::io::{Read, Write};
use base64::Engine;
use vstd::prelude::*;
use vstd::string::*;
use crate::text::is_ascii_alnum;

verus! {

/// The bytes that sealed bytes hold for a password: what `age::Decryptor` gives with an scrypt
/// identity for it, where the identity allows the work that the bytes ask for.
pub uninterp spec fn unsealed(sealed: Seq<u8>, password: Seq<char>) -> Option<Seq<u8>>;

/// Seals bytes with `age::Encryptor::with_user_passphrase`, `wrap_output` and the writer's
/// `finish`. Salt, key and nonce are drawn anew in each call, so of the sealed bytes only this is
/// known: they hold what was sealed for the password. The errors of these calls are those of the
/// writer that is written to, and a `Vec` has none: sealing always succeeds.
#[verifier::external_body]
pub(crate) fn seal(bytes: &Vec<u8>, password: &str) -> (result: Result<Vec<u8>, u8>)
    ensures
        result is Ok,
        unsealed(result->Ok_0@, password@) == Some(bytes@),
{
    let secret = age::secrecy::SecretString::from(password.to_owned());
    let mut sealed = Vec::new();
    let mut writer = age::Encryptor::with_user_passphrase(secret).wrap_output(&mut sealed).map_err(
        |_| 0u8,
    )?;
    writer.write_all(bytes).map_err(|_| 1u8)?;
    writer.finish().map_err(|_| 2u8)?;
    Ok(sealed)
}

/// Opens sealed bytes with `age::Decryptor::decrypt` and an `age::scrypt::Identity`. The identity
/// bounds the work by what the machine does in a second, so whether sealed bytes open rests on the
/// machine too; what comes out when they do rests on the arguments alone. A failure tells how far
/// it came: to the header, to the key, to the bytes.
#[verifier::external_body]
pub(crate) fn unseal(sealed: &Vec<u8>, password: &str) -> (result: Result<Vec<u8>, u8>)
    ensures
        result matches Ok(bytes) ==> unsealed(sealed@, password@) == Some(bytes@),
{
    let decryptor = age::Decryptor::new(sealed.as_slice()).map_err(|_| 0u8)?;
    let secret = age::secrecy::SecretString::from(password.to_owned());
    let identity = age::scrypt::Identity::new(secret);
    let identities = std::iter::once(&identity as &dyn age::Identity);
    let mut reader = decryptor.decrypt(identities).map_err(|_| 1u8)?;
    let mut bytes = Vec::new();
    reader.read_to_end(&mut bytes).map_err(|_| 2u8)?;
    Ok(bytes)
}

/// Thirty-two bytes of `rand::random`. Nothing is known of them.
#[verifier::external_body]
pub(crate) fn random_bytes() -> (bytes: [u8; 32]) {
    rand::random::<[u8; 32]>()
}

/// The text of bytes in the URL alphabet of base64, without padding.
pub uninterp spec fn base64_url(bytes: Seq<u8>) -> Seq<char>;

/// A character of the URL alphabet of base64.
pub open spec fn url_letter(c: char) -> bool {
    is_ascii_alnum(c) || c == '-' || c == '_'
}

/// The text that `base64`'s engine `URL_SAFE_NO_PAD` gives bytes: four characters of its alphabet
/// for three bytes, and as many as are needed for the rest.
#[verifier::external_body]
pub(crate) fn base64_url_text(bytes: &[u8]) -> (text: String)
    ensures
        text@ == base64_url(bytes@),
        text@.len() == (4 * bytes@.len() + 2) / 3,
        forall|i: int| 0 <= i < text@.len() ==> url_letter(#[trigger] text@[i]),
{
    base64::engine::general_purpose::URL_SAFE_NO_PAD.encode(bytes)
}

/// The text of bytes in the standard alphabet of base64, with padding.
pub uninterp spec fn base64_text_of(bytes: Seq<u8>) -> Seq<char>;

/// The bytes of a text in the standard alphabet of base64, with padding, if it is one.
pub uninterp spec fn base64_bytes_of(text: Seq<char>) -> Option<Seq<u8>>;

/// The text that `base64`'s engine `STANDARD` gives bytes. The engine reads the bytes back from it.
#[verifier::external_body]
pub(crate) fn base64_text(bytes: &Vec<u8>) -> (text: String)
    ensures
        text@ == base64_text_of(bytes@),
        base64_bytes_of(text@) == Some(bytes@),
{
    base64::engine::general_purpose::STANDARD.encode(bytes)
}

/// The bytes that `base64`'s engine `STANDARD` reads from a text.
#[verifier::external_body]
pub(crate) fn base64_bytes(text: &str) -> (bytes: Option<Vec<u8>>)
    ensures
        match bytes {
            Some(found) => base64_bytes_of(text@) == Some(found@),
            None => base64_bytes_of(text@) is None,
        },
{
    base64::engine::general_purpose::STANDARD.decode(text).ok()
}

/// The JSON object of texts that `serde_json::to_vec_pretty` writes for a `BTreeMap`.
pub uninterp spec fn json_of_texts(pairs: Seq<(Seq<char>, Seq<char>)>) -> Option<Seq<u8>>;

/// The texts that `serde_json::from_slice` reads from a JSON object into a `BTreeMap`, in the order
/// of their keys, if the bytes are such an object.
pub uninterp spec fn texts_of_json(bytes: Seq<u8>) -> Option<Seq<(Seq<char>, Seq<char>)>>;

/// A key and its text.
pub type TextPair = (String, String);

/// The views of pairs of texts.
pub open spec fn pair_views(pairs: Seq<TextPair>) -> Seq<(Seq<char>, Seq<char>)> {
    pairs.map_values(|pair: TextPair| (pair.0@, pair.1@))
}

/// What bytes that may be missing hold.
pub open spec fn bytes_view(bytes: Option<Vec<u8>>) -> Option<Seq<u8>> {
    match bytes {
        Some(found) => Some(found@),
        None => None,
    }
}

/// There are bytes, and where each key of pairs comes once and in order, the pairs are read back
/// from them.
pub open spec fn read_back(bytes: Option<Seq<u8>>, pairs: Seq<(Seq<char>, Seq<char>)>) -> bool {
    match bytes {
        Some(found) => crate::ordered::ascending(pairs) ==> texts_of_json(found) == Some(pairs),
        None => false,
    }
}

/// Writes pairs of texts as a JSON object with `serde_json::to_vec_pretty`, which fails for no map
/// of texts. Where each key comes once and in order, `serde_json` reads the pairs back.
#[verifier::external_body]
pub(crate) fn texts_to_json(pairs: &Vec<TextPair>) -> (bytes: Option<Vec<u8>>)
    ensures
        json_of_texts(pair_views(pairs@)) == bytes_view(bytes),
        read_back(bytes_view(bytes), pair_views(pairs@)),
{
    let map: std::collections::BTreeMap<String, String> = pairs.iter().cloned().collect();
    serde_json::to_vec_pretty(&map).ok()
}

/// Reads a JSON object of texts with `serde_json::from_slice`, in the order of its keys.
#[verifier::external_body]
pub(crate) fn json_to_texts(bytes: &Vec<u8>) -> (pairs: Option<Vec<TextPair>>)
    ensures
        match pairs {
            Some(found) => texts_of_json(bytes@) == Some(pair_views(found@)),
            None => texts_of_json(bytes@) is None,
        },
{
    let map = serde_json::from_slice::<std::collections::BTreeMap<String, String>>(bytes).ok()?;
    Some(map.into_iter().collect())
}

} // verus!
