//! Percent escapes in addresses.

use vstd::prelude::*;
use vstd::string::*;
use vstd::utf8::*;
use crate::text::{cat, cat3, decimal, decimal_text, ends, ends_with, failure, owned, Error};

verus! {

/// A byte that stands for itself in an address.
pub open spec fn plain_byte(b: u8) -> bool {
    ||| 65 <= b <= 90
    ||| 97 <= b <= 122
    ||| 48 <= b <= 57
    ||| b == 45
    ||| b == 95
    ||| b == 46
    ||| b == 126
    ||| b == 47
}

/// The capital hexadecimal digit of a number below sixteen.
pub open spec fn capital_digit(n: int) -> char {
    if n < 10 {
        (n + 48) as u8 as char
    } else {
        (n + 55) as u8 as char
    }
}

/// How a byte is written in an address.
pub open spec fn byte_text(b: u8) -> Seq<char> {
    if plain_byte(b) {
        seq![b as char]
    } else {
        seq!['%', capital_digit(b as int / 16), capital_digit(b as int % 16)]
    }
}

/// How bytes are written in an address.
pub open spec fn bytes_text(bytes: Seq<u8>) -> Seq<char>
    decreases bytes.len(),
{
    if bytes.len() == 0 {
        seq![]
    } else {
        byte_text(bytes[0]) + bytes_text(bytes.drop_first())
    }
}

/// How a text is written in an address: its UTF-8 bytes one by one.
pub open spec fn percent_encoded(s: Seq<char>) -> Seq<char> {
    bytes_text(encode_utf8(s))
}

fn capital(n: u8) -> (c: char)
    requires
        n < 16,
    ensures
        c == capital_digit(n as int),
{
    if n < 10 {
        (n + 48) as char
    } else {
        (n + 55) as char
    }
}

/// Writes a text in an address.
pub fn percent_encode(value: &str) -> (result: String)
    ensures
        result@ == percent_encoded(value@),
{
    let bytes = value.as_bytes();
    let n: usize = bytes.len();
    let mut out = String::new();
    let mut i: usize = 0;
    proof {
        assert(bytes@.skip(0) =~= bytes@);
        assert(out@ + bytes_text(bytes@) =~= bytes_text(bytes@));
    }
    while i < n
        invariant
            i <= n == bytes@.len(),
            out@ + bytes_text(bytes@.skip(i as int)) == bytes_text(bytes@),
        decreases n - i,
    {
        let ghost before = out@;
        let b: u8 = bytes[i];
        if (65 <= b && b <= 90) || (97 <= b && b <= 122) || (48 <= b && b <= 57) || b == 45 || b
            == 95 || b == 46 || b == 126 || b == 47 {
            out.push(b as char);
        } else {
            out.push('%');
            out.push(capital(b / 16));
            out.push(capital(b % 16));
        }
        proof {
            let rest = bytes@.skip(i as int);
            assert(rest.drop_first() =~= bytes@.skip(i + 1));
            assert(out@ =~= before + byte_text(b));
            assert(before + (byte_text(b) + bytes_text(rest.drop_first())) =~= out@ + bytes_text(
                rest.drop_first(),
            ));
        }
        i += 1;
    }
    proof {
        assert(bytes@.skip(i as int) =~= seq![]);
        assert(out@ + Seq::<char>::empty() =~= out@);
    }
    out
}

/// The value of a hexadecimal digit.
pub open spec fn hex_value(b: u8) -> Option<int> {
    if 48 <= b <= 57 {
        Some(b - 48)
    } else if 65 <= b <= 70 {
        Some(b - 55)
    } else if 97 <= b <= 102 {
        Some(b - 87)
    } else {
        None
    }
}

/// The number that two bytes write in base sixteen; a plus sign may stand before a single digit.
pub open spec fn hex_pair(a: u8, b: u8) -> Option<u8> {
    match (hex_value(a), hex_value(b)) {
        (Some(x), Some(y)) => Some((x * 16 + y) as u8),
        (None, Some(y)) => if a == 43 {
            Some(y as u8)
        } else {
            None
        },
        _ => None,
    }
}

fn digit_value(b: u8) -> (value: Option<u8>)
    ensures
        match value {
            Some(v) => hex_value(b) == Some(v as int) && v < 16,
            None => hex_value(b) is None,
        },
{
    if 48 <= b && b <= 57 {
        Some(b - 48)
    } else if 65 <= b && b <= 70 {
        Some(b - 55)
    } else if 97 <= b && b <= 102 {
        Some(b - 87)
    } else {
        None
    }
}

fn pair_value(a: u8, b: u8) -> (value: Option<u8>)
    ensures
        value == hex_pair(a, b),
{
    match (digit_value(a), digit_value(b)) {
        (Some(x), Some(y)) => Some(x * 16 + y),
        (None, Some(y)) => if a == 43 {
            Some(y)
        } else {
            None
        },
        _ => None,
    }
}

/// The bytes that an address writes.
pub open spec fn decoded_bytes(bytes: Seq<u8>) -> Option<Seq<u8>>
    decreases bytes.len(),
{
    if bytes.len() == 0 {
        Some(seq![])
    } else if bytes[0] != 37 {
        match decoded_bytes(bytes.drop_first()) {
            Some(rest) => Some(seq![bytes[0]] + rest),
            None => None,
        }
    } else if bytes.len() < 3 {
        None
    } else {
        match (hex_pair(bytes[1], bytes[2]), decoded_bytes(bytes.skip(3))) {
            (Some(b), Some(rest)) => Some(seq![b] + rest),
            _ => None,
        }
    }
}

/// The text that an address writes.
pub open spec fn percent_decoded(s: Seq<char>) -> Result<Seq<char>, Seq<char>> {
    match decoded_bytes(encode_utf8(s)) {
        None => Err("invalid percent escape"@),
        Some(bytes) => if valid_utf8(bytes) {
            Ok(decode_utf8(bytes))
        } else {
            Err("decoded path is not UTF-8"@)
        },
    }
}

/// The text of bytes, if they are UTF-8.
pub open spec fn utf8_text_of(bytes: Seq<u8>) -> Option<Seq<char>> {
    if valid_utf8(bytes) {
        Some(decode_utf8(bytes))
    } else {
        None
    }
}

/// The text of bytes, by `String::from_utf8`: there is one exactly where the bytes are UTF-8.
#[verifier::external_body]
pub(crate) fn utf8_text(bytes: Vec<u8>) -> (text: Option<String>)
    ensures
        owned(text) == utf8_text_of(bytes@),
{
    String::from_utf8(bytes).ok()
}

fn decode_bytes(bytes: &[u8]) -> (out: Option<Vec<u8>>)
    ensures
        match out {
            Some(found) => decoded_bytes(bytes@) == Some(found@),
            None => decoded_bytes(bytes@) is None,
        },
{
    let n: usize = bytes.len();
    let mut out: Vec<u8> = Vec::new();
    let mut i: usize = 0;
    proof {
        assert(bytes@.skip(0) =~= bytes@);
        if let Some(rest) = decoded_bytes(bytes@) {
            assert(out@ + rest =~= rest);
        }
    }
    while i < n
        invariant
            i <= n == bytes@.len(),
            decoded_bytes(bytes@) == (match decoded_bytes(bytes@.skip(i as int)) {
                Some(rest) => Some(out@ + rest),
                None => None,
            }),
        decreases n - i,
    {
        let ghost before = out@;
        let ghost here = bytes@.skip(i as int);
        if bytes[i] == 37 {
            if n - i < 3 {
                return None;
            }
            match pair_value(bytes[i + 1], bytes[i + 2]) {
                None => {
                    return None;
                },
                Some(b) => {
                    out.push(b);
                    proof {
                        assert(here.skip(3) =~= bytes@.skip(i + 3));
                        if let Some(rest) = decoded_bytes(here.skip(3)) {
                            assert(before + (seq![b] + rest) =~= out@ + rest);
                        }
                    }
                },
            }
            i += 3;
        } else {
            out.push(bytes[i]);
            proof {
                assert(here.drop_first() =~= bytes@.skip(i + 1));
                if let Some(rest) = decoded_bytes(here.drop_first()) {
                    assert(before + (seq![here[0]] + rest) =~= out@ + rest);
                }
            }
            i += 1;
        }
    }
    proof {
        assert(bytes@.skip(i as int) =~= seq![]);
        assert(out@ + Seq::<u8>::empty() =~= out@);
    }
    Some(out)
}

/// The text that an address writes.
pub fn percent_decode(value: &str) -> (result: Result<String, Error>)
    ensures
        match percent_decoded(value@) {
            Ok(text) => result matches Ok(found) && found@ == text,
            Err(message) => result matches Err(error) && error@ == message,
        },
{
    match decode_bytes(value.as_bytes()) {
        None => Err(failure("invalid percent escape".to_owned())),
        Some(bytes) => match utf8_text(bytes) {
            Some(text) => Ok(text),
            None => Err(failure("decoded path is not UTF-8".to_owned())),
        },
    }
}

proof fn lemma_byte_text(b: u8)
    ensures
        is_ascii_chars(byte_text(b)),
        !plain_byte(b) ==> hex_pair(
            capital_digit(b as int / 16) as u8,
            capital_digit(b as int % 16) as u8,
        ) == Some(b),
        plain_byte(b) ==> b != 37 && (b as char) as u8 == b,
{
    let x = b as int / 16;
    let y = b as int % 16;
    assert(0 <= x < 16 && 0 <= y < 16 && x * 16 + y == b);
}

proof fn lemma_decodes(bytes: Seq<u8>)
    ensures
        is_ascii_chars(bytes_text(bytes)),
        decoded_bytes(encode_utf8(bytes_text(bytes))) == Some(bytes),
    decreases bytes.len(),
{
    let all = bytes_text(bytes);
    if bytes.len() == 0 {
        is_ascii_chars_encode_utf8(all);
        assert(encode_utf8(all) =~= seq![]);
        assert(decoded_bytes(encode_utf8(all)) == Some(Seq::<u8>::empty()));
        assert(bytes =~= seq![]);
    } else {
        let rest = bytes_text(bytes.drop_first());
        lemma_decodes(bytes.drop_first());
        lemma_byte_text(bytes[0]);
        is_ascii_chars_concat(all, byte_text(bytes[0]), rest);
        is_ascii_chars_encode_utf8(all);
        is_ascii_chars_encode_utf8(rest);
        let written = encode_utf8(all);
        let n = byte_text(bytes[0]).len() as int;
        assert(written.skip(n) =~= encode_utf8(rest)) by {
            assert forall|i: int| 0 <= i < rest.len() implies written.skip(n)[i] == encode_utf8(
                rest,
            )[i] by {
                assert(all[i + n] == rest[i]);
            }
        }
        assert(all[0] == byte_text(bytes[0])[0]);
        assert(written[0] == all[0] as u8);
        if plain_byte(bytes[0]) {
            assert(written.drop_first() =~= written.skip(1));
            assert(seq![bytes[0]] + bytes.drop_first() =~= bytes);
        } else {
            assert(all[1] == byte_text(bytes[0])[1]);
            assert(all[2] == byte_text(bytes[0])[2]);
            assert(written[1] == all[1] as u8);
            assert(written[2] == all[2] as u8);
            assert(written[0] == 37u8);
            assert(seq![bytes[0]] + bytes.drop_first() =~= bytes);
        }
    }
}

/// What is written in an address is read back from it.
pub proof fn law_percent_round_trip(s: Seq<char>)
    ensures
        percent_decoded(percent_encoded(s)) == Ok::<Seq<char>, Seq<char>>(s),
        is_ascii_chars(percent_encoded(s)),
{
    lemma_decodes(encode_utf8(s));
    encode_utf8_valid_utf8(s);
    encode_utf8_decode_utf8(s);
}

/// The address of a file by its path.
pub open spec fn file_address(path: Seq<char>) -> Seq<char> {
    "file://"@ + percent_encoded(path)
}

/// The address of a file by its path.
pub fn file_url(path: &str) -> (url: String)
    ensures
        url@ == file_address(path@),
{
    cat("file://", percent_encode(path).as_str())
}

/// The address of a directory by its path, with a slash at its end.
pub open spec fn directory_address(path: Seq<char>) -> Seq<char> {
    if ends(file_address(path), "/"@) {
        file_address(path)
    } else {
        file_address(path) + "/"@
    }
}

/// The address of a directory by its path.
pub fn directory_file_url(path: &str) -> (url: String)
    ensures
        url@ == directory_address(path@),
{
    let url = file_url(path);
    if ends_with(url.as_str(), "/") {
        url
    } else {
        cat(url.as_str(), "/")
    }
}

/// The address at which a template is shown in a size.
pub open spec fn template_address(
    base_url: Seq<char>,
    template_id: Seq<char>,
    width: u32,
    height: u32,
) -> Seq<char> {
    base_url + "?asc_width="@ + decimal(width as nat) + "&asc_height="@ + decimal(height as nat)
        + "&asc_id="@ + percent_encoded(template_id)
}

/// The address at which a template is shown in a size.
pub fn template_url(base_url: &str, template_id: &str, width: u32, height: u32) -> (url: String)
    ensures
        url@ == template_address(base_url@, template_id@, width, height),
{
    cat3(base_url, "?asc_width=", decimal_text(width as u64).as_str()).concat(
        "&asc_height=",
    ).concat(decimal_text(height as u64).as_str()).concat("&asc_id=").concat(
        percent_encode(template_id).as_str(),
    )
}

} // verus!
