//! Random identifiers and secrets.

use vstd::prelude::*;

verus! {

/// `getrandom::Error`: why the random source failed. It is carried through
/// unread.
#[verifier::external_type_specification]
#[verifier::external_body]
pub struct ExRandomError(getrandom::Error);

/// The lower-case hexadecimal digit for a value below sixteen.
pub open spec fn hex_digit(n: int) -> char {
    if n == 0 {
        '0'
    } else if n == 1 {
        '1'
    } else if n == 2 {
        '2'
    } else if n == 3 {
        '3'
    } else if n == 4 {
        '4'
    } else if n == 5 {
        '5'
    } else if n == 6 {
        '6'
    } else if n == 7 {
        '7'
    } else if n == 8 {
        '8'
    } else if n == 9 {
        '9'
    } else if n == 10 {
        'a'
    } else if n == 11 {
        'b'
    } else if n == 12 {
        'c'
    } else if n == 13 {
        'd'
    } else if n == 14 {
        'e'
    } else {
        'f'
    }
}

/// The hexadecimal text of a byte string: two lower-case digits per byte,
/// the high half first.
pub open spec fn hex_text(bytes: Seq<u8>) -> Seq<char> {
    Seq::new(
        2 * bytes.len(),
        |i: int|
            if i % 2 == 0 {
                hex_digit(bytes[i / 2] as int / 16)
            } else {
                hex_digit(bytes[i / 2] as int % 16)
            },
    )
}

/// The text of an identifier of sixteen bytes: their hexadecimal digits in
/// lower case, in groups of 8, 4, 4, 4 and 12 with a hyphen between.
pub open spec fn uuid_hyphenated(bytes: Seq<u8>) -> Seq<char> {
    hex_text(bytes.subrange(0, 4)) + "-"@ + hex_text(bytes.subrange(4, 6)) + "-"@ + hex_text(bytes.subrange(6, 8))
        + "-"@ + hex_text(bytes.subrange(8, 10)) + "-"@ + hex_text(bytes.subrange(10, 16))
}

/// Whether `s` is the text of some identifier.
pub open spec fn is_uuid_text(s: Seq<char>) -> bool {
    exists|bytes: Seq<u8>| bytes.len() == 16 && s == #[trigger] uuid_hyphenated(bytes)
}

/// A fresh random identifier from `uuid::Uuid::new_v4`: its sixteen bytes,
/// by `as_bytes`, and its text, by `to_string`, which writes those bytes in
/// the hyphenated form. Nothing is promised of the bytes but their number.
#[verifier::external_body]
fn uuid_v4() -> (r: (Vec<u8>, String))
    ensures
        r.0@.len() == 16,
        r.1@ == uuid_hyphenated(r.0@),
{
    let id = uuid::Uuid::new_v4();
    (id.as_bytes().to_vec(), id.to_string())
}

/// A fresh random identifier as text.
pub(crate) fn new_uuid() -> (r: String)
    ensures
        is_uuid_text(r@),
{
    let (bytes, text) = uuid_v4();
    assert(text@ == uuid_hyphenated(bytes@));
    text
}

/// The sixteen bytes of a fresh random identifier.
pub(crate) fn new_uuid_bytes() -> (r: Vec<u8>)
    ensures
        r@.len() == 16,
{
    uuid_v4().0
}

/// Fills a buffer of `n` bytes from the system's random source with
/// `getrandom::fill`. Nothing is promised of the bytes but their number.
#[verifier::external_body]
pub(crate) fn random_bytes(n: usize) -> (r: Result<Vec<u8>, getrandom::Error>)
    ensures
        r matches Ok(v) ==> v@.len() == n,
{
    let mut buf: Vec<u8> = Vec::new();
    buf.resize(n, 0u8);
    getrandom::fill(&mut buf)?;
    Ok(buf)
}

/// `hex::encode`: each byte becomes two lower-case hexadecimal digits.
#[verifier::external_body]
pub(crate) fn hex_encode(bytes: &Vec<u8>) -> (r: String)
    ensures
        r@ == hex_text(bytes@),
{
    hex::encode(bytes)
}

} // verus!
