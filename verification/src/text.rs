//! Turning the raw bytes of a line or a QR payload into text.

use vstd::prelude::*;
use vstd::utf8::decode_utf8;
use vstd::utf8::valid_utf8;
use codepage_437::BorrowFromCp437;
use codepage_437::CP437_CONTROL;
use crate::state::TextEncoding;

verus! {

/// Whether a line of `len` bytes is short enough for the decoders. They
/// size a buffer of up to three bytes for each of `len + 1` bytes and round
/// that up to a power of two, which must fit in `usize`.
pub open spec fn decodable_len(len: nat) -> bool {
    6 * len + 6 <= usize::MAX
}

/// The text that code page 437 gives for a sequence of bytes.
pub uninterp spec fn cp437_text(bytes: Seq<u8>) -> Seq<char>;

/// The text that a Windows code page or Shift-JIS gives for a sequence of
/// bytes, malformed sequences replaced.
pub uninterp spec fn legacy_text(encoding: TextEncoding, bytes: Seq<u8>) -> Seq<char>;

/// The text of a sequence of bytes read as UTF-8, malformed sequences
/// replaced.
pub uninterp spec fn utf8_lossy_text(bytes: Seq<u8>) -> Seq<char>;

/// The text of a line under a decode table.
pub open spec fn line_text(encoding: TextEncoding, bytes: Seq<u8>) -> Seq<char> {
    if encoding == TextEncoding::Cp437 {
        cp437_text(bytes)
    } else {
        legacy_text(encoding, bytes)
    }
}

/// Calls `codepage_437`'s `String::borrow_from_cp437` with the dialect
/// `CP437_CONTROL`. Trusted: the result is a function of the bytes alone,
/// holds one character for each byte, and a byte below 0x80 stands for the
/// character with the same code.
#[verifier::external_body]
pub(crate) fn decode_cp437(bytes: &[u8]) -> (text: String)
    ensures
        text@ == cp437_text(bytes@),
        text@.len() == bytes@.len(),
        forall|i: int|
            0 <= i < bytes@.len() && bytes@[i] < 0x80 ==> #[trigger] text@[i] == bytes@[i] as char,
{
    String::borrow_from_cp437(bytes, &CP437_CONTROL)
}

/// Calls `encoding_rs`'s `Encoding::decode` on the table of that crate
/// which the encoding stands for. Trusted: the result is a function of the
/// table and the bytes alone. The length bound keeps the call clear of the
/// overflow in its buffer size calculation, on which it panics.
#[verifier::external_body]
pub(crate) fn decode_legacy(encoding: TextEncoding, bytes: &[u8]) -> (text: String)
    requires
        encoding != TextEncoding::Cp437,
        decodable_len(bytes@.len()),
    ensures
        text@ == legacy_text(encoding, bytes@),
{
    let table = match encoding {
        TextEncoding::Windows1250 => encoding_rs::WINDOWS_1250,
        TextEncoding::Windows1251 => encoding_rs::WINDOWS_1251,
        TextEncoding::ShiftJis => encoding_rs::SHIFT_JIS,
        _ => encoding_rs::WINDOWS_1252,
    };
    table.decode(bytes).0.into_owned()
}

/// Calls `String::from_utf8_lossy`. Trusted: the result is a function of
/// the bytes alone, and well-formed UTF-8 decodes to the text it encodes.
#[verifier::external_body]
pub(crate) fn decode_utf8_lossy(bytes: &[u8]) -> (text: String)
    ensures
        text@ == utf8_lossy_text(bytes@),
        valid_utf8(bytes@) ==> text@ == decode_utf8(bytes@),
{
    String::from_utf8_lossy(bytes).into_owned()
}

/// Decodes a line under the given table. Under code page 437 every byte
/// gives one character, and a byte below 0x80 the character with the same
/// code.
pub fn decode_line(encoding: TextEncoding, bytes: &[u8]) -> (text: String)
    requires
        decodable_len(bytes@.len()),
    ensures
        text@ == line_text(encoding, bytes@),
        encoding == TextEncoding::Cp437 ==> text@.len() == bytes@.len(),
        encoding == TextEncoding::Cp437 ==> forall|i: int|
            0 <= i < bytes@.len() && bytes@[i] < 0x80 ==> #[trigger] text@[i] == bytes@[i] as char,
{
    match encoding {
        TextEncoding::Cp437 => decode_cp437(bytes),
        _ => decode_legacy(encoding, bytes),
    }
}

} // verus!
