//! Text columns of the game database are WINDOWS-1252 ("Latin-1") encoded.

use vstd::prelude::*;

verus! {

/// The text that `latin1str` decodes from the bytes of a database string
/// (bytes up to the first NUL, decoded as WINDOWS-1252 by `encoding_rs`).
pub uninterp spec fn latin1_decoded(bytes: Seq<u8>) -> Seq<char>;

/// Whether every byte is a non-NUL ASCII byte.
pub open spec fn is_plain_ascii(bytes: Seq<u8>) -> bool {
    forall|i: int| 0 <= i < bytes.len() ==> 0 < #[trigger] bytes[i] < 128
}

/// The characters that ASCII bytes stand for.
pub open spec fn ascii_text(bytes: Seq<u8>) -> Seq<char> {
    bytes.map_values(|b: u8| b as char)
}

/// Decodes a database string.
///
/// Trusted: calls `latin1str::Latin1Str::from_bytes_until_nul` and
/// `Latin1Str::decode`. The result is named by `latin1_decoded`; the one
/// fact stated of it is that WINDOWS-1252 is ASCII compatible, so that
/// non-NUL ASCII bytes decode to the same characters.
#[verifier::external_body]
pub(crate) fn decode(bytes: &[u8]) -> (s: String)
    ensures
        s@ == latin1_decoded(bytes@),
        is_plain_ascii(bytes@) ==> s@ == ascii_text(bytes@),
{
    latin1str::Latin1Str::from_bytes_until_nul(bytes).decode().into_owned()
}

} // verus!
