//! Lossy decoding of bytes to text: invalid UTF-8 is replaced, never refused.

use vstd::prelude::*;

verus! {

/// The text that lossy UTF-8 decoding makes of `bytes`: the characters that
/// `bytes` encode, with U+FFFD in place of each invalid sequence.
pub uninterp spec fn lossy_text(bytes: Seq<u8>) -> Seq<char>;

/// Whether `text` is what lossy decoding makes of `bytes`. Valid UTF-8 decodes
/// to the characters that it encodes, unchanged; and no text has more
/// characters than it was decoded from bytes.
pub open spec fn is_lossy_decoding(bytes: Seq<u8>, text: Seq<char>) -> bool {
    &&& text == lossy_text(bytes)
    &&& vstd::utf8::valid_utf8(bytes) ==> text == vstd::utf8::decode_utf8(bytes)
    &&& text.len() <= bytes.len()
}

/// Valid UTF-8 is emitted verbatim: the text that it decodes to encodes back
/// to the same bytes.
pub proof fn valid_text_is_verbatim(bytes: Seq<u8>, text: Seq<char>)
    requires
        is_lossy_decoding(bytes, text),
        vstd::utf8::valid_utf8(bytes),
    ensures
        vstd::utf8::encode_utf8(text) == bytes,
{
    vstd::utf8::decode_utf8_encode_utf8(bytes);
}

/// Decodes `bytes` with `String::from_utf8_lossy` and hands the text back as
/// an owned string. Not proved, but taken from the documentation of that
/// function: the text depends on the bytes alone; bytes that are valid UTF-8
/// come back as the very text that they encode; and the text has no more
/// characters than there are bytes, since each character stands either for
/// the one to four bytes that encode it or for an invalid sequence, which is
/// never empty. What stands in place of an invalid sequence is left to
/// `lossy_text`.
#[verifier::external_body]
pub(crate) fn decode_lossy(bytes: &[u8]) -> (text: String)
    ensures
        text@ == lossy_text(bytes@),
        vstd::utf8::valid_utf8(bytes@) ==> text@ == vstd::utf8::decode_utf8(bytes@),
        text@.len() <= bytes@.len(),
{
    String::from_utf8_lossy(bytes).into_owned()
}

} // verus!
