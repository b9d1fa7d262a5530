//! Text encodings of the wire: GBK (what Feiq clients speak) and UTF-8.
use vstd::prelude::*;
use vstd::utf8::{decode_utf8, encode_utf8, is_ascii_chars, valid_utf8};
use crate::error::AppError;
use crate::text::push_str;

verus! {

/// What `encoding_rs::GBK.decode` makes of `bytes` (BOM sniffing included).
pub uninterp spec fn gbk_decode(bytes: Seq<u8>) -> Seq<char>;

/// What `encoding_rs::GBK.encode` makes of the text `s`.
pub uninterp spec fn gbk_encode(s: Seq<char>) -> Seq<u8>;

/// Whether `n` bytes can be decoded: the crate reserves at most `3 n + 3`
/// bytes of text for them (three per byte, and a few for a byte-order mark
/// or a pending sequence), and a buffer must not hold more than `isize::MAX`
/// bytes.
pub open spec fn fits_decode_buffer(n: nat) -> bool {
    3 * n + 3 <= isize::MAX
}

/// The bytes of ASCII text, one per character.
pub open spec fn ascii_bytes(s: Seq<char>) -> Seq<u8> {
    Seq::new(s.len(), |i: int| s[i] as u8)
}

/// Whether every byte is below 0x80.
pub open spec fn is_ascii_bytes(b: Seq<u8>) -> bool {
    forall|i: int| 0 <= i < b.len() ==> b[i] < 0x80
}

/// `encoding_rs::GBK.decode(bytes)`, made owned. The result is named by
/// `gbk_decode`; in addition, ASCII input (which can carry no byte-order
/// mark, all of whose bytes are at least 0xEF) comes back as the same
/// characters, which the source returns as a borrow of the input. The
/// input must leave room for the buffer the crate sizes for it (see
/// `fits_decode_buffer`); past that the crate panics.
#[verifier::external_body]
pub(crate) fn gbk_decode_bytes(bytes: &[u8]) -> (res: String)
    requires
        fits_decode_buffer(bytes@.len()),
    ensures
        res@ == gbk_decode(bytes@),
        is_ascii_bytes(bytes@) ==> res@ == Seq::new(bytes@.len(), |i: int| bytes@[i] as char),
{
    let (decoded, _, _) = encoding_rs::GBK.decode(bytes);
    decoded.into_owned()
}

/// `encoding_rs::GBK.encode(s)`, made owned. The result is named by
/// `gbk_encode`; in addition, ASCII text is returned as its own bytes,
/// which the source returns as a borrow of `s.as_bytes()`. Texts beyond
/// 16 Mi characters are left out: the crate sizes its buffer by
/// multiplying the length and panics on overflow.
#[verifier::external_body]
pub(crate) fn gbk_encode_str(s: &str) -> (res: Vec<u8>)
    requires
        s@.len() <= 0x0100_0000,
    ensures
        res@ == gbk_encode(s@),
        is_ascii_chars(s@) ==> res@ == ascii_bytes(s@),
{
    let (encoded, _, _) = encoding_rs::GBK.encode(s);
    encoded.into_owned()
}

/// `std::str::from_utf8`, made owned: `Ok` exactly for valid UTF-8, with
/// the characters that the bytes encode; `Err` carries the text of the
/// `Utf8Error`, of which nothing is stated.
#[verifier::external_body]
pub(crate) fn utf8_decode(bytes: &[u8]) -> (res: Result<String, String>)
    ensures
        res is Ok <==> valid_utf8(bytes@),
        res matches Ok(s) ==> s@ == decode_utf8(bytes@),
{
    match std::str::from_utf8(bytes) {
        Ok(s) => Ok(s.to_string()),
        Err(e) => Err(e.to_string()),
    }
}

/// Conversion between wire bytes and text.
pub trait TextTranscoder {
    /// Decodes received bytes into text.
    fn decode(&self, bytes: &[u8]) -> Result<String, AppError>
        requires
            fits_decode_buffer(bytes@.len()),
    ;

    /// Encodes text into bytes for sending.
    fn encode(&self, s: &str) -> Result<Vec<u8>, AppError>
        requires
            s@.len() <= 0x0100_0000,
    ;
}

/// The GBK transcoder, which classic Feiq clients understand.
#[derive(Debug, Clone, Copy)]
pub struct GbkTranscoder;

impl TextTranscoder for GbkTranscoder {
    fn decode(&self, bytes: &[u8]) -> (res: Result<String, AppError>)
        ensures
            res matches Ok(s) && s@ == gbk_decode(bytes@),
    {
        Ok(gbk_decode_bytes(bytes))
    }

    fn encode(&self, s: &str) -> (res: Result<Vec<u8>, AppError>)
        ensures
            res matches Ok(b) && b@ == gbk_encode(s@),
    {
        Ok(gbk_encode_str(s))
    }
}

/// The UTF-8 transcoder.
#[derive(Debug, Clone, Copy)]
pub struct Utf8Transcoder;

impl TextTranscoder for Utf8Transcoder {
    fn decode(&self, bytes: &[u8]) -> (res: Result<String, AppError>)
        ensures
            res is Ok <==> valid_utf8(bytes@),
            res matches Ok(s) ==> s@ == decode_utf8(bytes@),
            res matches Err(e) ==> e matches AppError::Other(m) && exists|detail: Seq<char>| m@
                == "UTF-8 decode error: "@ + detail,
    {
        match utf8_decode(bytes) {
            Ok(s) => Ok(s),
            Err(detail) => {
                let mut m = String::new();
                push_str(&mut m, "UTF-8 decode error: ");
                push_str(&mut m, detail.as_str());
                assert(m@ == "UTF-8 decode error: "@ + detail@);
                Err(AppError::Other(m))
            },
        }
    }

    fn encode(&self, s: &str) -> (res: Result<Vec<u8>, AppError>)
        ensures
            res matches Ok(b) && b@ == encode_utf8(s@),
    {
        Ok(vstd::slice::slice_to_vec(s.as_bytes()))
    }
}

} // verus!
