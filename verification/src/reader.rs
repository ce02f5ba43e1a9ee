//! Turning what was read from a connection into the raw text of a request.

use vstd::prelude::*;

verus! {

/// The text that `String::from_utf8_lossy` gives for `bytes`: the bytes
/// decoded as UTF-8, each ill-formed sequence replaced by U+FFFD.
pub uninterp spec fn utf8_lossy(bytes: Seq<u8>) -> Seq<char>;

/// Calls `String::from_utf8_lossy`. Trusted: the result is the lossy
/// decoding of `bytes` as the standard library computes it, which
/// `utf8_lossy` names.
#[verifier::external_body]
fn decode_lossy(bytes: &[u8]) -> (r: String)
    ensures
        r@ == utf8_lossy(bytes@),
{
    String::from_utf8_lossy(bytes).into_owned()
}

/// The raw text of a request, from the buffer that the connection was read
/// into and the outcome of the read: the number of bytes read, or none
/// where reading failed.
///
/// After a read the whole buffer is decoded, whatever the number of bytes;
/// after a failed read the text is empty, which stands for "no request".
pub fn get_header(buffer: &[u8], read: Option<usize>) -> (r: String)
    ensures
        r@ == match read {
            Some(_) => utf8_lossy(buffer@),
            None => Seq::empty(),
        },
{
    match read {
        Some(_) => decode_lossy(buffer),
        None => String::new(),
    }
}

} // verus!
