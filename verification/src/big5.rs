//! The card's name field is encoded in Big5, the legacy double-byte charset
//! for Traditional Chinese. Decoding is delegated to `encoding_rs`; only its
//! call is trusted, under a name for its result.

use vstd::prelude::*;

verus! {

/// What `encoding_rs::BIG5.decode` makes of a complete byte buffer: the
/// decoded characters, or nothing when some sequence is malformed. The
/// result depends on the bytes alone.
pub uninterp spec fn big5_decode(bytes: Seq<u8>) -> Option<Seq<char>>;

/// Relies on `encoding_rs::BIG5.decode`: decoding a complete buffer is a
/// function of the bytes, and its third result reports whether any malformed
/// sequence was met (and replaced). A clean decode is handed on; a lossy one
/// is rejected.
#[verifier::external_body]
pub(crate) fn decode_big5(bytes: &[u8]) -> (r: Option<String>)
    ensures
        r is Some <==> big5_decode(bytes@) is Some,
        r matches Some(s) ==> big5_decode(bytes@) == Some(s@),
{
    let (cow, _encoding_used, had_errors) = encoding_rs::BIG5.decode(bytes);
    if had_errors {
        None
    } else {
        Some(cow.into_owned())
    }
}

} // verus!
