//! Lenient decoding of received payloads: valid UTF-8 comes out as it is,
//! malformed sequences become replacement characters instead of an error.

use crate::endpoints::RECV_BUFFER_LEN;
use vstd::prelude::*;
use vstd::slice::slice_subrange;
use vstd::utf8::{
    decode_utf8, encode_utf8, encode_utf8_decode_utf8, encode_utf8_valid_utf8, valid_utf8,
};

verus! {

/// The text that lossy UTF-8 decoding makes of bytes that are not valid
/// UTF-8, with replacement characters for the malformed sequences.
pub uninterp spec fn lossy_utf8_of(b: Seq<u8>) -> Seq<char>;

/// Lenient decoding: valid UTF-8 is decoded as it stands, anything else
/// lossily.
pub open spec fn lenient_decode(b: Seq<u8>) -> Seq<char> {
    if valid_utf8(b) {
        decode_utf8(b)
    } else {
        lossy_utf8_of(b)
    }
}

/// Relies on `String::from_utf8_lossy`: bytes that are valid UTF-8 are
/// decoded unchanged, and what it makes of other bytes depends on the bytes
/// alone.
#[verifier::external_body]
fn from_utf8_lossy(b: &[u8]) -> (r: String)
    ensures
        valid_utf8(b@) ==> r@ == decode_utf8(b@),
        !valid_utf8(b@) ==> r@ == lossy_utf8_of(b@),
{
    String::from_utf8_lossy(b).into_owned()
}

/// The part of a datagram that fits in the receive buffer.
pub open spec fn visible_payload(d: Seq<u8>) -> Seq<u8> {
    if d.len() <= RECV_BUFFER_LEN {
        d
    } else {
        d.take(RECV_BUFFER_LEN as int)
    }
}

/// The text the receiver reports for a datagram.
pub open spec fn shown_text(d: Seq<u8>) -> Seq<char> {
    lenient_decode(visible_payload(d))
}

/// Decodes the part of a datagram that fits in the receive buffer; bytes past
/// the buffer's size are dropped.
pub fn decode_datagram(datagram: &[u8]) -> (r: String)
    ensures
        r@ == shown_text(datagram@),
{
    let n: usize = if datagram.len() <= RECV_BUFFER_LEN {
        datagram.len()
    } else {
        RECV_BUFFER_LEN
    };
    let visible = slice_subrange(datagram, 0, n);
    assert(visible@ =~= visible_payload(datagram@));
    from_utf8_lossy(visible)
}

/// A datagram that fits in the receive buffer is reported whole: the text is
/// the lenient decoding of all of its bytes, and a datagram holding the UTF-8
/// encoding of some text is reported as exactly that text.
pub proof fn lemma_short_datagram_shown_whole(d: Seq<u8>)
    requires
        d.len() <= RECV_BUFFER_LEN,
    ensures
        visible_payload(d) == d,
        shown_text(d) == lenient_decode(d),
        forall|text: Seq<char>| d == encode_utf8(text) ==> shown_text(d) == text,
{
    assert forall|text: Seq<char>| d == encode_utf8(text) implies shown_text(d) == text by {
        encode_utf8_valid_utf8(text);
        encode_utf8_decode_utf8(text);
    }
}

/// A datagram longer than the receive buffer is cut to exactly the buffer's
/// size; the bytes past it are never decoded.
pub proof fn lemma_long_datagram_cut(d: Seq<u8>)
    requires
        d.len() > RECV_BUFFER_LEN,
    ensures
        visible_payload(d) == d.take(RECV_BUFFER_LEN as int),
        visible_payload(d).len() == RECV_BUFFER_LEN,
        shown_text(d) == lenient_decode(d.take(RECV_BUFFER_LEN as int)),
{
}

} // verus!
