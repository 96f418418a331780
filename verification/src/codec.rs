//! Binary framing: a 4-byte little-endian tag followed by the message
//! body.
//!
//! Decoding fails closed: a frame shorter than four bytes, or one whose
//! leading four bytes are not a known tag code, decodes to
//! [`EMessage::Error`] with an empty body, and the caller must drop it
//! without dispatching.

use crate::message::EMessage;
use vstd::bytes::lemma_auto_spec_u32_to_from_le_bytes;
use vstd::bytes::spec_u32_from_le_bytes;
use vstd::bytes::spec_u32_to_le_bytes;
use vstd::bytes::u32_from_le_bytes;
use vstd::bytes::u32_to_le_bytes;
use vstd::prelude::*;
use vstd::slice::slice_subrange;

verus! {

/// The frame that carries `body` under `tag`.
pub open spec fn spec_encode(tag: EMessage, body: Seq<u8>) -> Seq<u8> {
    spec_u32_to_le_bytes(tag.code()) + body
}

/// What a frame decodes to: the recognized tag and the body bytes, or
/// [`EMessage::Error`] with an empty body when the frame is too short or
/// the tag is unknown.
pub open spec fn spec_decode(frame: Seq<u8>) -> (EMessage, Seq<u8>) {
    if frame.len() < 4 {
        (EMessage::Error, Seq::<u8>::empty())
    } else {
        let tag = EMessage::spec_from_code(spec_u32_from_le_bytes(frame.subrange(0, 4)));
        if tag == EMessage::Error {
            (EMessage::Error, Seq::<u8>::empty())
        } else {
            (tag, frame.skip(4))
        }
    }
}

/// Builds the wire frame for `body` under `tag`.
pub fn encode(tag: EMessage, body: &Vec<u8>) -> (frame: Vec<u8>)
    ensures
        frame@ == spec_encode(tag, body@),
        frame@.len() == body@.len() + 4,
{
    proof {
        lemma_auto_spec_u32_to_from_le_bytes();
    }
    let mut frame = u32_to_le_bytes(tag.tag_code());
    frame.extend_from_slice(body.as_slice());
    frame
}

/// Splits a wire frame into its tag and body, failing closed on garbage.
pub fn decode(frame: &Vec<u8>) -> (r: (EMessage, Vec<u8>))
    ensures
        r.0 == spec_decode(frame@).0,
        r.1@ == spec_decode(frame@).1,
        frame@.len() < 4 ==> r.0 == EMessage::Error,
        r.0 == EMessage::Error ==> r.1@.len() == 0,
{
    if frame.len() < 4 {
        return (EMessage::Error, Vec::new());
    }
    let code = u32_from_le_bytes(slice_subrange(frame.as_slice(), 0, 4));
    let tag = EMessage::from_code(code);
    if tag == EMessage::Error {
        return (EMessage::Error, Vec::new());
    }
    let mut body: Vec<u8> = Vec::new();
    let mut i: usize = 4;
    while i < frame.len()
        invariant
            4 <= i <= frame@.len(),
            body@ == frame@.subrange(4, i as int),
        decreases frame@.len() - i,
    {
        body.push(frame[i]);
        proof {
            assert(body@ =~= frame@.subrange(4, i + 1 as int));
        }
        i = i + 1;
    }
    proof {
        assert(body@ =~= frame@.skip(4));
    }
    (tag, body)
}

/// Encoding under any real tag and decoding gives back exactly that tag
/// and body: the codec loses nothing on well-formed frames.
pub proof fn lemma_codec_round_trip(tag: EMessage, body: Seq<u8>)
    requires
        tag != EMessage::Error,
    ensures
        spec_decode(spec_encode(tag, body)).0 == tag,
        spec_decode(spec_encode(tag, body)).1 == body,
{
    lemma_auto_spec_u32_to_from_le_bytes();
    let frame = spec_encode(tag, body);
    assert(frame.subrange(0, 4) =~= spec_u32_to_le_bytes(tag.code()));
    crate::message::lemma_tag_code_round_trip(tag);
    assert(frame.skip(4) =~= body);
}

} // verus!
