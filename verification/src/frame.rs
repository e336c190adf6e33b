//! Length-prefixed frames: four bytes with the length, most significant first, then the payload.

use crate::text;
use vstd::prelude::*;
use vstd::slice::*;
use vstd::string::*;

verus! {

/// The longest chat frame that is read.
pub const CHAT_FRAME_LIMIT: usize = 1048576;

/// The longest direct message frame that is read.
pub const DM_FRAME_LIMIT: usize = 10485760;

/// The four bytes of a length, most significant first.
pub open spec fn prefix_bytes(n: u32) -> Seq<u8> {
    seq![
        (n / 16777216) as u8,
        ((n / 65536) % 256) as u8,
        ((n / 256) % 256) as u8,
        (n % 256) as u8,
    ]
}

/// The length that four bytes stand for, most significant first.
pub open spec fn prefix_value(b: Seq<u8>) -> nat {
    (b[0] as nat) * 16777216 + (b[1] as nat) * 65536 + (b[2] as nat) * 256 + b[3] as nat
}

/// The frame of a payload. The length is taken modulo 2^32, so a payload that is longer does not
/// read back.
pub open spec fn frame_of(payload: Seq<u8>) -> Seq<u8> {
    prefix_bytes((payload.len() as usize) as u32) + payload
}

/// Frames a payload.
pub fn encode_frame(payload: &Vec<u8>) -> (r: Vec<u8>)
    ensures
        r@ == frame_of(payload@),
{
    #[verifier::truncate]
    let n: u32 = payload.len() as u32;
    let mut out: Vec<u8> = Vec::new();
    out.push((n / 16777216) as u8);
    out.push(((n / 65536) % 256) as u8);
    out.push(((n / 256) % 256) as u8);
    out.push((n % 256) as u8);
    assert(out@ =~= prefix_bytes(n));
    out.extend_from_slice(payload.as_slice());
    assert(out@ =~= frame_of(payload@));
    out
}

/// Reads the length out of a prefix: `Err` with the length where it is over the limit.
pub fn frame_length(prefix: &[u8; 4], limit: usize) -> (r: Result<usize, usize>)
    ensures
        match r {
            Ok(n) => n == prefix_value(prefix@) && n <= limit,
            Err(n) => n == prefix_value(prefix@) && n > limit,
        },
{
    let n: u32 = (prefix[0] as u32) * 16777216 + (prefix[1] as u32) * 65536 + (prefix[2] as u32)
        * 256 + prefix[3] as u32;
    let n: usize = n as usize;
    if n > limit {
        Err(n)
    } else {
        Ok(n)
    }
}

/// What a receiver makes of the bytes it has so far.
pub enum FrameStep {
    /// More bytes are needed.
    Incomplete,
    /// The announced length is over the limit.
    TooLarge(usize),
    /// A whole frame, and how many bytes it took.
    Frame { payload: Vec<u8>, used: usize },
}

/// What a receiver makes of `bytes`.
pub open spec fn step_of(bytes: Seq<u8>, limit: int, step: FrameStep) -> bool {
    if bytes.len() < 4 {
        step is Incomplete
    } else {
        let n = prefix_value(bytes);
        if n > limit {
            step matches FrameStep::TooLarge(m) && m == n
        } else if bytes.len() < 4 + n {
            step is Incomplete
        } else {
            &&& step matches FrameStep::Frame { payload, used }
            &&& payload@ == bytes.subrange(4, 4 + n as int)
            &&& used == 4 + n
        }
    }
}

/// Reads one frame from the front of the bytes received so far.
pub fn decode_frame(bytes: &Vec<u8>, limit: usize) -> (r: FrameStep)
    ensures
        step_of(bytes@, limit as int, r),
{
    if bytes.len() < 4 {
        return FrameStep::Incomplete;
    }
    let prefix: [u8; 4] = [bytes[0], bytes[1], bytes[2], bytes[3]];
    match frame_length(&prefix, limit) {
        Err(n) => FrameStep::TooLarge(n),
        Ok(n) => {
            if bytes.len() - 4 < n {
                return FrameStep::Incomplete;
            }
            let payload = slice_to_vec(slice_subrange(bytes.as_slice(), 4, 4 + n));
            FrameStep::Frame { payload, used: 4 + n }
        },
    }
}

/// A payload within the limit is read back as it was sent, and what follows it is left over.
pub proof fn frame_round_trip(payload: Seq<u8>, rest: Seq<u8>, limit: usize, step: FrameStep)
    requires
        payload.len() <= limit,
        payload.len() <= u32::MAX,
        step_of(frame_of(payload) + rest, limit as int, step),
    ensures
        step matches FrameStep::Frame { payload: p, used } && p@ == payload && (frame_of(payload)
            + rest).skip(used as int) == rest,
{
    let bytes = frame_of(payload) + rest;
    let n = payload.len() as u32;
    lemma_prefix(n);
    assert(prefix_value(bytes) == prefix_value(prefix_bytes(n)));
    assert(bytes.subrange(4, 4 + n as int) =~= payload);
    assert(bytes.skip(4 + n as int) =~= rest);
}

/// A payload over the limit is refused with its length.
pub proof fn oversized_frame_is_refused(payload: Seq<u8>, rest: Seq<u8>, limit: usize, step: FrameStep)
    requires
        limit < payload.len() <= u32::MAX,
        step_of(frame_of(payload) + rest, limit as int, step),
    ensures
        step matches FrameStep::TooLarge(n) && n == payload.len(),
{
    let bytes = frame_of(payload) + rest;
    let n = payload.len() as u32;
    lemma_prefix(n);
    assert(prefix_value(bytes) == prefix_value(prefix_bytes(n)));
}

proof fn lemma_prefix(n: u32)
    ensures
        prefix_value(prefix_bytes(n)) == n,
{
    assert((n / 16777216) as u8 == n / 16777216);
    assert(n == (n / 16777216) * 16777216 + ((n / 65536) % 256) * 65536 + ((n / 256) % 256) * 256
        + n % 256) by (bit_vector);
}

/// The length that a prefix was made from is the length that it stands for.
pub proof fn prefixes_read_back(n: u32)
    ensures
        prefix_value(prefix_bytes(n)) == n,
{
    lemma_prefix(n);
}

/// The reason given when a chat frame is refused.
pub fn chat_too_large(len: u64) -> (r: String)
    ensures
        r@ == "Chat message too large: "@ + text::decimal(len as nat) + " bytes"@,
{
    let mut s = "Chat message too large: ".to_owned();
    s.append(text::u64_text(len).as_str());
    s.append(" bytes");
    s
}

/// The reason given when a direct message frame is refused.
pub fn dm_too_large(len: u64) -> (r: String)
    ensures
        r@ == "DM frame too large: "@ + text::decimal(len as nat) + " bytes"@,
{
    let mut s = "DM frame too large: ".to_owned();
    s.append(text::u64_text(len).as_str());
    s.append(" bytes");
    s
}

} // verus!
