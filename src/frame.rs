use vstd::prelude::*;

use crate::error::ServerError;

verus! {

/// The number of bytes of a frame's length header.
pub const HEADER_LEN: usize = 4;

/// The little-endian value of the first four bytes of `b`.
pub open spec fn header_value(b: Seq<u8>) -> int {
    b[0] as int + 256 * b[1] as int + 65536 * b[2] as int + 16777216 * b[3] as int
}

/// The bytes that frame `payload`: its length as four little-endian bytes,
/// then the payload.
pub open spec fn framed(payload: Seq<u8>) -> Seq<u8> {
    let n = payload.len();
    seq![
        (n % 256) as u8,
        ((n / 256) % 256) as u8,
        ((n / 65536) % 256) as u8,
        ((n / 16777216) % 256) as u8,
    ] + payload
}

/// A buffer is a well-formed frame when it holds a header and exactly as
/// many bytes after it as the header says.
pub open spec fn is_frame(b: Seq<u8>) -> bool {
    b.len() >= 4 && header_value(b) == b.len() - 4
}

/// Frames `payload` for the call boundary of an instance.
pub fn encode_frame(payload: &[u8]) -> (r: Vec<u8>)
    requires
        payload@.len() <= u32::MAX,
    ensures
        r@ == framed(payload@),
{
    let n = payload.len() as u32;
    let mut r: Vec<u8> = Vec::new();
    r.push((n % 256) as u8);
    r.push(((n / 256) % 256) as u8);
    r.push(((n / 65536) % 256) as u8);
    r.push(((n / 16777216) % 256) as u8);
    let mut i: usize = 0;
    while i < payload.len()
        invariant
            i <= payload@.len(),
            r@.len() == 4 + i,
            forall|j: int| 0 <= j < 4 ==> r@[j] == framed(payload@)[j],
            forall|j: int| 0 <= j < i ==> r@[4 + j] == payload@[j],
        decreases payload@.len() - i,
    {
        r.push(payload[i]);
        i = i + 1;
    }
    proof {
        assert forall|j: int| 0 <= j < r@.len() implies r@[j] == framed(payload@)[j] by {
            if j >= 4 {
                assert(r@[4 + (j - 4)] == payload@[j - 4]);
            }
        }
        assert(r@ =~= framed(payload@));
    }
    r
}

/// Checks and unframes a buffer returned by an instance: the payload when
/// the buffer is a well-formed frame, else `WrongResultLength`.
pub fn decode_frame(buf: &Vec<u8>) -> (r: Result<Vec<u8>, ServerError>)
    ensures
        is_frame(buf@) ==> r is Ok && r->Ok_0@ == buf@.subrange(4, buf@.len() as int),
        !is_frame(buf@) ==> r matches Err(ServerError::WrongResultLength),
{
    if buf.len() < HEADER_LEN {
        return Err(ServerError::WrongResultLength);
    }
    let n: u64 = buf[0] as u64 + 256 * (buf[1] as u64) + 65536 * (buf[2] as u64) + 16777216 * (
    buf[3] as u64);
    if n != (buf.len() - HEADER_LEN) as u64 {
        return Err(ServerError::WrongResultLength);
    }
    let mut out: Vec<u8> = Vec::new();
    let mut i: usize = HEADER_LEN;
    while i < buf.len()
        invariant
            HEADER_LEN <= i <= buf@.len(),
            out@ == buf@.subrange(4, i as int),
        decreases buf@.len() - i,
    {
        out.push(buf[i]);
        i = i + 1;
        proof {
            assert(out@ =~= buf@.subrange(4, i as int));
        }
    }
    Ok(out)
}

/// Unframing a framed payload gives the payload back.
pub proof fn lemma_frame_round_trip(payload: Seq<u8>)
    requires
        payload.len() <= u32::MAX,
    ensures
        is_frame(framed(payload)),
        framed(payload).subrange(4, framed(payload).len() as int) == payload,
{
    let b = framed(payload);
    let n = payload.len() as int;
    assert(b[0] as int == n % 256);
    assert(b[1] as int == (n / 256) % 256);
    assert(b[2] as int == (n / 65536) % 256);
    assert(b[3] as int == (n / 16777216) % 256);
    assert(n % 256 + 256 * ((n / 256) % 256) + 65536 * ((n / 65536) % 256) + 16777216 * ((n
        / 16777216) % 256) == n) by (nonlinear_arith)
        requires
            0 <= n <= u32::MAX,
    ;
    assert(b.subrange(4, b.len() as int) =~= payload);
}

} // verus!
