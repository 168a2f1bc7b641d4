//! Interleaving the frames of two streams into a new stream.
use vstd::prelude::*;

use crate::mp3_frame::Mp3Frame;

verus! {

/// The payloads of the first `n` frame pairs, each taken from the first
/// stream where `take_first` says so and from the second otherwise, in order.
pub open spec fn mixed_payloads(
    first: Seq<Mp3Frame>,
    second: Seq<Mp3Frame>,
    take_first: Seq<bool>,
    n: int,
) -> Seq<u8>
    decreases n,
{
    if n <= 0 {
        Seq::empty()
    } else {
        mixed_payloads(first, second, take_first, n - 1) + if take_first[n - 1] {
            first[n - 1].body.data@
        } else {
            second[n - 1].body.data@
        }
    }
}

/// Number of frame pairs that a mix covers: as many as the shorter stream has.
pub open spec fn mix_len(first: Seq<Mp3Frame>, second: Seq<Mp3Frame>) -> int {
    if first.len() <= second.len() {
        first.len() as int
    } else {
        second.len() as int
    }
}

/// Builds a stream from two: for each position that both have, the payload of
/// the frame of the first stream where `take_first` holds at that position,
/// else that of the second.
pub fn mix_frames(first: &Vec<Mp3Frame>, second: &Vec<Mp3Frame>, take_first: &Vec<bool>) -> (r: Vec<
    u8,
>)
    requires
        take_first@.len() >= mix_len(first@, second@),
    ensures
        r@ == mixed_payloads(first@, second@, take_first@, mix_len(first@, second@)),
{
    let n: usize = if first.len() <= second.len() {
        first.len()
    } else {
        second.len()
    };
    let mut out: Vec<u8> = Vec::new();
    let mut i: usize = 0;
    while i < n
        invariant
            n == mix_len(first@, second@),
            n <= first@.len(),
            n <= second@.len(),
            take_first@.len() >= n,
            i <= n,
            out@ == mixed_payloads(first@, second@, take_first@, i as int),
        decreases n - i,
    {
        let payload: &Vec<u8> = if take_first[i] {
            &first[i].body.data
        } else {
            &second[i].body.data
        };
        let ghost before = out@;
        let mut j: usize = 0;
        while j < payload.len()
            invariant
                j <= payload@.len(),
                out@ == before + payload@.subrange(0, j as int),
            decreases payload@.len() - j,
        {
            out.push(payload[j]);
            proof {
                assert(payload@.subrange(0, j + 1) =~= payload@.subrange(0, j as int).push(
                    payload@[j as int],
                ));
            }
            j += 1;
        }
        proof {
            assert(payload@.subrange(0, j as int) =~= payload@);
        }
        i += 1;
    }
    out
}

} // verus!
