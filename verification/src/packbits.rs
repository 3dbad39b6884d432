use vstd::prelude::*;
use crate::error::{ImageError, ImageResult};

verus! {

/// What the PackBits stream `inp` decodes to, record by record: a control
/// byte below 128 copies that many bytes plus one literally, one above 128
/// repeats the following byte 257 minus its value times, and 128 itself is a
/// no-op. `None` when the input ends in the middle of a record.
pub open spec fn packbits_decode(inp: Seq<u8>) -> Option<Seq<u8>>
    decreases inp.len(),
{
    if inp.len() == 0 {
        Some(Seq::empty())
    } else {
        let c = inp[0];
        if c < 128 {
            let run = c + 1;
            if inp.len() >= 1 + run {
                match packbits_decode(inp.skip(1 + run)) {
                    Some(rest) => Some(inp.subrange(1, 1 + run) + rest),
                    None => None,
                }
            } else {
                None
            }
        } else if c == 128 {
            packbits_decode(inp.skip(1))
        } else {
            let run = 257 - c;
            if inp.len() >= 2 {
                match packbits_decode(inp.skip(2)) {
                    Some(rest) => Some(Seq::new(run as nat, |j: int| inp[1]) + rest),
                    None => None,
                }
            } else {
                None
            }
        }
    }
}

/// Decodes a whole PackBits stream, bounded by a caller-declared maximum
/// uncompressed size. Fails, rather than overrunning, when the input ends
/// mid-record or a record would push the output past `max_output`.
pub fn packbits_decompress(input: &Vec<u8>, max_output: usize) -> (r: ImageResult<Vec<u8>>)
    ensures
        match packbits_decode(input@) {
            Some(out) => if out.len() <= max_output {
                r is Ok && r->Ok_0@ == out
            } else {
                r matches Err(ImageError::FormatError(_))
            },
            None => r matches Err(ImageError::FormatError(_)),
        },
{
    let mut out: Vec<u8> = Vec::new();
    let mut i: usize = 0;
    proof {
        assert(input@.skip(0) =~= input@);
        match packbits_decode(input@) {
            Some(rest) => {
                assert(Seq::<u8>::empty() + rest =~= rest);
            },
            None => {},
        }
    }
    while i < input.len()
        invariant
            i <= input@.len(),
            out@.len() <= max_output,
            packbits_decode(input@) == (match packbits_decode(input@.skip(i as int)) {
                Some(rest) => Some(out@ + rest),
                None => None::<Seq<u8>>,
            }),
        decreases input@.len() - i,
    {
        let ghost pre = input@.skip(i as int);
        proof {
            assert(pre[0] == input@[i as int]);
        }
        let c = input[i];
        if c < 128 {
            let run: usize = c as usize + 1;
            if input.len() - i - 1 < run {
                proof {
                    assert(packbits_decode(pre) is None);
                }
                return Err(ImageError::FormatError(
                    "PackBits input exhausted mid-record".to_owned(),
                ));
            }
            proof {
                assert(pre.skip(1 + run as int) =~= input@.skip(i + 1 + run));
                assert(pre.subrange(1, 1 + run as int) =~= input@.subrange(
                    i + 1,
                    i + 1 + run,
                ));
            }
            if max_output - out.len() < run {
                proof {
                    if packbits_decode(pre) is Some {
                        assert(packbits_decode(pre)->Some_0.len() >= run);
                    }
                }
                return Err(ImageError::FormatError(
                    "PackBits output exceeds the declared bound".to_owned(),
                ));
            }
            let ghost out0 = out@;
            let mut k: usize = 0;
            proof {
                assert(out@ =~= out0 + input@.subrange(i + 1, i + 1));
            }
            while k < run
                invariant
                    k <= run,
                    i + 1 + run <= input@.len(),
                    input@.len() <= usize::MAX,
                    run <= 128,
                    out@ == out0 + input@.subrange(i + 1, i + 1 + k),
                decreases run - k,
            {
                out.push(input[i + 1 + k]);
                proof {
                    assert(out@ =~= out0 + input@.subrange(i + 1, i + 1 + k + 1));
                }
                k = k + 1;
            }
            proof {
                match packbits_decode(input@.skip(i + 1 + run)) {
                    Some(rest) => {
                        assert(out0 + (input@.subrange(i + 1, i + 1 + run) + rest) =~= out@
                            + rest);
                    },
                    None => {},
                }
            }
            i = i + 1 + run;
        } else if c == 128 {
            proof {
                assert(pre.skip(1) =~= input@.skip(i + 1));
            }
            i = i + 1;
        } else {
            let run: usize = 257 - c as usize;
            if input.len() - i < 2 {
                proof {
                    assert(packbits_decode(pre) is None);
                }
                return Err(ImageError::FormatError(
                    "PackBits input exhausted mid-record".to_owned(),
                ));
            }
            proof {
                assert(pre.skip(2) =~= input@.skip(i + 2));
            }
            if max_output - out.len() < run {
                proof {
                    if packbits_decode(pre) is Some {
                        assert(packbits_decode(pre)->Some_0.len() >= run);
                    }
                }
                return Err(ImageError::FormatError(
                    "PackBits output exceeds the declared bound".to_owned(),
                ));
            }
            let rep = input[i + 1];
            let ghost out0 = out@;
            let mut k: usize = 0;
            proof {
                assert(out@ =~= out0 + Seq::new(0, |j: int| rep));
            }
            while k < run
                invariant
                    k <= run,
                    run <= 128,
                    out@ == out0 + Seq::new(k as nat, |j: int| rep),
                decreases run - k,
            {
                out.push(rep);
                proof {
                    assert(out@ =~= out0 + Seq::new((k + 1) as nat, |j: int| rep));
                }
                k = k + 1;
            }
            proof {
                assert(Seq::new(run as nat, |j: int| pre[1]) =~= Seq::new(
                    run as nat,
                    |j: int| rep,
                ));
                match packbits_decode(input@.skip(i + 2)) {
                    Some(rest) => {
                        assert(out0 + (Seq::new(run as nat, |j: int| rep) + rest) =~= out@
                            + rest);
                    },
                    None => {},
                }
            }
            i = i + 2;
        }
    }
    proof {
        assert(input@.skip(i as int) =~= Seq::<u8>::empty());
        assert(out@ + Seq::<u8>::empty() =~= out@);
    }
    Ok(out)
}

} // verus!
