use vstd::prelude::*;
use crate::error::{ImageError, ImageResult};

verus! {

/// 2 to the `k`.
pub open spec fn pow2(k: nat) -> nat
    decreases k,
{
    if k == 0 {
        1
    } else {
        2 * pow2((k - 1) as nat)
    }
}

proof fn lemma_pow2_le(a: nat, b: nat)
    requires
        a <= b,
    ensures
        pow2(a) <= pow2(b),
    decreases b,
{
    if a < b {
        lemma_pow2_le(a, (b - 1) as nat);
    }
}

fn pow2_exec(k: usize) -> (r: u32)
    requires
        k <= 23,
    ensures
        r == pow2(k as nat),
        r >= 1,
{
    proof {
        assert(pow2(23) == 0x80_0000) by {
            reveal_with_fuel(pow2, 24);
        }
    }
    let mut r: u32 = 1;
    let mut i: usize = 0;
    while i < k
        invariant
            i <= k,
            k <= 23,
            r == pow2(i as nat),
            pow2(23) == 0x80_0000,
        decreases k - i,
    {
        proof {
            lemma_pow2_le((i + 1) as nat, 23);
        }
        r = r * 2;
        i = i + 1;
    }
    proof {
        lemma_pow2_le(0, k as nat);
    }
    r
}

/// The byte at index `i` of `s`, or zero past the end: the bits of the last
/// code may extend into padding.
pub open spec fn byte_or0(s: Seq<u8>, i: int) -> u8 {
    if 0 <= i < s.len() {
        s[i]
    } else {
        0
    }
}

/// The `w`-bit code starting at bit position `p` of `s`, bits taken most
/// significant first.
pub open spec fn code_at(s: Seq<u8>, p: int, w: int) -> int {
    let v = (byte_or0(s, p / 8) as int) * 0x1_0000 + (byte_or0(s, p / 8 + 1) as int) * 0x100 + (
    byte_or0(s, p / 8 + 2) as int);
    (v / pow2((24 - w - (p % 8)) as nat) as int) % (pow2(w as nat) as int)
}

fn read_code(input: &Vec<u8>, p: u64, w: usize) -> (r: u32)
    requires
        9 <= w <= 12,
        p + w <= 8 * input@.len(),
        input@.len() <= 0xFFFF_FFFF,
    ensures
        r == code_at(input@, p as int, w as int),
{
    let bi: usize = (p / 8) as usize;
    let pm: usize = (p % 8) as usize;
    let shift: usize = 24 - w - pm;
    let b0 = input[bi] as u32;
    let b1 = if bi + 1 < input.len() {
        input[bi + 1] as u32
    } else {
        0
    };
    let b2 = if bi + 2 < input.len() {
        input[bi + 2] as u32
    } else {
        0
    };
    let v: u32 = b0 * 0x1_0000 + b1 * 0x100 + b2;
    let d = pow2_exec(shift);
    let m = pow2_exec(w);
    proof {
        lemma_pow2_le(shift as nat, 23);
        lemma_pow2_le(w as nat, 23);
    }
    (v / d) % m
}

/// The code width in effect when the next free table code is `next_code`,
/// with the customary one-early switch.
pub open spec fn width_for(next_code: int) -> int {
    if next_code < 511 {
        9
    } else if next_code < 1023 {
        10
    } else if next_code < 2047 {
        11
    } else {
        12
    }
}

/// The byte string a code denotes: codes below 256 are single literal bytes;
/// codes from 258 up index the built part of the table.
pub open spec fn str_of(dict: Seq<Seq<u8>>, c: int) -> Seq<u8> {
    if c < 256 {
        seq![c as u8]
    } else {
        dict[c - 258]
    }
}

/// Adds a built entry, unless the table has reached the last 12-bit code.
pub open spec fn push_entry(dict: Seq<Seq<u8>>, e: Seq<u8>) -> Seq<Seq<u8>> {
    if 258 + dict.len() <= 4094 {
        dict.push(e)
    } else {
        dict
    }
}

/// Runs the TIFF-variant LZW machine from bit position `p` with the built
/// table `dict` and the last emitted string `prev`: code 256 clears the
/// table, code 257 ends the stream, any other code emits its string and, when
/// one was emitted before, adds that string plus the first byte of the
/// current one to the table. `None` when the bits run out before the end
/// code, or a code refers past the table.
pub open spec fn lzw_run(inp: Seq<u8>, p: int, dict: Seq<Seq<u8>>, prev: Option<Seq<u8>>) -> Option<
    Seq<u8>,
>
    decreases 8 * inp.len() - p,
{
    let w = width_for(258 + dict.len() as int);
    if p < 0 || p + w > 8 * inp.len() {
        None
    } else {
        let c = code_at(inp, p, w);
        if c == 256 {
            lzw_run(inp, p + w, Seq::empty(), None)
        } else if c == 257 {
            Some(Seq::empty())
        } else {
            match prev {
                None => {
                    if 0 <= c < 256 {
                        match lzw_run(inp, p + w, dict, Some(seq![c as u8])) {
                            Some(rest) => Some(seq![c as u8] + rest),
                            None => None,
                        }
                    } else {
                        None
                    }
                },
                Some(pv) => {
                    if 0 <= c < 256 || (258 <= c && c < 258 + dict.len()) {
                        let entry = str_of(dict, c);
                        match lzw_run(
                            inp,
                            p + w,
                            push_entry(dict, pv + seq![entry[0]]),
                            Some(entry),
                        ) {
                            Some(rest) => Some(entry + rest),
                            None => None,
                        }
                    } else if c == 258 + dict.len() {
                        let entry = pv + seq![pv[0]];
                        match lzw_run(inp, p + w, push_entry(dict, entry), Some(entry)) {
                            Some(rest) => Some(entry + rest),
                            None => None,
                        }
                    } else {
                        None
                    }
                },
            }
        }
    }
}

/// What the LZW code stream `inp` decodes to, starting with an empty table
/// and 9-bit codes; `None` for a malformed stream.
pub open spec fn lzw_decode(inp: Seq<u8>) -> Option<Seq<u8>> {
    lzw_run(inp, 0, Seq::empty(), None)
}

fn copy_bytes(v: &Vec<u8>) -> (r: Vec<u8>)
    ensures
        r@ == v@,
{
    let mut r: Vec<u8> = Vec::new();
    let mut i: usize = 0;
    while i < v.len()
        invariant
            i <= v@.len(),
            r@ == v@.subrange(0, i as int),
        decreases v@.len() - i,
    {
        r.push(v[i]);
        proof {
            assert(r@ =~= v@.subrange(0, i + 1));
        }
        i = i + 1;
    }
    proof {
        assert(v@.subrange(0, v@.len() as int) =~= v@);
    }
    r
}

fn append_bytes(dst: &mut Vec<u8>, src: &Vec<u8>)
    ensures
        final(dst)@ == old(dst)@ + src@,
{
    let ghost d0 = dst@;
    let mut i: usize = 0;
    while i < src.len()
        invariant
            i <= src@.len(),
            dst@ == d0 + src@.subrange(0, i as int),
        decreases src@.len() - i,
    {
        dst.push(src[i]);
        proof {
            assert(dst@ =~= d0 + src@.subrange(0, i + 1));
        }
        i = i + 1;
    }
    proof {
        assert(d0 + src@.subrange(0, src@.len() as int) =~= d0 + src@);
    }
}

/// The view of the last emitted string: the empty vector stands for "none",
/// as right after a clear code.
pub open spec fn prev_view(prev: Seq<u8>) -> Option<Seq<u8>> {
    if prev.len() == 0 {
        None
    } else {
        Some(prev)
    }
}

/// Decodes a whole TIFF LZW code stream, bounded by a caller-declared
/// maximum uncompressed size. Fails, rather than allocating past the bound,
/// when the true output would exceed `max_output`, and on any malformed
/// stream.
pub fn lzw_decompress(input: &Vec<u8>, max_output: usize) -> (r: ImageResult<Vec<u8>>)
    requires
        input@.len() <= 0xFFFF_FFFF,
    ensures
        match lzw_decode(input@) {
            Some(out) => if out.len() <= max_output {
                r is Ok && r->Ok_0@ == out
            } else {
                r matches Err(ImageError::FormatError(_))
            },
            None => r matches Err(ImageError::FormatError(_)),
        },
{
    let mut out: Vec<u8> = Vec::new();
    let mut dict: Vec<Vec<u8>> = Vec::new();
    let mut prev: Vec<u8> = Vec::new();
    let mut p: u64 = 0;
    let end: u64 = 8 * (input.len() as u64);
    proof {
        assert(dict.deep_view() =~~= Seq::<Seq<u8>>::empty());
        match lzw_decode(input@) {
            Some(rest) => {
                assert(Seq::<u8>::empty() + rest =~= rest);
            },
            None => {},
        }
    }
    loop
        invariant
            p <= end,
            end == 8 * input@.len(),
            input@.len() <= 0xFFFF_FFFF,
            out@.len() <= max_output,
            dict@.len() <= 3837,
            forall|i: int| 0 <= i < dict@.len() ==> dict@[i]@.len() >= 1,
            lzw_decode(input@) == (match lzw_run(
                input@,
                p as int,
                dict.deep_view(),
                prev_view(prev@),
            ) {
                Some(rest) => Some(out@ + rest),
                None => None::<Seq<u8>>,
            }),
        decreases end - p,
    {
        let ghost dv = dict.deep_view();
        proof {
            assert(dv.len() == dict@.len());
        }
        let width: usize = if dict.len() < 253 {
            9
        } else if dict.len() < 765 {
            10
        } else if dict.len() < 1789 {
            11
        } else {
            12
        };
        proof {
            assert(width == width_for(258 + dv.len() as int));
        }
        if p + (width as u64) > end {
            return Err(ImageError::FormatError("LZW input ended before the end code".to_owned()));
        }
        let c: u32 = read_code(input, p, width);
        let ghost p0 = p as int;
        p = p + (width as u64);
        if c == 256 {
            dict = Vec::new();
            prev = Vec::new();
            proof {
                assert(dict.deep_view() =~~= Seq::<Seq<u8>>::empty());
            }
        } else if c == 257 {
            proof {
                assert(out@ + Seq::<u8>::empty() =~= out@);
            }
            return Ok(out);
        } else if prev.len() == 0 {
            if c < 256 {
                if out.len() >= max_output {
                    return Err(ImageError::FormatError(
                        "LZW output exceeds the declared bound".to_owned(),
                    ));
                }
                let ghost out0 = out@;
                let mut e: Vec<u8> = Vec::new();
                e.push(c as u8);
                out.push(c as u8);
                prev = e;
                proof {
                    assert(prev@ =~= seq![c as u8]);
                    match lzw_run(input@, p as int, dict.deep_view(), prev_view(prev@)) {
                        Some(rest) => {
                            assert(out0 + (seq![c as u8] + rest) =~= out@ + rest);
                        },
                        None => {},
                    }
                }
            } else {
                return Err(ImageError::FormatError("LZW code outside the table".to_owned()));
            }
        } else {
            let next_code: usize = 258 + dict.len();
            if c < 256 || (c >= 258 && (c as usize) < next_code) {
                let entry: Vec<u8> = if c < 256 {
                    let mut e: Vec<u8> = Vec::new();
                    e.push(c as u8);
                    proof {
                        assert(e@ =~= str_of(dv, c as int));
                    }
                    e
                } else {
                    let e = copy_bytes(&dict[(c - 258) as usize]);
                    proof {
                        assert(e@ == str_of(dv, c as int));
                    }
                    e
                };
                let mut ne = copy_bytes(&prev);
                ne.push(entry[0]);
                proof {
                    assert(ne@ =~= prev_view(prev@)->Some_0 + seq![entry@[0]]);
                }
                if dict.len() <= 3836 {
                    dict.push(ne);
                    proof {
                        assert(dict.deep_view() =~~= push_entry(dv, ne@));
                    }
                } else {
                    proof {
                        assert(dict.deep_view() =~~= push_entry(dv, ne@));
                    }
                }
                if max_output - out.len() < entry.len() {
                    return Err(ImageError::FormatError(
                        "LZW output exceeds the declared bound".to_owned(),
                    ));
                }
                let ghost out0 = out@;
                append_bytes(&mut out, &entry);
                prev = entry;
                proof {
                    match lzw_run(input@, p as int, dict.deep_view(), prev_view(prev@)) {
                        Some(rest) => {
                            assert(out0 + (prev@ + rest) =~= out@ + rest);
                        },
                        None => {},
                    }
                }
            } else if (c as usize) == next_code {
                let mut entry = copy_bytes(&prev);
                entry.push(prev[0]);
                proof {
                    assert(entry@ =~= prev_view(prev@)->Some_0 + seq![prev_view(
                        prev@,
                    )->Some_0[0]]);
                }
                let ne = copy_bytes(&entry);
                if dict.len() <= 3836 {
                    dict.push(ne);
                    proof {
                        assert(dict.deep_view() =~~= push_entry(dv, entry@));
                    }
                } else {
                    proof {
                        assert(dict.deep_view() =~~= push_entry(dv, entry@));
                    }
                }
                if max_output - out.len() < entry.len() {
                    return Err(ImageError::FormatError(
                        "LZW output exceeds the declared bound".to_owned(),
                    ));
                }
                let ghost out0 = out@;
                append_bytes(&mut out, &entry);
                prev = entry;
                proof {
                    match lzw_run(input@, p as int, dict.deep_view(), prev_view(prev@)) {
                        Some(rest) => {
                            assert(out0 + (prev@ + rest) =~= out@ + rest);
                        },
                        None => {},
                    }
                }
            } else {
                return Err(ImageError::FormatError("LZW code outside the table".to_owned()));
            }
        }
    }
}

} // verus!
