//! Packing of byte streams into one buffer with 16-byte-aligned offsets.

use vstd::prelude::*;

verus! {

/// The cursor value after rounding up to the next multiple of 16 (pad, never shrink).
pub open spec fn spec_align16(n: nat) -> nat {
    if n % 16 == 0 {
        n
    } else {
        (n + 16 - n % 16) as nat
    }
}

/// A block padded with zero bytes up to the next 16-byte boundary.
pub open spec fn pad16(b: Seq<u8>) -> Seq<u8> {
    b + Seq::new((spec_align16(b.len()) - b.len()) as nat, |i: int| 0u8)
}

/// The packed buffer: every block in order, each starting on a 16-byte
/// boundary, with zero padding in between (pad, never shrink).
pub open spec fn spec_packed(blocks: Seq<Seq<u8>>) -> Seq<u8>
    decreases blocks.len(),
{
    if blocks.len() == 0 {
        Seq::empty()
    } else {
        pad16(spec_packed(blocks.drop_last())) + blocks.last()
    }
}

/// Where each block starts in the packed buffer.
pub open spec fn spec_offsets(blocks: Seq<Seq<u8>>) -> Seq<nat>
    decreases blocks.len(),
{
    if blocks.len() == 0 {
        Seq::empty()
    } else {
        spec_offsets(blocks.drop_last()).push(
            spec_align16(spec_packed(blocks.drop_last()).len()),
        )
    }
}

/// The packing is a round trip: every computed offset is 16-byte aligned,
/// every block lies whole inside the buffer, and reading the buffer back at
/// a block's offset for the block's length reproduces the block exactly.
pub proof fn lemma_packed_props(blocks: Seq<Seq<u8>>)
    ensures
        spec_offsets(blocks).len() == blocks.len(),
        forall|i: int|
            0 <= i < blocks.len() ==> (#[trigger] spec_offsets(blocks)[i]) % 16 == 0,
        forall|i: int|
            0 <= i < blocks.len() ==> spec_offsets(blocks)[i] + blocks[i].len()
                <= spec_packed(blocks).len(),
        forall|i: int|
            0 <= i < blocks.len() ==> spec_packed(blocks).subrange(
                spec_offsets(blocks)[i] as int,
                spec_offsets(blocks)[i] + blocks[i].len() as int,
            ) == blocks[i],
    decreases blocks.len(),
{
    if blocks.len() > 0 {
        let dl = blocks.drop_last();
        lemma_packed_props(dl);
        let off = spec_offsets(blocks);
        let buf = spec_packed(blocks);
        let pdl = spec_packed(dl);
        let last_off = spec_align16(pdl.len());
        assert(pad16(pdl).len() == last_off);
        assert forall|i: int| 0 <= i < blocks.len() implies (#[trigger] off[i]) % 16 == 0 by {
            if i < blocks.len() - 1 {
                assert(off[i] == spec_offsets(dl)[i]);
            } else {
                lemma_align16_mod(pdl.len());
            }
        }
        assert forall|i: int| 0 <= i < blocks.len() implies off[i] + blocks[i].len()
            <= buf.len() by {
            if i < blocks.len() - 1 {
                assert(off[i] == spec_offsets(dl)[i]);
                assert(dl[i] == blocks[i]);
            }
        }
        assert forall|i: int| 0 <= i < blocks.len() implies buf.subrange(
            off[i] as int,
            off[i] + blocks[i].len() as int,
        ) == blocks[i] by {
            if i < blocks.len() - 1 {
                assert(off[i] == spec_offsets(dl)[i]);
                assert(dl[i] == blocks[i]);
                assert(off[i] + blocks[i].len() <= pdl.len());
                assert(buf.subrange(off[i] as int, off[i] + blocks[i].len() as int) =~= pdl.subrange(
                    off[i] as int,
                    off[i] + blocks[i].len() as int,
                ));
            } else {
                assert(buf.subrange(last_off as int, last_off + blocks[i].len() as int)
                    =~= blocks.last());
            }
        }
    }
}

/// Rounding up to 16 lands on a multiple of 16.
pub proof fn lemma_align16_mod(n: nat)
    ensures
        spec_align16(n) % 16 == 0,
        n <= spec_align16(n) < n + 16,
{
    if n % 16 != 0 {
        assert(n == 16 * (n / 16) + n % 16) by (nonlinear_arith);
        assert((n + 16 - n % 16) == 16 * (n / 16 + 1)) by (nonlinear_arith)
            requires
                n == 16 * (n / 16) + n % 16,
        ;
        assert((16 * (n / 16 + 1)) % 16 == 0) by (nonlinear_arith);
    }
}

/// Packs the blocks into one buffer, recording each block's 16-byte-aligned
/// start offset; blocks stay in order, in separate contiguous ranges.
pub fn pack_blocks(blocks: &Vec<Vec<u8>>) -> (r: (Vec<usize>, Vec<u8>))
    ensures
        ({
            let bs = blocks@.map_values(|b: Vec<u8>| b@);
            r.0@.map_values(|x: usize| x as nat) == spec_offsets(bs) && r.1@ == spec_packed(bs)
        }),
{
    let ghost bs = blocks@.map_values(|b: Vec<u8>| b@);
    let mut offsets: Vec<usize> = Vec::new();
    let mut buf: Vec<u8> = Vec::new();
    proof {
        assert(bs.take(0) =~= Seq::<Seq<u8>>::empty());
        assert(offsets@.map_values(|x: usize| x as nat) =~= Seq::<nat>::empty());
    }
    let mut i: usize = 0;
    while i < blocks.len()
        invariant
            i <= blocks@.len(),
            bs == blocks@.map_values(|b: Vec<u8>| b@),
            offsets@.map_values(|x: usize| x as nat) == spec_offsets(bs.take(i as int)),
            buf@ == spec_packed(bs.take(i as int)),
        decreases blocks@.len() - i,
    {
        let ghost packed_pre = buf@;
        // pad to the next 16-byte boundary
        let rem = buf.len() % 16;
        if rem != 0 {
            let need = 16 - rem;
            let mut k: usize = 0;
            while k < need
                invariant
                    k <= need,
                    need == 16 - (packed_pre.len() % 16),
                    packed_pre.len() % 16 != 0,
                    buf@ == packed_pre + Seq::new(k as nat, |j: int| 0u8),
                decreases need - k,
            {
                buf.push(0);
                proof {
                    assert(buf@ =~= packed_pre + Seq::new((k + 1) as nat, |j: int| 0u8));
                }
                k += 1;
            }
        }
        proof {
            assert(buf@ =~= pad16(packed_pre));
            lemma_align16_mod(packed_pre.len());
        }
        let ghost old_offsets = offsets@;
        offsets.push(buf.len());
        proof {
            assert(offsets@.map_values(|x: usize| x as nat) =~= old_offsets.map_values(
                |x: usize| x as nat,
            ).push(spec_align16(packed_pre.len())));
        }
        // append the block
        let block = &blocks[i];
        let ghost padded = buf@;
        let mut k: usize = 0;
        while k < block.len()
            invariant
                k <= block@.len(),
                buf@ == padded + block@.take(k as int),
            decreases block@.len() - k,
        {
            buf.push(block[k]);
            proof {
                assert(buf@ =~= padded + block@.take(k + 1));
            }
            k += 1;
        }
        proof {
            assert(block@.take(block@.len() as int) =~= block@);
            assert(bs.take(i + 1).drop_last() =~= bs.take(i as int));
            assert(bs.take(i + 1).last() == bs[i as int]);
            assert(bs[i as int] == block@);
            assert(buf@ =~= pad16(spec_packed(bs.take(i as int))) + bs[i as int]);
        }
        i += 1;
    }
    proof {
        assert(bs.take(blocks@.len() as int) =~= bs);
    }
    (offsets, buf)
}

} // verus!
