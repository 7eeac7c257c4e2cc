//! The descriptor's byte form: the portable encoding the queue service
//! stores and later replays. Integers travel little-endian; each list is a
//! 32-bit element count followed by its elements; an address is its 32 raw
//! bytes. Equal descriptors encode to equal bytes.

use vstd::prelude::*;

use crate::compiler::CompiledIx;
use crate::compiler::CompiledIxV;
use crate::compiler::CompiledTx;
use crate::compiler::CompiledTxV;
use crate::compiler::addrs_view;
use crate::compiler::cixs_view;
use crate::compiler::seed_group_fn;
use crate::compiler::seeds_view;
use crate::errors::CoreError;
use crate::ixdata::push_bytes;
use crate::ixdata::push_u32_le;
use crate::ixdata::u32_le;

verus! {

/// A byte list on the wire: its length, then its bytes.
pub open spec fn enc_bytes(b: Seq<u8>) -> Seq<u8> {
    u32_le(b.len() as u32) + b
}

/// One compiled instruction on the wire.
pub open spec fn enc_ix(c: CompiledIxV) -> Seq<u8> {
    seq![c.program_id_index] + enc_bytes(c.accounts) + enc_bytes(c.data)
}

/// The account table on the wire: each address's raw bytes, in order.
pub open spec fn enc_addr_list(s: Seq<Seq<u8>>) -> Seq<u8>
    decreases s.len(),
{
    if s.len() == 0 {
        Seq::empty()
    } else {
        enc_addr_list(s.drop_last()) + s.last()
    }
}

/// The instruction list on the wire, in order.
pub open spec fn enc_ix_list(s: Seq<CompiledIxV>) -> Seq<u8>
    decreases s.len(),
{
    if s.len() == 0 {
        Seq::empty()
    } else {
        enc_ix_list(s.drop_last()) + enc_ix(s.last())
    }
}

/// One signer-seed group on the wire: each seed as a byte list, in order.
pub open spec fn enc_seed_group(g: Seq<Seq<u8>>) -> Seq<u8>
    decreases g.len(),
{
    if g.len() == 0 {
        Seq::empty()
    } else {
        enc_seed_group(g.drop_last()) + enc_bytes(g.last())
    }
}

/// The signer-seed groups on the wire, each with its own element count.
pub open spec fn enc_seed_list(s: Seq<Seq<Seq<u8>>>) -> Seq<u8>
    decreases s.len(),
{
    if s.len() == 0 {
        Seq::empty()
    } else {
        enc_seed_list(s.drop_last()) + u32_le(s.last().len() as u32) + enc_seed_group(s.last())
    }
}

/// The whole descriptor on the wire.
pub open spec fn enc_tx(t: CompiledTxV) -> Seq<u8> {
    seq![t.num_rw_signers, t.num_ro_signers, t.num_rw] + u32_le(t.accounts.len() as u32)
        + enc_addr_list(t.accounts) + u32_le(t.instructions.len() as u32) + enc_ix_list(
        t.instructions,
    ) + u32_le(t.signer_seeds.len() as u32) + enc_seed_list(t.signer_seeds)
}

/// Whether every count in the descriptor fits the wire's 32-bit lengths.
pub open spec fn encodable(t: CompiledTxV) -> bool {
    &&& t.accounts.len() <= u32::MAX
    &&& t.instructions.len() <= u32::MAX
    &&& t.signer_seeds.len() <= u32::MAX
    &&& forall|i: int|
        0 <= i < t.instructions.len() ==> (#[trigger] t.instructions[i]).accounts.len()
            <= u32::MAX && t.instructions[i].data.len() <= u32::MAX
    &&& forall|i: int|
        0 <= i < t.signer_seeds.len() ==> (#[trigger] t.signer_seeds[i]).len() <= u32::MAX
    &&& forall|i: int, j: int|
        0 <= i < t.signer_seeds.len() && 0 <= j < t.signer_seeds[i].len() ==> (
        #[trigger] t.signer_seeds[i][j]).len() <= u32::MAX
}

/// Appends one compiled instruction's wire form.
fn push_ix(out: &mut Vec<u8>, c: &CompiledIx)
    requires
        c@.accounts.len() <= u32::MAX,
        c@.data.len() <= u32::MAX,
    ensures
        final(out)@ == old(out)@ + enc_ix(c@),
{
    out.push(c.program_id_index);
    push_u32_le(out, c.accounts.len() as u32);
    push_bytes(out, c.accounts.as_slice());
    push_u32_le(out, c.data.len() as u32);
    push_bytes(out, c.data.as_slice());
    proof {
        assert(out@ =~= old(out)@ + enc_ix(c@));
    }
}

/// Encodes a descriptor into its wire bytes; refuses, with
/// `CompilationError`, exactly when some list outgrows the wire's 32-bit
/// counts. Equal descriptors yield byte-identical results.
pub fn encode_compiled_tx(t: &CompiledTx) -> (r: Result<Vec<u8>, CoreError>)
    ensures
        (r is Ok) == encodable(t@),
        r matches Ok(b) ==> b@ == enc_tx(t@),
        r matches Err(e) ==> e == CoreError::CompilationError,
{
    if t.accounts.len() as u64 > 0xffff_ffffu64 || t.instructions.len() as u64 > 0xffff_ffffu64
        || t.signer_seeds.len() as u64 > 0xffff_ffffu64 {
        return Err(CoreError::CompilationError);
    }
    let mut i: usize = 0;
    while i < t.instructions.len()
        invariant
            i <= t.instructions@.len(),
            forall|k: int|
                0 <= k < i ==> (#[trigger] cixs_view(t.instructions@)[k]).accounts.len()
                    <= u32::MAX && cixs_view(t.instructions@)[k].data.len() <= u32::MAX,
        decreases t.instructions@.len() - i,
    {
        let c = &t.instructions[i];
        if c.accounts.len() as u64 > 0xffff_ffffu64 || c.data.len() as u64 > 0xffff_ffffu64 {
            proof {
                assert(cixs_view(t.instructions@)[i as int] == t.instructions@[i as int]@);
                assert(!encodable(t@)) by {
                    if encodable(t@) {
                        assert(t@.instructions[i as int].accounts.len() <= u32::MAX
                            && t@.instructions[i as int].data.len() <= u32::MAX);
                    }
                }
            }
            return Err(CoreError::CompilationError);
        }
        proof {
            assert(cixs_view(t.instructions@)[i as int] == t.instructions@[i as int]@);
            assert(cixs_view(t.instructions@)[i as int].accounts.len() <= u32::MAX);
            assert(cixs_view(t.instructions@)[i as int].data.len() <= u32::MAX);
        }
        i += 1;
    }
    let mut i: usize = 0;
    while i < t.signer_seeds.len()
        invariant
            i <= t.signer_seeds@.len(),
            forall|k: int|
                0 <= k < i ==> (#[trigger] seeds_view(t.signer_seeds@)[k]).len() <= u32::MAX,
            forall|k: int, j: int|
                0 <= k < i && 0 <= j < seeds_view(t.signer_seeds@)[k].len() ==> (
                #[trigger] seeds_view(t.signer_seeds@)[k][j]).len() <= u32::MAX,
        decreases t.signer_seeds@.len() - i,
    {
        let g = &t.signer_seeds[i];
        if g.len() as u64 > 0xffff_ffffu64 {
            proof {
                assert(seeds_view(t.signer_seeds@)[i as int] == seed_group_fn()(
                    t.signer_seeds@[i as int],
                ));
                assert(!encodable(t@));
            }
            return Err(CoreError::CompilationError);
        }
        let mut j: usize = 0;
        while j < g.len()
            invariant
                j <= g@.len(),
                i < t.signer_seeds@.len(),
                g == &t.signer_seeds[i as int],
                forall|l: int|
                    0 <= l < j ==> (#[trigger] seeds_view(t.signer_seeds@)[i as int][l]).len()
                        <= u32::MAX,
            decreases g@.len() - j,
        {
            if g[j].len() as u64 > 0xffff_ffffu64 {
                proof {
                    assert(seeds_view(t.signer_seeds@)[i as int] == seed_group_fn()(
                        t.signer_seeds@[i as int],
                    ));
                    assert(seeds_view(t.signer_seeds@)[i as int][j as int] == t.signer_seeds@[i as int]@[j as int]@);
                    assert(!encodable(t@));
                }
                return Err(CoreError::CompilationError);
            }
            proof {
                assert(seeds_view(t.signer_seeds@)[i as int] == seed_group_fn()(
                    t.signer_seeds@[i as int],
                ));
                assert(seeds_view(t.signer_seeds@)[i as int][j as int] == t.signer_seeds@[i as int]@[j as int]@);
            }
            j += 1;
        }
        proof {
            assert(seeds_view(t.signer_seeds@)[i as int] == seed_group_fn()(
                t.signer_seeds@[i as int],
            ));
        }
        i += 1;
    }
    proof {
        assert(encodable(t@));
    }

    let mut out: Vec<u8> = Vec::new();
    out.push(t.num_rw_signers);
    out.push(t.num_ro_signers);
    out.push(t.num_rw);
    push_u32_le(&mut out, t.accounts.len() as u32);
    let ghost head = out@;

    let mut k: usize = 0;
    while k < t.accounts.len()
        invariant
            k <= t.accounts@.len(),
            out@ == head + enc_addr_list(addrs_view(t.accounts@).take(k as int)),
        decreases t.accounts@.len() - k,
    {
        let a = t.accounts[k];
        push_bytes(&mut out, a.0.as_slice());
        proof {
            let av = addrs_view(t.accounts@);
            assert(av[k as int] == t.accounts@[k as int]@);
            assert(av.take(k as int + 1).drop_last() =~= av.take(k as int));
            assert(av.take(k as int + 1).last() == av[k as int]);
        }
        k += 1;
    }
    proof {
        let av = addrs_view(t.accounts@);
        assert(av.take(av.len() as int) =~= av);
    }

    push_u32_le(&mut out, t.instructions.len() as u32);
    let ghost mid = out@;
    let mut k: usize = 0;
    while k < t.instructions.len()
        invariant
            k <= t.instructions@.len(),
            out@ == mid + enc_ix_list(cixs_view(t.instructions@).take(k as int)),
            forall|l: int|
                0 <= l < t.instructions@.len() ==> (#[trigger] cixs_view(t.instructions@)[l]).accounts.len()
                    <= u32::MAX && cixs_view(t.instructions@)[l].data.len() <= u32::MAX,
        decreases t.instructions@.len() - k,
    {
        let c = &t.instructions[k];
        proof {
            assert(cixs_view(t.instructions@)[k as int] == t.instructions@[k as int]@);
        }
        push_ix(&mut out, c);
        proof {
            let cv = cixs_view(t.instructions@);
            assert(cv.take(k as int + 1).drop_last() =~= cv.take(k as int));
            assert(cv.take(k as int + 1).last() == cv[k as int]);
        }
        k += 1;
    }
    proof {
        let cv = cixs_view(t.instructions@);
        assert(cv.take(cv.len() as int) =~= cv);
    }

    push_u32_le(&mut out, t.signer_seeds.len() as u32);
    let ghost tail = out@;
    let mut k: usize = 0;
    while k < t.signer_seeds.len()
        invariant
            k <= t.signer_seeds@.len(),
            out@ == tail + enc_seed_list(seeds_view(t.signer_seeds@).take(k as int)),
            forall|l: int|
                0 <= l < t.signer_seeds@.len() ==> (#[trigger] seeds_view(t.signer_seeds@)[l]).len()
                    <= u32::MAX,
            forall|l: int, j: int|
                0 <= l < t.signer_seeds@.len() && 0 <= j < seeds_view(t.signer_seeds@)[l].len()
                    ==> (#[trigger] seeds_view(t.signer_seeds@)[l][j]).len() <= u32::MAX,
        decreases t.signer_seeds@.len() - k,
    {
        let g = &t.signer_seeds[k];
        let ghost gv = seeds_view(t.signer_seeds@)[k as int];
        proof {
            assert(gv == seed_group_fn()(t.signer_seeds@[k as int]));
        }
        push_u32_le(&mut out, g.len() as u32);
        let ghost ghead = out@;
        let mut j: usize = 0;
        while j < g.len()
            invariant
                j <= g@.len(),
                k < t.signer_seeds@.len(),
                g == &t.signer_seeds[k as int],
                gv == seeds_view(t.signer_seeds@)[k as int],
                gv == seed_group_fn()(t.signer_seeds@[k as int]),
                forall|l: int| 0 <= l < gv.len() ==> (#[trigger] gv[l]).len() <= u32::MAX,
                out@ == ghead + enc_seed_group(gv.take(j as int)),
            decreases g@.len() - j,
        {
            let s = &g[j];
            proof {
                assert(gv[j as int] == g@[j as int]@);
            }
            push_u32_le(&mut out, s.len() as u32);
            push_bytes(&mut out, s.as_slice());
            proof {
                assert(gv.take(j as int + 1).drop_last() =~= gv.take(j as int));
                assert(gv.take(j as int + 1).last() == gv[j as int]);
                assert(out@ =~= ghead + enc_seed_group(gv.take(j as int + 1)));
            }
            j += 1;
        }
        proof {
            assert(gv.take(gv.len() as int) =~= gv);
            let sv = seeds_view(t.signer_seeds@);
            assert(sv.take(k as int + 1).drop_last() =~= sv.take(k as int));
            assert(sv.take(k as int + 1).last() == sv[k as int]);
            assert(out@ =~= tail + enc_seed_list(sv.take(k as int + 1)));
        }
        k += 1;
    }
    proof {
        let sv = seeds_view(t.signer_seeds@);
        assert(sv.take(sv.len() as int) =~= sv);
        assert(out@ =~= enc_tx(t@));
    }
    Ok(out)
}

} // verus!
