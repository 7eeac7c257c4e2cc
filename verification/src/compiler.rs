//! The transaction compiler: turns an ordered list of abstract instructions
//! into the portable descriptor that the queue service later replays.
//!
//! The descriptor carries one shared account table and, per instruction,
//! indices into that table. The table lists each distinct address once, with
//! the write and signer flags of all its uses joined, ordered by class
//! (writable signers, then read-only signers, then writable non-signers, then
//! read-only non-signers) and, within a class, by first appearance. Every step
//! is a function of the input alone, so compiling is deterministic.

use vstd::prelude::*;

use crate::addr::Addr;
use crate::addr::addr_eq;
use crate::errors::CoreError;

verus! {

/// One account referenced by an instruction, with how it is used.
#[derive(Clone, Copy, PartialEq, Eq, Debug)]
pub struct AccountRef {
    pub key: Addr,
    pub writable: bool,
    pub signer: bool,
}

/// The mathematical form of an account reference.
pub struct AccountRefV {
    pub key: Seq<u8>,
    pub writable: bool,
    pub signer: bool,
}

impl View for AccountRef {
    type V = AccountRefV;

    open spec fn view(&self) -> AccountRefV {
        AccountRefV { key: self.key@, writable: self.writable, signer: self.signer }
    }
}

/// One abstract instruction: the target program, the accounts it touches,
/// and its argument bytes.
#[derive(Clone, PartialEq, Eq, Debug)]
pub struct Instr {
    pub program: Addr,
    pub accounts: Vec<AccountRef>,
    pub data: Vec<u8>,
}

/// The mathematical form of an instruction.
pub struct InstrV {
    pub program: Seq<u8>,
    pub accounts: Seq<AccountRefV>,
    pub data: Seq<u8>,
}

/// The view of one account reference, as a function value.
pub open spec fn ref_view_fn() -> spec_fn(AccountRef) -> AccountRefV {
    |r: AccountRef| r@
}

/// The views of a list of account references.
pub open spec fn refs_view(v: Seq<AccountRef>) -> Seq<AccountRefV> {
    v.map_values(ref_view_fn())
}

impl View for Instr {
    type V = InstrV;

    open spec fn view(&self) -> InstrV {
        InstrV { program: self.program@, accounts: refs_view(self.accounts@), data: self.data@ }
    }
}

/// One compiled instruction: indices into the shared account table plus the
/// unchanged argument bytes.
#[derive(Clone, PartialEq, Eq, Debug)]
pub struct CompiledIx {
    pub program_id_index: u8,
    pub accounts: Vec<u8>,
    pub data: Vec<u8>,
}

/// The mathematical form of a compiled instruction.
pub struct CompiledIxV {
    pub program_id_index: u8,
    pub accounts: Seq<u8>,
    pub data: Seq<u8>,
}

impl View for CompiledIx {
    type V = CompiledIxV;

    open spec fn view(&self) -> CompiledIxV {
        CompiledIxV {
            program_id_index: self.program_id_index,
            accounts: self.accounts@,
            data: self.data@,
        }
    }
}

/// The compiled transaction descriptor: account table, class counts,
/// compiled instructions and the signer seeds the queue signs with.
#[derive(Clone, PartialEq, Eq, Debug)]
pub struct CompiledTx {
    pub num_rw_signers: u8,
    pub num_ro_signers: u8,
    pub num_rw: u8,
    pub accounts: Vec<Addr>,
    pub instructions: Vec<CompiledIx>,
    pub signer_seeds: Vec<Vec<Vec<u8>>>,
}

/// The mathematical form of a compiled transaction descriptor.
pub struct CompiledTxV {
    pub num_rw_signers: u8,
    pub num_ro_signers: u8,
    pub num_rw: u8,
    pub accounts: Seq<Seq<u8>>,
    pub instructions: Seq<CompiledIxV>,
    pub signer_seeds: Seq<Seq<Seq<u8>>>,
}

/// The view of one address, as a function value.
pub open spec fn addr_view_fn() -> spec_fn(Addr) -> Seq<u8> {
    |a: Addr| a@
}

/// The views of a list of addresses.
pub open spec fn addrs_view(v: Seq<Addr>) -> Seq<Seq<u8>> {
    v.map_values(addr_view_fn())
}

/// The view of one compiled instruction, as a function value.
pub open spec fn cix_view_fn() -> spec_fn(CompiledIx) -> CompiledIxV {
    |c: CompiledIx| c@
}

/// The views of a list of compiled instructions.
pub open spec fn cixs_view(v: Seq<CompiledIx>) -> Seq<CompiledIxV> {
    v.map_values(cix_view_fn())
}

/// The view of one byte vector, as a function value.
pub open spec fn bytes_view_fn() -> spec_fn(Vec<u8>) -> Seq<u8> {
    |s: Vec<u8>| s@
}

/// The view of one signer-seed group, as a function value.
pub open spec fn seed_group_fn() -> spec_fn(Vec<Vec<u8>>) -> Seq<Seq<u8>> {
    |g: Vec<Vec<u8>>| g@.map_values(bytes_view_fn())
}

/// The view of nested signer seeds.
pub open spec fn seeds_view(v: Seq<Vec<Vec<u8>>>) -> Seq<Seq<Seq<u8>>> {
    v.map_values(seed_group_fn())
}

impl View for CompiledTx {
    type V = CompiledTxV;

    open spec fn view(&self) -> CompiledTxV {
        CompiledTxV {
            num_rw_signers: self.num_rw_signers,
            num_ro_signers: self.num_ro_signers,
            num_rw: self.num_rw,
            accounts: addrs_view(self.accounts@),
            instructions: cixs_view(self.instructions@),
            signer_seeds: seeds_view(self.signer_seeds@),
        }
    }
}

/// The view of one instruction, as a function value.
pub open spec fn instr_view_fn() -> spec_fn(Instr) -> InstrV {
    |x: Instr| x@
}

/// The views of a list of instructions.
pub open spec fn instrs_view(v: Seq<Instr>) -> Seq<InstrV> {
    v.map_values(instr_view_fn())
}

/// The account references one instruction makes: its target program first
/// (read-only, no signature), then its account list in order.
pub open spec fn refs_of_instr(ix: InstrV) -> Seq<AccountRefV> {
    seq![AccountRefV { key: ix.program, writable: false, signer: false }] + ix.accounts
}

/// Every account reference of the instruction list, in order.
pub open spec fn all_refs(ixs: Seq<InstrV>) -> Seq<AccountRefV>
    decreases ixs.len(),
{
    if ixs.len() == 0 {
        Seq::empty()
    } else {
        all_refs(ixs.drop_last()) + refs_of_instr(ixs.last())
    }
}

/// Whether some reference in `ms` carries the address `key`.
pub open spec fn has_key(ms: Seq<AccountRefV>, key: Seq<u8>) -> bool {
    exists|i: int| 0 <= i < ms.len() && ms[i].key == key
}

/// The first position in `ms` whose reference carries `key`.
pub open spec fn first_key_index(ms: Seq<AccountRefV>, key: Seq<u8>) -> int
    decreases ms.len(),
{
    if ms.len() == 0 {
        0
    } else if ms[0].key == key {
        0
    } else {
        1 + first_key_index(ms.subrange(1, ms.len() as int), key)
    }
}

/// Folds one reference into a table of distinct addresses: an address already
/// present keeps its place and joins the flags; a new one goes to the end.
pub open spec fn upsert_ref(ms: Seq<AccountRefV>, r: AccountRefV) -> Seq<AccountRefV> {
    if has_key(ms, r.key) {
        let i = first_key_index(ms, r.key);
        ms.update(
            i,
            AccountRefV {
                key: r.key,
                writable: ms[i].writable || r.writable,
                signer: ms[i].signer || r.signer,
            },
        )
    } else {
        ms.push(r)
    }
}

/// The table of distinct addresses over a reference list, flags joined, in
/// order of first appearance.
pub open spec fn merge_refs(rs: Seq<AccountRefV>) -> Seq<AccountRefV>
    decreases rs.len(),
{
    if rs.len() == 0 {
        Seq::empty()
    } else {
        upsert_ref(merge_refs(rs.drop_last()), rs.last())
    }
}

/// The ordering class of a reference: writable signers first, read-only
/// signers next, then writable non-signers, then read-only non-signers.
pub open spec fn priority(r: AccountRefV) -> int {
    if r.signer && r.writable {
        0
    } else if r.signer {
        1
    } else if r.writable {
        2
    } else {
        3
    }
}

/// The predicate "has ordering class `p`".
pub open spec fn pri_is(p: int) -> spec_fn(AccountRefV) -> bool {
    |r: AccountRefV| priority(r) == p
}

/// The table ordered by class, keeping first-appearance order within a class.
pub open spec fn sort_refs(ms: Seq<AccountRefV>) -> Seq<AccountRefV> {
    ms.filter(pri_is(0)) + ms.filter(pri_is(1)) + ms.filter(pri_is(2)) + ms.filter(pri_is(3))
}

/// The finished account table of an instruction list.
pub open spec fn account_table(ixs: Seq<InstrV>) -> Seq<AccountRefV> {
    sort_refs(merge_refs(all_refs(ixs)))
}

/// The index an account reference gets against a fixed table, as a function
/// value.
pub open spec fn acc_index_fn(table: Seq<AccountRefV>) -> spec_fn(AccountRefV) -> u8 {
    |r: AccountRefV| first_key_index(table, r.key) as u8
}

/// The address a table entry carries, as a function value.
pub open spec fn key_fn() -> spec_fn(AccountRefV) -> Seq<u8> {
    |r: AccountRefV| r.key
}

/// One instruction compiled against a fixed account table.
pub open spec fn compile_ix_spec(table: Seq<AccountRefV>, ix: InstrV) -> CompiledIxV {
    CompiledIxV {
        program_id_index: first_key_index(table, ix.program) as u8,
        accounts: ix.accounts.map_values(acc_index_fn(table)),
        data: ix.data,
    }
}

/// Compilation of one instruction against a fixed table, as a function value.
pub open spec fn compile_ix_fn(table: Seq<AccountRefV>) -> spec_fn(InstrV) -> CompiledIxV {
    |ix: InstrV| compile_ix_spec(table, ix)
}

/// What compiling an instruction list yields: `None` exactly when the table
/// outgrows the one-byte indices the descriptor uses.
pub open spec fn compile_spec(ixs: Seq<InstrV>, seeds: Seq<Seq<Seq<u8>>>) -> Option<CompiledTxV> {
    let merged = merge_refs(all_refs(ixs));
    let table = sort_refs(merged);
    if merged.len() > 255 {
        None
    } else {
        Some(
            CompiledTxV {
                num_rw_signers: merged.filter(pri_is(0)).len() as u8,
                num_ro_signers: merged.filter(pri_is(1)).len() as u8,
                num_rw: merged.filter(pri_is(2)).len() as u8,
                accounts: table.map_values(key_fn()),
                instructions: ixs.map_values(compile_ix_fn(table)),
                signer_seeds: seeds,
            },
        )
    }
}

/// What a compilation result is allowed to look like for given input: the
/// contract `compile` promises, stated over views.
pub open spec fn compile_post(
    ixs: Seq<InstrV>,
    seeds: Seq<Seq<Seq<u8>>>,
    r: Result<CompiledTxV, CoreError>,
) -> bool {
    &&& (r is Ok) == (compile_spec(ixs, seeds) is Some)
    &&& (r matches Ok(c) ==> Some(c) == compile_spec(ixs, seeds))
    &&& (r matches Err(e) ==> e == CoreError::CompilationError)
}

/// The view of a compilation result.
pub open spec fn compile_result_view(r: Result<CompiledTx, CoreError>) -> Result<
    CompiledTxV,
    CoreError,
> {
    match r {
        Ok(c) => Ok(c@),
        Err(e) => Err(e),
    }
}

/// Compiling is deterministic: two results of compiling identical input are
/// identical — the same verdict, and on success the same descriptor in every
/// part, so its encoding is byte-identical too.
pub proof fn lemma_compile_deterministic(
    ixs: Seq<InstrV>,
    seeds: Seq<Seq<Seq<u8>>>,
    r1: Result<CompiledTxV, CoreError>,
    r2: Result<CompiledTxV, CoreError>,
)
    requires
        compile_post(ixs, seeds, r1),
        compile_post(ixs, seeds, r2),
    ensures
        r1 == r2,
{
}

/// A position that matches `key`, with nothing matching before it, is the
/// first position carrying `key`.
proof fn lemma_first_index(ms: Seq<AccountRefV>, key: Seq<u8>, i: int)
    requires
        0 <= i < ms.len(),
        ms[i].key == key,
        forall|j: int| 0 <= j < i ==> ms[j].key != key,
    ensures
        has_key(ms, key),
        first_key_index(ms, key) == i,
    decreases i,
{
    assert(has_key(ms, key));
    if i == 0 {
    } else {
        assert(ms[0].key != key);
        let tail = ms.subrange(1, ms.len() as int);
        assert(tail[i - 1].key == key);
        assert(forall|j: int| 0 <= j < i - 1 ==> tail[j].key != key);
        lemma_first_index(tail, key, i - 1);
    }
}

/// Folding a reference list into a table neither loses nor invents addresses.
proof fn lemma_merge_has_key(rs: Seq<AccountRefV>, key: Seq<u8>)
    ensures
        has_key(merge_refs(rs), key) <==> has_key(rs, key),
    decreases rs.len(),
{
    if rs.len() == 0 {
    } else {
        let head = rs.drop_last();
        let last = rs.last();
        lemma_merge_has_key(head, key);
        let m = merge_refs(head);
        if has_key(m, last.key) {
            let i = first_key_index(m, last.key);
            lemma_first_index_in_range(m, last.key);
            assert(merge_refs(rs) == m.update(
                i,
                AccountRefV {
                    key: last.key,
                    writable: m[i].writable || last.writable,
                    signer: m[i].signer || last.signer,
                },
            ));
            if has_key(merge_refs(rs), key) {
                let w = choose|w: int|
                    0 <= w < merge_refs(rs).len() && merge_refs(rs)[w].key == key;
                assert(m[w].key == key || key == last.key);
                assert(has_key(rs, key)) by {
                    if key == last.key {
                        assert(rs[rs.len() - 1].key == key);
                    } else {
                        assert(has_key(head, key));
                        let v = choose|v: int| 0 <= v < head.len() && head[v].key == key;
                        assert(rs[v].key == key);
                    }
                }
            }
            if has_key(rs, key) {
                let w = choose|w: int| 0 <= w < rs.len() && rs[w].key == key;
                if w < rs.len() - 1 {
                    assert(head[w].key == key);
                    let v = choose|v: int| 0 <= v < m.len() && m[v].key == key;
                    assert(merge_refs(rs)[v].key == key);
                } else {
                    assert(merge_refs(rs)[i].key == key);
                }
            }
        } else {
            assert(merge_refs(rs) == m.push(last));
            if has_key(merge_refs(rs), key) {
                let w = choose|w: int|
                    0 <= w < merge_refs(rs).len() && merge_refs(rs)[w].key == key;
                if w < m.len() {
                    assert(has_key(m, key));
                    let v = choose|v: int| 0 <= v < head.len() && head[v].key == key;
                    assert(rs[v].key == key);
                } else {
                    assert(rs[rs.len() - 1].key == key);
                }
            }
            if has_key(rs, key) {
                let w = choose|w: int| 0 <= w < rs.len() && rs[w].key == key;
                if w < rs.len() - 1 {
                    assert(head[w].key == key);
                    let v = choose|v: int| 0 <= v < m.len() && m[v].key == key;
                    assert(merge_refs(rs)[v].key == key);
                } else {
                    assert(merge_refs(rs)[m.len() as int].key == key);
                }
            }
        }
    }
}

/// When an address is present, its first position lies inside the table.
proof fn lemma_first_index_in_range(ms: Seq<AccountRefV>, key: Seq<u8>)
    requires
        has_key(ms, key),
    ensures
        0 <= first_key_index(ms, key) < ms.len(),
        ms[first_key_index(ms, key)].key == key,
    decreases ms.len(),
{
    if ms[0].key == key {
    } else {
        let tail = ms.subrange(1, ms.len() as int);
        let w = choose|w: int| 0 <= w < ms.len() && ms[w].key == key;
        assert(tail[w - 1].key == key);
        lemma_first_index_in_range(tail, key);
    }
}

/// The four ordering classes partition the table: sorting keeps its length.
proof fn lemma_sort_len(ms: Seq<AccountRefV>)
    ensures
        sort_refs(ms).len() == ms.len(),
        ms.filter(pri_is(0)).len() + ms.filter(pri_is(1)).len() + ms.filter(pri_is(2)).len()
            + ms.filter(pri_is(3)).len() == ms.len(),
    decreases ms.len(),
{
    reveal(Seq::filter);
    if ms.len() == 0 {
    } else {
        lemma_sort_len(ms.drop_last());
        let last = ms.last();
        assert(pri_is(priority(last))(last));
    }
}

/// Sorting the table keeps exactly the addresses it had.
proof fn lemma_sort_has_key(ms: Seq<AccountRefV>, key: Seq<u8>)
    ensures
        has_key(sort_refs(ms), key) <==> has_key(ms, key),
{
    let s = sort_refs(ms);
    if has_key(ms, key) {
        let w = choose|w: int| 0 <= w < ms.len() && ms[w].key == key;
        let p = priority(ms[w]);
        assert(pri_is(p)(ms[w]));
        ms.lemma_filter_contains(pri_is(p), w);
        let part = ms.filter(pri_is(p));
        let v = choose|v: int| 0 <= v < part.len() && part[v] == ms[w];
        let off: int = if p == 0 {
            0
        } else if p == 1 {
            ms.filter(pri_is(0)).len() as int
        } else if p == 2 {
            ms.filter(pri_is(0)).len() + ms.filter(pri_is(1)).len() as int
        } else {
            ms.filter(pri_is(0)).len() + ms.filter(pri_is(1)).len() + ms.filter(
                pri_is(2),
            ).len() as int
        };
        assert(s[off + v].key == key);
    }
    if has_key(s, key) {
        let w = choose|w: int| 0 <= w < s.len() && s[w].key == key;
        let f0 = ms.filter(pri_is(0));
        let f1 = ms.filter(pri_is(1));
        let f2 = ms.filter(pri_is(2));
        let f3 = ms.filter(pri_is(3));
        let x = s[w];
        assert(f0.contains(x) || f1.contains(x) || f2.contains(x) || f3.contains(x)) by {
            if w < f0.len() {
                assert(f0[w] == x);
            } else if w < f0.len() + f1.len() {
                assert(f1[w - f0.len()] == x);
            } else if w < f0.len() + f1.len() + f2.len() {
                assert(f2[w - f0.len() - f1.len()] == x);
            } else {
                assert(f3[w - f0.len() - f1.len() - f2.len()] == x);
            }
        }
        lemma_filter_member(ms, 0, x);
        lemma_filter_member(ms, 1, x);
        lemma_filter_member(ms, 2, x);
        lemma_filter_member(ms, 3, x);
    }
}

/// A reference made by some instruction of the list appears among the list's
/// references.
proof fn lemma_all_refs_contains(ixs: Seq<InstrV>, i: int, r: AccountRefV)
    requires
        0 <= i < ixs.len(),
        refs_of_instr(ixs[i]).contains(r),
    ensures
        all_refs(ixs).contains(r),
    decreases ixs.len(),
{
    let w = choose|w: int| 0 <= w < refs_of_instr(ixs[i]).len() && refs_of_instr(ixs[i])[w] == r;
    if i == ixs.len() - 1 {
        assert(all_refs(ixs)[all_refs(ixs.drop_last()).len() + w] == r);
    } else {
        assert(ixs.drop_last()[i] == ixs[i]);
        lemma_all_refs_contains(ixs.drop_last(), i, r);
        let v = choose|v: int|
            0 <= v < all_refs(ixs.drop_last()).len() && all_refs(ixs.drop_last())[v] == r;
        assert(all_refs(ixs)[v] == r);
    }
}

/// A member of a class's part of the table is a member of the table.
proof fn lemma_filter_member(ms: Seq<AccountRefV>, p: int, x: AccountRefV)
    ensures
        ms.filter(pri_is(p)).contains(x) ==> has_key(ms, x.key),
    decreases ms.len(),
{
    reveal(Seq::filter);
    if ms.len() == 0 {
    } else {
        lemma_filter_member(ms.drop_last(), p, x);
        if ms.filter(pri_is(p)).contains(x) {
            let part = ms.filter(pri_is(p));
            if pri_is(p)(ms.last()) && part.last() == x {
                assert(ms[ms.len() - 1].key == x.key);
            } else {
                assert(ms.drop_last().filter(pri_is(p)).contains(x)) by {
                    let w = choose|w: int| 0 <= w < part.len() && part[w] == x;
                    if pri_is(p)(ms.last()) {
                        assert(part == ms.drop_last().filter(pri_is(p)).push(ms.last()));
                        assert(w < part.len() - 1);
                    }
                }
                let v = choose|v: int|
                    0 <= v < ms.drop_last().len() && ms.drop_last()[v].key == x.key;
                assert(ms[v].key == x.key);
            }
        }
    }
}

/// Mapping a view over a sequence commutes with appending one element.
proof fn lemma_map_push<A, B>(s: Seq<A>, f: spec_fn(A) -> B, x: A)
    ensures
        s.push(x).map_values(f) == s.map_values(f).push(f(x)),
{
    assert(s.push(x).map_values(f) =~= s.map_values(f).push(f(x)));
}

/// Mapping a view over a sequence commutes with updating one element.
proof fn lemma_map_update<A, B>(s: Seq<A>, f: spec_fn(A) -> B, i: int, x: A)
    requires
        0 <= i < s.len(),
    ensures
        s.update(i, x).map_values(f) == s.map_values(f).update(i, f(x)),
{
    assert(s.update(i, x).map_values(f) =~= s.map_values(f).update(i, f(x)));
}

/// Mapping over one more element of a prefix appends that element's image.
proof fn lemma_map_take_step<A, B>(s: Seq<A>, f: spec_fn(A) -> B, n: int)
    requires
        0 <= n < s.len(),
    ensures
        s.take(n + 1).map_values(f) == s.take(n).map_values(f).push(f(s[n])),
{
    assert(s.take(n + 1).map_values(f) =~= s.take(n).map_values(f).push(f(s[n])));
}

/// Finds the first position of `key` in `table`, if the address is there.
fn find_key_index(table: &Vec<AccountRef>, key: &Addr) -> (r: Option<usize>)
    ensures
        match r {
            Some(i) => i < table@.len() && has_key(refs_view(table@), key@) && first_key_index(
                refs_view(table@),
                key@,
            ) == i as int,
            None => !has_key(refs_view(table@), key@),
        },
{
    let mut i: usize = 0;
    while i < table.len()
        invariant
            i <= table@.len(),
            forall|j: int| 0 <= j < i ==> refs_view(table@)[j].key != key@,
        decreases table@.len() - i,
    {
        let t = table[i];
        if addr_eq(&t.key, key) {
            proof {
                lemma_first_index(refs_view(table@), key@, i as int);
            }
            return Some(i);
        }
        i += 1;
    }
    None
}

/// The ordering class of a reference, as the descriptor orders its table.
fn priority_of(r: &AccountRef) -> (p: u8)
    ensures
        p as int == priority(r@),
{
    if r.signer && r.writable {
        0
    } else if r.signer {
        1
    } else if r.writable {
        2
    } else {
        3
    }
}

/// Copies the bytes of `src` into a fresh vector.
fn copy_bytes(src: &Vec<u8>) -> (r: Vec<u8>)
    ensures
        r@ == src@,
{
    let mut out: Vec<u8> = Vec::new();
    crate::ixdata::push_bytes(&mut out, src.as_slice());
    proof {
        assert(out@ =~= src@);
    }
    out
}

/// Compiles an ordered instruction list, plus the signer seeds the queue is
/// to sign with, into a replayable transaction descriptor.
///
/// The result is a function of the arguments alone: identical input yields an
/// identical descriptor. Compilation refuses, with `CompilationError`, exactly
/// when the instructions reference more than 255 distinct addresses, the most
/// the descriptor's one-byte indices can name.
pub fn compile(ixs: &Vec<Instr>, signer_seeds: Vec<Vec<Vec<u8>>>) -> (r: Result<
    CompiledTx,
    CoreError,
>)
    ensures
        (r is Ok) == (compile_spec(instrs_view(ixs@), seeds_view(signer_seeds@)) is Some),
        r matches Ok(c) ==> Some(c@) == compile_spec(instrs_view(ixs@), seeds_view(signer_seeds@)),
        r matches Err(e) ==> e == CoreError::CompilationError,
        compile_post(instrs_view(ixs@), seeds_view(signer_seeds@), compile_result_view(r)),
{
    let ghost iv = instrs_view(ixs@);
    let ghost sv = seeds_view(signer_seeds@);

    // Every reference the instructions make, in order.
    let mut flat: Vec<AccountRef> = Vec::new();
    let mut i: usize = 0;
    while i < ixs.len()
        invariant
            i <= ixs@.len(),
            iv == instrs_view(ixs@),
            refs_view(flat@) == all_refs(iv.take(i as int)),
        decreases ixs@.len() - i,
    {
        let ix = &ixs[i];
        let ghost f0 = flat@;
        flat.push(AccountRef { key: ix.program, writable: false, signer: false });
        proof {
            lemma_map_push(
                f0,
                ref_view_fn(),
                AccountRef { key: ix.program, writable: false, signer: false },
            );
            assert(iv[i as int] == ixs@[i as int]@);
            assert(refs_view(flat@) =~= all_refs(iv.take(i as int)) + refs_of_instr(
                iv[i as int],
            ).take(1));
        }
        let mut j: usize = 0;
        while j < ix.accounts.len()
            invariant
                j <= ix.accounts@.len(),
                i < ixs@.len(),
                iv == instrs_view(ixs@),
                ix == &ixs[i as int],
                refs_view(flat@) == all_refs(iv.take(i as int)) + refs_of_instr(iv[i as int]).take(
                    1 + j as int,
                ),
            decreases ix.accounts@.len() - j,
        {
            let ghost f1 = flat@;
            flat.push(ix.accounts[j]);
            proof {
                lemma_map_push(f1, ref_view_fn(), ix.accounts@[j as int]);
                assert(iv[i as int].accounts[j as int] == ix.accounts@[j as int]@);
                assert(refs_of_instr(iv[i as int])[1 + j as int] == iv[i as int].accounts[j as int]);
                assert(refs_view(flat@) =~= all_refs(iv.take(i as int)) + refs_of_instr(
                    iv[i as int],
                ).take(1 + j as int + 1));
            }
            j += 1;
        }
        proof {
            assert(refs_of_instr(iv[i as int]).take(1 + ix.accounts@.len() as int)
                =~= refs_of_instr(iv[i as int]));
            let t1 = iv.take(i as int + 1);
            assert(t1.drop_last() =~= iv.take(i as int));
            assert(t1.last() == iv[i as int]);
            assert(all_refs(t1) == all_refs(iv.take(i as int)) + refs_of_instr(iv[i as int]));
        }
        i += 1;
    }
    proof {
        assert(iv.take(iv.len() as int) =~= iv);
    }

    // The table of distinct addresses, flags joined, first appearance first.
    let mut table: Vec<AccountRef> = Vec::new();
    let mut k: usize = 0;
    while k < flat.len()
        invariant
            k <= flat@.len(),
            refs_view(table@) == merge_refs(refs_view(flat@).take(k as int)),
        decreases flat@.len() - k,
    {
        let r = flat[k];
        let ghost t0 = table@;
        let ghost pre = refs_view(table@);
        let ghost rv = refs_view(flat@)[k as int];
        proof {
            assert(rv == flat@[k as int]@);
        }
        match find_key_index(&table, &r.key) {
            Some(idx) => {
                let cur = table[idx];
                let joined = AccountRef {
                    key: cur.key,
                    writable: cur.writable || r.writable,
                    signer: cur.signer || r.signer,
                };
                table[idx] = joined;
                proof {
                    lemma_first_index_in_range(pre, r.key@);
                    lemma_map_update(t0, ref_view_fn(), idx as int, joined);
                    assert(pre[idx as int] == t0[idx as int]@);
                    assert(joined@ == AccountRefV {
                        key: rv.key,
                        writable: pre[idx as int].writable || rv.writable,
                        signer: pre[idx as int].signer || rv.signer,
                    });
                    assert(refs_view(table@) == upsert_ref(pre, rv));
                }
            },
            None => {
                table.push(r);
                proof {
                    lemma_map_push(t0, ref_view_fn(), r);
                    assert(refs_view(table@) == upsert_ref(pre, rv));
                }
            },
        }
        proof {
            let fv = refs_view(flat@);
            assert(fv.take(k as int + 1).drop_last() =~= fv.take(k as int));
            assert(fv.take(k as int + 1).last() == fv[k as int]);
        }
        k += 1;
    }
    proof {
        assert(refs_view(flat@).take(flat@.len() as int) =~= refs_view(flat@));
    }
    let ghost merged = merge_refs(all_refs(iv));
    proof {
        assert(refs_view(table@) == merged);
    }

    if table.len() > 255 {
        return Err(CoreError::CompilationError);
    }

    // Order the table by class, first appearance first within a class.
    let mut parts0: Vec<AccountRef> = Vec::new();
    let mut parts1: Vec<AccountRef> = Vec::new();
    let mut parts2: Vec<AccountRef> = Vec::new();
    let mut parts3: Vec<AccountRef> = Vec::new();
    let mut k: usize = 0;
    while k < table.len()
        invariant
            k <= table@.len(),
            refs_view(table@) == merged,
            refs_view(parts0@) == merged.take(k as int).filter(pri_is(0)),
            refs_view(parts1@) == merged.take(k as int).filter(pri_is(1)),
            refs_view(parts2@) == merged.take(k as int).filter(pri_is(2)),
            refs_view(parts3@) == merged.take(k as int).filter(pri_is(3)),
        decreases table@.len() - k,
    {
        let r = table[k];
        let ghost q0 = parts0@;
        let ghost q1 = parts1@;
        let ghost q2 = parts2@;
        let ghost q3 = parts3@;
        let p = priority_of(&r);
        if p == 0 {
            parts0.push(r);
        } else if p == 1 {
            parts1.push(r);
        } else if p == 2 {
            parts2.push(r);
        } else {
            parts3.push(r);
        }
        proof {
            reveal(Seq::filter);
            assert(r@ == merged[k as int]) by {
                assert(refs_view(table@)[k as int] == table@[k as int]@);
            }
            let t1 = merged.take(k as int + 1);
            assert(t1.drop_last() =~= merged.take(k as int));
            assert(t1.last() == merged[k as int]);
            assert(t1.filter(pri_is(0)) == if pri_is(0)(merged[k as int]) {
                merged.take(k as int).filter(pri_is(0)).push(merged[k as int])
            } else {
                merged.take(k as int).filter(pri_is(0))
            });
            assert(t1.filter(pri_is(1)) == if pri_is(1)(merged[k as int]) {
                merged.take(k as int).filter(pri_is(1)).push(merged[k as int])
            } else {
                merged.take(k as int).filter(pri_is(1))
            });
            assert(t1.filter(pri_is(2)) == if pri_is(2)(merged[k as int]) {
                merged.take(k as int).filter(pri_is(2)).push(merged[k as int])
            } else {
                merged.take(k as int).filter(pri_is(2))
            });
            assert(t1.filter(pri_is(3)) == if pri_is(3)(merged[k as int]) {
                merged.take(k as int).filter(pri_is(3)).push(merged[k as int])
            } else {
                merged.take(k as int).filter(pri_is(3))
            });
            if p == 0 {
                lemma_map_push(q0, ref_view_fn(), r);
            } else if p == 1 {
                lemma_map_push(q1, ref_view_fn(), r);
            } else if p == 2 {
                lemma_map_push(q2, ref_view_fn(), r);
            } else {
                lemma_map_push(q3, ref_view_fn(), r);
            }
        }
        k += 1;
    }
    proof {
        assert(merged.take(merged.len() as int) =~= merged);
        lemma_sort_len(merged);
    }
    let n0 = parts0.len();
    let n1 = parts1.len();
    let n2 = parts2.len();
    let mut sorted: Vec<AccountRef> = parts0;
    sorted.append(&mut parts1);
    sorted.append(&mut parts2);
    sorted.append(&mut parts3);
    let ghost tablev = sort_refs(merged);
    proof {
        assert(refs_view(sorted@) =~= tablev);
        assert(tablev.len() == merged.len());
    }

    // The table as the descriptor carries it: addresses only.
    let mut accounts: Vec<Addr> = Vec::new();
    let mut k: usize = 0;
    while k < sorted.len()
        invariant
            k <= sorted@.len(),
            refs_view(sorted@) == tablev,
            addrs_view(accounts@) == tablev.take(k as int).map_values(key_fn()),
        decreases sorted@.len() - k,
    {
        let r = sorted[k];
        let ghost a0 = accounts@;
        accounts.push(r.key);
        proof {
            assert(r@ == tablev[k as int]) by {
                assert(refs_view(sorted@)[k as int] == sorted@[k as int]@);
            }
            lemma_map_push(a0, addr_view_fn(), r.key);
            lemma_map_take_step(tablev, key_fn(), k as int);
        }
        k += 1;
    }
    proof {
        assert(tablev.take(tablev.len() as int) =~= tablev);
    }

    // Each instruction, rewritten over indices into the table.
    let mut cixs: Vec<CompiledIx> = Vec::new();
    let mut i: usize = 0;
    while i < ixs.len()
        invariant
            i <= ixs@.len(),
            iv == instrs_view(ixs@),
            refs_view(sorted@) == tablev,
            tablev == sort_refs(merged),
            merged == merge_refs(all_refs(iv)),
            tablev.len() <= 255,
            cixs_view(cixs@) == iv.take(i as int).map_values(compile_ix_fn(tablev)),
        decreases ixs@.len() - i,
    {
        let ix = &ixs[i];
        proof {
            assert(refs_of_instr(iv[i as int])[0].key == iv[i as int].program);
            lemma_all_refs_contains(iv, i as int, refs_of_instr(iv[i as int])[0]);
            lemma_merge_has_key(all_refs(iv), iv[i as int].program);
            lemma_sort_has_key(merged, iv[i as int].program);
        }
        let pidx = match find_key_index(&sorted, &ix.program) {
            Some(p) => p,
            None => {
                proof {
                    assert(false);
                }
                return Err(CoreError::CompilationError);
            },
        };
        let mut accs: Vec<u8> = Vec::new();
        let mut j: usize = 0;
        while j < ix.accounts.len()
            invariant
                j <= ix.accounts@.len(),
                i < ixs@.len(),
                iv == instrs_view(ixs@),
                ix == &ixs[i as int],
                refs_view(sorted@) == tablev,
                tablev == sort_refs(merged),
                merged == merge_refs(all_refs(iv)),
                tablev.len() <= 255,
                accs@ == iv[i as int].accounts.take(j as int).map_values(acc_index_fn(tablev)),
            decreases ix.accounts@.len() - j,
        {
            let a = ix.accounts[j];
            proof {
                assert(refs_of_instr(iv[i as int])[1 + j as int] == iv[i as int].accounts[j as int]);
                lemma_all_refs_contains(iv, i as int, iv[i as int].accounts[j as int]);
                lemma_merge_has_key(all_refs(iv), iv[i as int].accounts[j as int].key);
                lemma_sort_has_key(merged, iv[i as int].accounts[j as int].key);
            }
            let aidx = match find_key_index(&sorted, &a.key) {
                Some(p) => p,
                None => {
                    proof {
                        assert(false);
                    }
                    return Err(CoreError::CompilationError);
                },
            };
            accs.push(aidx as u8);
            proof {
                lemma_map_take_step(iv[i as int].accounts, acc_index_fn(tablev), j as int);
                assert(acc_index_fn(tablev)(iv[i as int].accounts[j as int]) == aidx as u8);
            }
            j += 1;
        }
        proof {
            assert(iv[i as int].accounts.take(iv[i as int].accounts.len() as int)
                =~= iv[i as int].accounts);
        }
        let data = copy_bytes(&ix.data);
        let ghost c0 = cixs@;
        cixs.push(CompiledIx { program_id_index: pidx as u8, accounts: accs, data });
        proof {
            lemma_map_push(c0, cix_view_fn(), cixs@.last());
            lemma_map_take_step(iv, compile_ix_fn(tablev), i as int);
            assert(cixs@.last()@ == compile_ix_spec(tablev, iv[i as int]));
        }
        i += 1;
    }
    proof {
        assert(iv.take(iv.len() as int) =~= iv);
    }

    let out = CompiledTx {
        num_rw_signers: n0 as u8,
        num_ro_signers: n1 as u8,
        num_rw: n2 as u8,
        accounts,
        instructions: cixs,
        signer_seeds,
    };
    proof {
        assert(out@.accounts == tablev.map_values(key_fn()));
        assert(out@.instructions == iv.map_values(compile_ix_fn(tablev)));
        assert(out@.signer_seeds == sv);
        assert(compile_spec(iv, sv) == Some(out@));
    }
    Ok(out)
}

} // verus!
