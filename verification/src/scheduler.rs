//! The task scheduler adapter: builds the deferred "interact" instruction,
//! compiles it, and shapes the submission the queue service receives, signed
//! by the deterministic queue-authority capability.

use vstd::prelude::*;
use vstd::utf8::encode_utf8;

use crate::addr::Addr;
use crate::addr::ORACLE_PROGRAM_ID;
use crate::addr::PROGRAM_ID;
use crate::addr::QUEUE_AUTHORITY_SEED;
use crate::addr::SYSTEM_PROGRAM_ID;
use crate::addr::addr_eq;
use crate::addr::oracle_program_id;
use crate::addr::program_id;
use crate::addr::system_program_id;
use crate::compiler::AccountRef;
use crate::compiler::AccountRefV;
use crate::compiler::CompiledTx;
use crate::compiler::Instr;
use crate::compiler::InstrV;
use crate::compiler::bytes_view_fn;
use crate::compiler::compile;
use crate::compiler::compile_spec;
use crate::compiler::instrs_view;
use crate::compiler::refs_view;
use crate::compiler::seeds_view;
use crate::errors::CoreError;
use crate::ixdata::encode_interact_data;
use crate::ixdata::interact_ix_data;
use crate::ixdata::push_bytes;
use crate::registry::Agent;

verus! {

/// The reward paid for cranking one scheduled task.
pub const CRANK_REWARD: u64 = 5_000_000;

/// Trigger condition for a queued task: this core only ever schedules for
/// immediate execution.
#[derive(Clone, Copy, PartialEq, Eq, Structural, Debug)]
pub enum TaskTrigger {
    Immediate,
}

/// The deterministic signing capability for the queue: the address derived
/// from the fixed domain tag under this program, and its proof byte.
#[derive(Clone, Copy, PartialEq, Eq, Debug)]
pub struct QueueAuthority {
    pub address: Addr,
    pub bump: u8,
}

/// Everything this core hands the queue service for one deferred task.
#[derive(PartialEq, Eq, Debug)]
pub struct TaskDescriptor {
    pub id: u16,
    pub trigger: TaskTrigger,
    pub transaction: CompiledTx,
    pub crank_reward: u64,
    pub free_task_slots: u8,
    pub description: String,
}

/// A queue submission: the descriptor together with the recomputed signing
/// capability that authorizes it.
#[derive(PartialEq, Eq, Debug)]
pub struct QueueSubmission {
    pub authority: QueueAuthority,
    pub descriptor: TaskDescriptor,
}

/// The views of a list of seed byte strings.
pub open spec fn seed_list_view(v: Seq<Vec<u8>>) -> Seq<Seq<u8>> {
    v.map_values(bytes_view_fn())
}

/// What deriving a program address yields for given seeds under a given
/// owning program: the outside derivation is a function of those arguments
/// alone, the same in every process.
pub uninterp spec fn derived_address(seeds: Seq<Seq<u8>>, owner: Seq<u8>) -> Option<(Seq<u8>, u8)>;

/// Relies on `Pubkey::try_find_program_address` of the ledger runtime: a
/// deterministic, hash-based derivation of an address and proof byte from
/// the seeds and the owning program's identity, `None` when no proof byte
/// yields a valid address.
#[verifier::external_body]
fn find_program_address(seeds: &Vec<Vec<u8>>, owner: &Addr) -> (r: Option<(Addr, u8)>)
    ensures
        match r {
            Some(p) => derived_address(seed_list_view(seeds@), owner@) == Some((p.0@, p.1)),
            None => derived_address(seed_list_view(seeds@), owner@) is None,
        },
{
    let seed_slices: Vec<&[u8]> = seeds.iter().map(|s| s.as_slice()).collect();
    let owner_key = anchor_lang::prelude::Pubkey::new_from_array(owner.0);
    anchor_lang::prelude::Pubkey::try_find_program_address(&seed_slices, &owner_key).map(
        |(k, b)| (Addr(k.to_bytes()), b),
    )
}

/// The seeds the queue authority is derived from.
pub open spec fn queue_authority_seeds() -> Seq<Seq<u8>> {
    seq![QUEUE_AUTHORITY_SEED@]
}

/// Recomputes the queue-authority capability from the fixed domain tag; no
/// secret is stored anywhere. `None` only when the derivation has no valid
/// proof byte for this program.
pub fn derive_queue_authority() -> (r: Option<QueueAuthority>)
    ensures
        match r {
            Some(q) => derived_address(queue_authority_seeds(), PROGRAM_ID@) == Some(
                (q.address@, q.bump),
            ),
            None => derived_address(queue_authority_seeds(), PROGRAM_ID@) is None,
        },
{
    let mut seed: Vec<u8> = Vec::new();
    let tag: [u8; 15] = QUEUE_AUTHORITY_SEED;
    push_bytes(&mut seed, tag.as_slice());
    let mut seeds: Vec<Vec<u8>> = Vec::new();
    seeds.push(seed);
    proof {
        assert(seed_list_view(seeds@) =~= queue_authority_seeds());
    }
    match find_program_address(&seeds, &program_id()) {
        Some((address, bump)) => Some(QueueAuthority { address, bump }),
        None => None,
    }
}

/// The one instruction a scheduled task replays: interact with the oracle
/// using the text, addressed to this program, touching exactly the payer,
/// the interaction slot, the agent, the context, the oracle service and the
/// system allocator.
pub open spec fn interact_instr_spec(
    payer: Seq<u8>,
    interaction: Seq<u8>,
    agent_addr: Seq<u8>,
    context: Seq<u8>,
    text: Seq<char>,
) -> InstrV {
    InstrV {
        program: PROGRAM_ID@,
        accounts: seq![
            AccountRefV { key: payer, writable: true, signer: false },
            AccountRefV { key: interaction, writable: true, signer: false },
            AccountRefV { key: agent_addr, writable: false, signer: false },
            AccountRefV { key: context, writable: false, signer: false },
            AccountRefV { key: ORACLE_PROGRAM_ID@, writable: false, signer: false },
            AccountRefV { key: SYSTEM_PROGRAM_ID@, writable: false, signer: false },
        ],
        data: interact_ix_data(text),
    }
}

/// Builds the deferred "interact" instruction for the given accounts and
/// text.
pub fn build_interact_instruction(
    payer: &Addr,
    interaction: &Addr,
    agent_addr: &Addr,
    context: &Addr,
    text: &str,
) -> (ix: Instr)
    requires
        encode_utf8(text@).len() <= u32::MAX,
    ensures
        ix@ == interact_instr_spec(payer@, interaction@, agent_addr@, context@, text@),
{
    let mut accounts: Vec<AccountRef> = Vec::new();
    accounts.push(AccountRef { key: *payer, writable: true, signer: false });
    accounts.push(AccountRef { key: *interaction, writable: true, signer: false });
    accounts.push(AccountRef { key: *agent_addr, writable: false, signer: false });
    accounts.push(AccountRef { key: *context, writable: false, signer: false });
    accounts.push(AccountRef { key: oracle_program_id(), writable: false, signer: false });
    accounts.push(AccountRef { key: system_program_id(), writable: false, signer: false });
    let data = encode_interact_data(text);
    let ix = Instr { program: program_id(), accounts, data };
    proof {
        assert(refs_view(ix.accounts@) =~= interact_instr_spec(
            payer@,
            interaction@,
            agent_addr@,
            context@,
            text@,
        ).accounts);
    }
    ix
}

/// The human-readable description a scheduled task carries.
pub open spec fn task_description() -> Seq<char> {
    "interact_with_llm"@
}

/// What `schedule` does. On success the submission holds: the caller's task
/// identifier; an immediate trigger; the compiled one-instruction
/// transaction that replays `interact_agent` with the text; the fixed crank
/// reward; no free task slots; the fixed description; and the recomputed
/// queue-authority capability. A context other than the agent's refuses with
/// `ContextMismatch` before anything else; text whose encoding outgrows the
/// descriptor or an overfull account table refuses with `CompilationError`;
/// a failed authority derivation refuses with `DelegatedCallFailure`.
pub open spec fn schedule_post(
    agent: Agent,
    context_account: Addr,
    payer: Addr,
    interaction: Addr,
    agent_addr: Addr,
    task_id: u16,
    text: Seq<char>,
    r: Result<QueueSubmission, CoreError>,
) -> bool {
    let fits = encode_utf8(text).len() <= u32::MAX;
    let ix = interact_instr_spec(payer@, interaction@, agent_addr@, context_account@, text);
    let compiled = compile_spec(seq![ix], Seq::empty());
    let authority = derived_address(queue_authority_seeds(), PROGRAM_ID@);
    &&& (r is Ok <==> context_account@ == agent.context@ && fits && compiled is Some
        && authority is Some)
    &&& match r {
        Ok(s) => {
            &&& s.descriptor.id == task_id
            &&& s.descriptor.trigger == TaskTrigger::Immediate
            &&& Some(s.descriptor.transaction@) == compiled
            &&& s.descriptor.crank_reward == CRANK_REWARD
            &&& s.descriptor.free_task_slots == 0
            &&& s.descriptor.description@ == task_description()
            &&& Some((s.authority.address@, s.authority.bump)) == authority
        },
        Err(e) => {
            if context_account@ != agent.context@ {
                e == CoreError::ContextMismatch
            } else if !fits || compiled is None {
                e == CoreError::CompilationError
            } else {
                e == CoreError::DelegatedCallFailure && authority is None
            }
        },
    }
}

/// `schedule`: defers one oracle interaction. Builds the single "interact"
/// instruction for the text, compiles it into a replayable descriptor with
/// no signer seeds beyond the payer's own signature, recomputes the
/// queue-authority capability, and returns the submission the queue service
/// is to take; execution happens later, outside this call's control.
pub fn schedule(
    agent: &Agent,
    context_account: Addr,
    payer: Addr,
    interaction: Addr,
    agent_addr: Addr,
    task_id: u16,
    text: &str,
) -> (r: Result<QueueSubmission, CoreError>)
    ensures
        schedule_post(
            *agent,
            context_account,
            payer,
            interaction,
            agent_addr,
            task_id,
            text@,
            r,
        ),
{
    if !addr_eq(&context_account, &agent.context) {
        return Err(CoreError::ContextMismatch);
    }
    let bs: &[u8] = text.as_bytes();
    if bs.len() as u64 > u32::MAX as u64 {
        return Err(CoreError::CompilationError);
    }
    let ix = build_interact_instruction(&payer, &interaction, &agent_addr, &context_account, text);
    let mut ixs: Vec<Instr> = Vec::new();
    ixs.push(ix);
    let seeds: Vec<Vec<Vec<u8>>> = Vec::new();
    proof {
        assert(instrs_view(ixs@) =~= seq![
            interact_instr_spec(payer@, interaction@, agent_addr@, context_account@, text@),
        ]);
        assert(seeds_view(seeds@) =~= Seq::<Seq<Seq<u8>>>::empty());
    }
    let transaction = match compile(&ixs, seeds) {
        Ok(t) => t,
        Err(_) => {
            return Err(CoreError::CompilationError);
        },
    };
    let authority = match derive_queue_authority() {
        Some(a) => a,
        None => {
            return Err(CoreError::DelegatedCallFailure);
        },
    };
    let descriptor = TaskDescriptor {
        id: task_id,
        trigger: TaskTrigger::Immediate,
        transaction,
        crank_reward: CRANK_REWARD,
        free_task_slots: 0,
        description: "interact_with_llm".to_owned(),
    };
    Ok(QueueSubmission { authority, descriptor })
}

} // verus!
