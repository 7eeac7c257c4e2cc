use scheduled_gpt_oracle::addr::Addr;
use scheduled_gpt_oracle::addr::ORACLE_PROGRAM_ID;
use scheduled_gpt_oracle::addr::PROGRAM_ID;
use scheduled_gpt_oracle::addr::SYSTEM_PROGRAM_ID;
use scheduled_gpt_oracle::callback::CallerIdentity;
use scheduled_gpt_oracle::callback::callback_from_agent;
use scheduled_gpt_oracle::compiler::AccountRef;
use scheduled_gpt_oracle::compiler::Instr;
use scheduled_gpt_oracle::compiler::compile;
use scheduled_gpt_oracle::errors::CoreError;
use scheduled_gpt_oracle::callback::InteractionState;
use scheduled_gpt_oracle::callback::interaction_after_callback;
use scheduled_gpt_oracle::callback::submit_interaction;
use scheduled_gpt_oracle::interact::interact_agent;
use scheduled_gpt_oracle::ixdata::CALLBACK_FROM_AGENT_TAG;
use scheduled_gpt_oracle::ixdata::INTERACT_AGENT_TAG;
use scheduled_gpt_oracle::ixdata::encode_interact_data;
use scheduled_gpt_oracle::queue::TaskQueue;
use scheduled_gpt_oracle::registry::Registry;
use scheduled_gpt_oracle::scheduler::CRANK_REWARD;
use scheduled_gpt_oracle::scheduler::TaskTrigger;
use scheduled_gpt_oracle::scheduler::build_interact_instruction;
use scheduled_gpt_oracle::scheduler::schedule;

fn addr(tag: u8) -> Addr {
    let mut b = [0u8; 32];
    b[0] = tag;
    b[31] = tag.wrapping_add(1);
    Addr(b)
}

#[test]
fn initialize_creates_exactly_one_agent() {
    let mut reg = Registry::new();
    assert!(!reg.is_initialized());
    let ctx = addr(7);
    let req = reg.initialize(addr(1), ctx).expect("first initialization succeeds");
    assert_eq!(req.payer, addr(1));
    assert_eq!(req.context_account, ctx);
    assert_eq!(req.description, "You are a helpful assistant.");
    assert!(reg.is_initialized());
    assert_eq!(reg.agent().unwrap().context, ctx);

    let second = reg.initialize(addr(2), addr(8));
    assert_eq!(second.unwrap_err(), CoreError::AlreadyInitialized);
    // The failed attempt changed nothing.
    assert_eq!(reg.agent().unwrap().context, ctx);
}

#[test]
fn interact_forwards_to_the_agents_context() {
    let mut reg = Registry::new();
    let ctx = addr(7);
    reg.initialize(addr(1), ctx).unwrap();
    let agent = *reg.agent().unwrap();

    let q = interact_agent(&agent, ctx, addr(1), addr(9), String::from("what time is it"))
        .expect("matching context is accepted");
    assert_eq!(q.context_account, ctx);
    assert_eq!(q.payer, addr(1));
    assert_eq!(q.interaction, addr(9));
    assert_eq!(q.text, "what time is it");
    assert_eq!(q.callback_program, Addr(PROGRAM_ID));
    assert_eq!(q.callback_tag, CALLBACK_FROM_AGENT_TAG);
}

#[test]
fn interact_forwards_the_empty_string() {
    let agent = scheduled_gpt_oracle::registry::Agent { context: addr(7) };
    let q = interact_agent(&agent, addr(7), addr(1), addr(9), String::new()).unwrap();
    assert_eq!(q.text, "");
}

#[test]
fn interact_refuses_a_mismatched_context() {
    let agent = scheduled_gpt_oracle::registry::Agent { context: addr(7) };
    let r = interact_agent(&agent, addr(8), addr(1), addr(9), String::from("hello"));
    assert_eq!(r.unwrap_err(), CoreError::ContextMismatch);
}

#[test]
fn callback_accepts_a_verified_signer() {
    let identity = CallerIdentity { key: addr(3), is_signer: true };
    let r = callback_from_agent(&identity, String::from("the answer"));
    assert_eq!(r.unwrap(), "the answer");
}

#[test]
fn callback_refuses_an_unverified_caller() {
    let identity = CallerIdentity { key: addr(3), is_signer: false };
    for text in ["", "the answer", "anything at all"] {
        let r = callback_from_agent(&identity, String::from(text));
        assert_eq!(r.unwrap_err(), CoreError::AuthorizationError);
    }
}

#[test]
fn an_interaction_completes_only_through_an_accepted_callback() {
    let pending = submit_interaction(InteractionState::Created);
    assert_eq!(pending, InteractionState::PendingOracleResponse);

    let refused = callback_from_agent(
        &CallerIdentity { key: addr(3), is_signer: false },
        String::from("spoofed"),
    );
    let still_pending = interaction_after_callback(pending, refused.is_ok());
    assert_eq!(still_pending, InteractionState::PendingOracleResponse);

    let accepted = callback_from_agent(
        &CallerIdentity { key: addr(3), is_signer: true },
        String::from("genuine"),
    );
    let done = interaction_after_callback(still_pending, accepted.is_ok());
    assert_eq!(done, InteractionState::Completed);
}

#[test]
fn compile_is_deterministic() {
    let ix = build_interact_instruction(&addr(1), &addr(2), &addr(3), &addr(4), "same input");
    let once = compile(&vec![ix.clone()], Vec::new()).unwrap();
    let twice = compile(&vec![ix], Vec::new()).unwrap();
    assert_eq!(once, twice);
}

#[test]
fn compile_joins_flags_and_lists_each_address_once() {
    // The same address is read-only in one instruction and writable in the
    // other: the table carries it once, writable, at its first position.
    let shared = addr(9);
    let ix1 = Instr {
        program: addr(1),
        accounts: vec![AccountRef { key: shared, writable: false, signer: false }],
        data: vec![0xaa],
    };
    let ix2 = Instr {
        program: addr(1),
        accounts: vec![AccountRef { key: shared, writable: true, signer: true }],
        data: vec![0xbb],
    };
    let tx = compile(&vec![ix1, ix2], Vec::new()).unwrap();
    // One writable signer (the shared address), and the one program.
    assert_eq!(tx.num_rw_signers, 1);
    assert_eq!(tx.num_ro_signers, 0);
    assert_eq!(tx.num_rw, 0);
    assert_eq!(tx.accounts, vec![shared, addr(1)]);
    assert_eq!(tx.instructions.len(), 2);
    assert_eq!(tx.instructions[0].program_id_index, 1);
    assert_eq!(tx.instructions[0].accounts, vec![0]);
    assert_eq!(tx.instructions[0].data, vec![0xaa]);
    assert_eq!(tx.instructions[1].program_id_index, 1);
    assert_eq!(tx.instructions[1].accounts, vec![0]);
    assert_eq!(tx.instructions[1].data, vec![0xbb]);
}

#[test]
fn compile_refuses_an_overfull_account_table() {
    let mut accounts = Vec::new();
    for i in 0..256u32 {
        let mut b = [0u8; 32];
        b[0] = (i & 0xff) as u8;
        b[1] = (i >> 8) as u8;
        b[2] = 0xee;
        accounts.push(AccountRef { key: Addr(b), writable: false, signer: false });
    }
    // 256 distinct accounts plus the program make 257 distinct addresses.
    let ix = Instr { program: addr(1), accounts, data: vec![] };
    let r = compile(&vec![ix], Vec::new());
    assert_eq!(r.unwrap_err(), CoreError::CompilationError);
}

#[test]
fn encode_interact_data_lays_out_tag_length_bytes() {
    let data = encode_interact_data("hello");
    let mut expected = INTERACT_AGENT_TAG.to_vec();
    expected.extend_from_slice(&5u32.to_le_bytes());
    expected.extend_from_slice(b"hello");
    assert_eq!(data, expected);

    let empty = encode_interact_data("");
    let mut expected_empty = INTERACT_AGENT_TAG.to_vec();
    expected_empty.extend_from_slice(&0u32.to_le_bytes());
    assert_eq!(empty, expected_empty);
}

#[test]
fn schedule_builds_the_promised_submission() {
    let agent = scheduled_gpt_oracle::registry::Agent { context: addr(4) };
    let payer = addr(1);
    let interaction = addr(2);
    let agent_addr = addr(3);
    let sub = schedule(&agent, addr(4), payer, interaction, agent_addr, 1, "hello")
        .expect("scheduling succeeds");

    let d = &sub.descriptor;
    assert_eq!(d.id, 1);
    assert_eq!(d.trigger, TaskTrigger::Immediate);
    assert_eq!(d.crank_reward, CRANK_REWARD);
    assert_eq!(d.crank_reward, 5_000_000);
    assert_eq!(d.free_task_slots, 0);
    assert_eq!(d.description, "interact_with_llm");

    // One compiled instruction, replaying interact_agent with "hello" over
    // exactly payer, interaction, agent, context, oracle id, allocator.
    let tx = &d.transaction;
    assert_eq!(tx.instructions.len(), 1);
    assert_eq!(tx.signer_seeds.len(), 0);
    assert_eq!(tx.num_rw_signers, 0);
    assert_eq!(tx.num_ro_signers, 0);
    assert_eq!(tx.num_rw, 2);
    // Writable non-signers first in first-use order, then read-only ones.
    assert_eq!(
        tx.accounts,
        vec![
            payer,
            interaction,
            Addr(PROGRAM_ID),
            agent_addr,
            addr(4),
            Addr(ORACLE_PROGRAM_ID),
            Addr(SYSTEM_PROGRAM_ID),
        ]
    );
    let cix = &tx.instructions[0];
    assert_eq!(cix.program_id_index, 2);
    assert_eq!(cix.accounts, vec![0, 1, 3, 4, 5, 6]);
    assert_eq!(cix.data, encode_interact_data("hello"));

    // The payload is exactly the compilation of that one instruction.
    let ix = build_interact_instruction(&payer, &interaction, &agent_addr, &addr(4), "hello");
    let recompiled = compile(&vec![ix], Vec::new()).unwrap();
    assert_eq!(d.transaction, recompiled);
}

#[test]
fn schedule_refuses_a_mismatched_context() {
    let agent = scheduled_gpt_oracle::registry::Agent { context: addr(4) };
    let r = schedule(&agent, addr(5), addr(1), addr(2), addr(3), 1, "hello");
    assert_eq!(r.unwrap_err(), CoreError::ContextMismatch);
}

#[test]
fn a_task_id_is_granted_once() {
    let agent = scheduled_gpt_oracle::registry::Agent { context: addr(4) };
    let mut queue = TaskQueue::new();

    let first = schedule(&agent, addr(4), addr(1), addr(2), addr(3), 21, "hello").unwrap();
    assert!(queue.enqueue(first).is_ok());
    assert_eq!(queue.len(), 1);

    let again = schedule(&agent, addr(4), addr(1), addr(2), addr(3), 21, "different").unwrap();
    assert_eq!(queue.enqueue(again).unwrap_err(), CoreError::DuplicateTaskError);
    assert_eq!(queue.len(), 1);

    let other = schedule(&agent, addr(4), addr(1), addr(2), addr(3), 22, "hello").unwrap();
    assert!(queue.enqueue(other).is_ok());
    assert_eq!(queue.len(), 2);
}
