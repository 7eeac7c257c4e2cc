//! Checks against the outside crates themselves: the fixed identities, the
//! selector tags, the address derivation, and the descriptor's conventions.

use std::str::FromStr;

use anchor_lang::prelude::Pubkey;
use anchor_lang::solana_program::instruction::AccountMeta;
use anchor_lang::solana_program::instruction::Instruction;

use scheduled_gpt_oracle::addr::Addr;
use scheduled_gpt_oracle::addr::ORACLE_PROGRAM_ID;
use scheduled_gpt_oracle::addr::PROGRAM_ID;
use scheduled_gpt_oracle::addr::QUEUE_AUTHORITY_SEED;
use scheduled_gpt_oracle::addr::SYSTEM_PROGRAM_ID;
use scheduled_gpt_oracle::compiler::AccountRef;
use scheduled_gpt_oracle::compiler::Instr;
use scheduled_gpt_oracle::compiler::compile;
use scheduled_gpt_oracle::ixdata::CALLBACK_FROM_AGENT_TAG;
use scheduled_gpt_oracle::ixdata::INTERACT_AGENT_TAG;
use scheduled_gpt_oracle::scheduler::derive_queue_authority;

#[test]
fn program_identities_match_their_declared_forms() {
    let own = Pubkey::from_str("FAD61S3A6qnAigJVV7Rz2BxE9Leh4nbzJRuWsymGTmjW").unwrap();
    assert_eq!(own.to_bytes(), PROGRAM_ID);

    let oracle = Pubkey::from_str("LLMrieZMpbJFwN52WgmBNMxYojrpRVYXdC1RCweEbab").unwrap();
    assert_eq!(oracle.to_bytes(), ORACLE_PROGRAM_ID);

    assert_eq!(anchor_lang::system_program::ID.to_bytes(), SYSTEM_PROGRAM_ID);
}

#[test]
fn selector_tags_are_the_entry_points_discriminators() {
    let interact = anchor_lang::solana_program::hash::hash(b"global:interact_agent");
    assert_eq!(interact.to_bytes()[..8], INTERACT_AGENT_TAG);

    let callback = anchor_lang::solana_program::hash::hash(b"global:callback_from_agent");
    assert_eq!(callback.to_bytes()[..8], CALLBACK_FROM_AGENT_TAG);
}

#[test]
fn queue_authority_matches_the_runtime_derivation() {
    let authority = derive_queue_authority().expect("a proof byte exists");
    let (expected, bump) = Pubkey::find_program_address(
        &[b"queue_authority"],
        &Pubkey::new_from_array(PROGRAM_ID),
    );
    assert_eq!(authority.address.0, expected.to_bytes());
    assert_eq!(authority.bump, bump);
    assert_eq!(QUEUE_AUTHORITY_SEED, *b"queue_authority");
}

/// The wire form of a descriptor must be exactly what the queue service's
/// own types serialize to.
#[test]
fn wire_encoding_agrees_with_the_queue_services_serialization() {
    let agent = scheduled_gpt_oracle::registry::Agent { context: Addr([4u8; 32]) };
    let sub = scheduled_gpt_oracle::scheduler::schedule(
        &agent,
        Addr([4u8; 32]),
        Addr([1u8; 32]),
        Addr([2u8; 32]),
        Addr([3u8; 32]),
        9,
        "hello",
    )
    .unwrap();
    let tx = &sub.descriptor.transaction;
    let ours = scheduled_gpt_oracle::wire::encode_compiled_tx(tx).unwrap();

    let theirs = tuktuk_program::CompiledTransactionV0 {
        num_rw_signers: tx.num_rw_signers,
        num_ro_signers: tx.num_ro_signers,
        num_rw: tx.num_rw,
        accounts: tx.accounts.iter().map(|a| Pubkey::new_from_array(a.0)).collect(),
        instructions: tx
            .instructions
            .iter()
            .map(|c| tuktuk_program::CompiledInstructionV0 {
                program_id_index: c.program_id_index,
                accounts: c.accounts.clone(),
                data: c.data.clone(),
            })
            .collect(),
        signer_seeds: tx.signer_seeds.clone(),
    };
    let expected = anchor_lang::AnchorSerialize::try_to_vec(&theirs).unwrap();
    assert_eq!(ours, expected);
}

/// The same agreement must hold when signer seeds travel with the
/// descriptor.
#[test]
fn wire_encoding_of_signer_seeds_agrees_with_the_queue_service() {
    let seeds: Vec<Vec<Vec<u8>>> = vec![vec![b"custom".to_vec(), vec![5u8]]];
    let ix = scheduled_gpt_oracle::compiler::Instr {
        program: Addr([7u8; 32]),
        accounts: vec![AccountRef { key: Addr([8u8; 32]), writable: true, signer: false }],
        data: vec![9, 9],
    };
    let tx = compile(&vec![ix], seeds.clone()).unwrap();
    let ours = scheduled_gpt_oracle::wire::encode_compiled_tx(&tx).unwrap();

    let theirs = tuktuk_program::CompiledTransactionV0 {
        num_rw_signers: tx.num_rw_signers,
        num_ro_signers: tx.num_ro_signers,
        num_rw: tx.num_rw,
        accounts: tx.accounts.iter().map(|a| Pubkey::new_from_array(a.0)).collect(),
        instructions: vec![tuktuk_program::CompiledInstructionV0 {
            program_id_index: tx.instructions[0].program_id_index,
            accounts: tx.instructions[0].accounts.clone(),
            data: tx.instructions[0].data.clone(),
        }],
        signer_seeds: seeds,
    };
    let expected = anchor_lang::AnchorSerialize::try_to_vec(&theirs).unwrap();
    assert_eq!(ours, expected);
}

/// On input whose account table has one address per ordering class, the
/// external compiler's output is fixed; ours must agree with it exactly.
#[test]
fn descriptor_conventions_agree_with_the_queue_services_compiler() {
    let program = Pubkey::new_unique();
    let payer = Pubkey::new_unique();
    let outside_ix = Instruction {
        program_id: program,
        accounts: vec![AccountMeta::new(payer, false)],
        data: vec![1, 2, 3],
    };
    let (theirs, _) = tuktuk_program::compile_transaction(vec![outside_ix], vec![]).unwrap();

    let ours = compile(
        &vec![Instr {
            program: Addr(program.to_bytes()),
            accounts: vec![AccountRef { key: Addr(payer.to_bytes()), writable: true, signer: false }],
            data: vec![1, 2, 3],
        }],
        Vec::new(),
    )
    .unwrap();

    assert_eq!(ours.num_rw_signers, theirs.num_rw_signers);
    assert_eq!(ours.num_ro_signers, theirs.num_ro_signers);
    assert_eq!(ours.num_rw, theirs.num_rw);
    let our_accounts: Vec<[u8; 32]> = ours.accounts.iter().map(|a| a.0).collect();
    let their_accounts: Vec<[u8; 32]> = theirs.accounts.iter().map(|k| k.to_bytes()).collect();
    assert_eq!(our_accounts, their_accounts);
    assert_eq!(ours.instructions.len(), theirs.instructions.len());
    assert_eq!(ours.instructions[0].program_id_index, theirs.instructions[0].program_id_index);
    assert_eq!(ours.instructions[0].accounts, theirs.instructions[0].accounts);
    assert_eq!(ours.instructions[0].data, theirs.instructions[0].data);
}
