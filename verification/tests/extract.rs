use solana_filter::error::IntegrityFault;
use solana_filter::error::TransformError;
use solana_filter::extract::block_timestamp;
use solana_filter::extract::encode_instruction;
use solana_filter::extract::extract_transaction;
use solana_filter::extract::map_filter_transactions;
use solana_filter::filter::apply_filter;
use solana_filter::filter::apply_transaction_filter;
use solana_filter::filter::parse_filters_from_params;
use solana_filter::filter::parse_instruction_filters_from_params;
use solana_filter::filter::InstructionFilterParams;
use solana_filter::filter::TransactionFilterParams;
use solana_filter::ledger::Block;
use solana_filter::ledger::CompiledInstruction;
use solana_filter::ledger::ConfirmedTransaction;
use solana_filter::ledger::Message;
use solana_filter::ledger::RawTransaction;
use solana_filter::ledger::TransactionStatusMeta;
use solana_filter::output::Instruction;
use solana_filter::output::Transaction;
use solana_filter::output::Transactions;
use std::collections::HashMap;

fn key(fill: u8) -> Vec<u8> {
    vec![fill; 32]
}

fn b58(bytes: &[u8]) -> String {
    bs58::encode(bytes).into_string()
}

fn instruction(program: u32, accounts: Vec<u8>, data: Vec<u8>) -> CompiledInstruction {
    CompiledInstruction { program_id_index: program, accounts, data }
}

fn transaction(
    signatures: Vec<Vec<u8>>,
    keys: Vec<Vec<u8>>,
    instructions: Vec<CompiledInstruction>,
) -> ConfirmedTransaction {
    ConfirmedTransaction {
        transaction: Some(RawTransaction {
            signatures,
            message: Some(Message { account_keys: keys, instructions }),
        }),
        meta: Some(TransactionStatusMeta {
            loaded_writable_addresses: vec![],
            loaded_readonly_addresses: vec![],
        }),
    }
}

fn block(transactions: Vec<ConfirmedTransaction>) -> Block {
    Block {
        slot: 7,
        blockhash: "hash".to_string(),
        previous_blockhash: "parent".to_string(),
        block_time: Some(1_700_000_000),
        transactions,
    }
}

fn wants(program: &[u8]) -> Option<InstructionFilterParams> {
    Some(InstructionFilterParams { program_id: Some(b58(program)) })
}

fn anything() -> Option<InstructionFilterParams> {
    Some(InstructionFilterParams { program_id: None })
}

fn one_instruction_block() -> Block {
    block(vec![transaction(
        vec![vec![9; 64]],
        vec![key(1), key(2)],
        vec![instruction(1, vec![0, 1], vec![1, 2, 3])],
    )])
}

#[test]
fn one_matching_instruction_is_emitted() {
    let out = map_filter_transactions(wants(&key(2)), &one_instruction_block()).unwrap();
    assert_eq!(out.transactions.len(), 1);
    let emitted = &out.transactions[0];
    assert_eq!(emitted.instructions.len(), 1);
    assert_eq!(emitted.instructions[0].program_id, b58(&key(2)));
    assert_eq!(emitted.instructions[0].accounts, vec![b58(&key(1)), b58(&key(2))]);
    assert_eq!(emitted.instructions[0].data, b58(&[1, 2, 3]));
    assert_eq!(emitted.signatures, vec![b58(&[9; 64])]);
    assert_eq!(emitted.timestamp, 1_700_000_000);
}

#[test]
fn other_program_yields_nothing() {
    let out = map_filter_transactions(wants(&key(3)), &one_instruction_block()).unwrap();
    assert_eq!(out, Transactions { transactions: vec![] });
}

#[test]
fn only_the_matching_instruction_of_two_is_emitted() {
    let blk = block(vec![transaction(
        vec![vec![9; 64]],
        vec![key(1), key(2), key(3)],
        vec![instruction(1, vec![0], vec![10]), instruction(2, vec![0], vec![20])],
    )]);
    let out = map_filter_transactions(wants(&key(2)), &blk).unwrap();
    assert_eq!(out.transactions.len(), 1);
    assert_eq!(
        out.transactions[0].instructions,
        vec![Instruction {
            program_id: b58(&key(2)),
            accounts: vec![b58(&key(1))],
            data: b58(&[10]),
        }]
    );
}

#[test]
fn malformed_parameters_fail_before_the_block_is_read() {
    let raw = "program_id[=x";
    let decoded = serde_qs::from_str::<HashMap<String, String>>(raw);
    assert!(decoded.is_err());
    let decoded = decoded.ok().map(|found| InstructionFilterParams {
        program_id: found.get("program_id").cloned(),
    });
    let faulty = block(vec![ConfirmedTransaction { transaction: None, meta: None }]);
    assert_eq!(map_filter_transactions(decoded, &faulty), Err(TransformError::Parameter));
    assert_eq!(parse_instruction_filters_from_params(None), Err(TransformError::Parameter));
    assert_eq!(parse_filters_from_params(None), Err(TransformError::Parameter));
}

#[test]
fn decoded_parameters_become_the_descriptor() {
    let decoded = serde_qs::from_str::<HashMap<String, String>>("program_id=abc").unwrap();
    let filters = InstructionFilterParams { program_id: decoded.get("program_id").cloned() };
    assert_eq!(
        parse_instruction_filters_from_params(Some(filters)),
        Ok(InstructionFilterParams { program_id: Some("abc".to_string()) })
    );
    let by_signature = TransactionFilterParams { signature: Some("s".to_string()) };
    assert_eq!(parse_filters_from_params(Some(by_signature.clone())), Ok(by_signature));
}

#[test]
fn emitted_transactions_hold_only_matching_instructions_in_order() {
    let blk = block(vec![
        transaction(
            vec![vec![1; 64]],
            vec![key(1), key(2), key(3)],
            vec![
                instruction(2, vec![], vec![1]),
                instruction(1, vec![], vec![2]),
                instruction(2, vec![], vec![3]),
            ],
        ),
        transaction(vec![vec![2; 64]], vec![key(1), key(2)], vec![instruction(1, vec![], vec![4])]),
        transaction(vec![vec![3; 64]], vec![key(3)], vec![instruction(0, vec![0], vec![5])]),
    ]);
    let out = map_filter_transactions(wants(&key(3)), &blk).unwrap();
    assert_eq!(out.transactions.len(), 2);
    assert_eq!(out.transactions[0].signatures, vec![b58(&[1; 64])]);
    assert_eq!(out.transactions[1].signatures, vec![b58(&[3; 64])]);
    let data: Vec<String> =
        out.transactions[0].instructions.iter().map(|i| i.data.clone()).collect();
    assert_eq!(data, vec![b58(&[1]), b58(&[3])]);
    for emitted in &out.transactions {
        assert!(!emitted.instructions.is_empty());
        for found in &emitted.instructions {
            assert_eq!(found.program_id, b58(&key(3)));
        }
    }
}

#[test]
fn without_constraint_every_transaction_with_an_instruction_is_emitted() {
    let blk = block(vec![
        transaction(vec![vec![1; 64]], vec![key(1)], vec![instruction(0, vec![], vec![])]),
        transaction(vec![vec![2; 64]], vec![key(1)], vec![]),
        transaction(
            vec![vec![3; 64]],
            vec![key(1), key(2)],
            vec![instruction(0, vec![1], vec![7]), instruction(1, vec![0], vec![8])],
        ),
    ]);
    let out = map_filter_transactions(anything(), &blk).unwrap();
    assert_eq!(out.transactions.len(), 2);
    assert_eq!(out.transactions[0].signatures, vec![b58(&[1; 64])]);
    assert_eq!(out.transactions[0].instructions.len(), 1);
    assert_eq!(out.transactions[1].signatures, vec![b58(&[3; 64])]);
    assert_eq!(out.transactions[1].instructions.len(), 2);
}

#[test]
fn a_transaction_without_instructions_never_matches() {
    let blk = block(vec![transaction(vec![vec![1; 64]], vec![key(1)], vec![])]);
    assert_eq!(map_filter_transactions(anything(), &blk).unwrap().transactions.len(), 0);
    assert_eq!(map_filter_transactions(wants(&key(1)), &blk).unwrap().transactions.len(), 0);
}

#[test]
fn extraction_is_repeatable() {
    let blk = one_instruction_block();
    let first = map_filter_transactions(wants(&key(2)), &blk);
    let second = map_filter_transactions(wants(&key(2)), &blk);
    assert_eq!(first, second);
}

#[test]
fn emitted_program_id_survives_decoding_and_encoding() {
    let out = map_filter_transactions(anything(), &one_instruction_block()).unwrap();
    let text = &out.transactions[0].instructions[0].program_id;
    let bytes = solana_filter::base58::decode_key(text).unwrap();
    assert_eq!(bytes, key(2));
    assert_eq!(&b58(&bytes), text);
    assert_eq!(bs58::decode(text).into_vec().unwrap(), key(2));
}

#[test]
fn decode_key_reads_base58_and_rejects_other_text() {
    assert_eq!(
        solana_filter::base58::decode_key("he11owor1d"),
        Some(vec![0x04, 0x30, 0x5e, 0x2b, 0x24, 0x73, 0xf0, 0x58])
    );
    assert_eq!(solana_filter::base58::decode_key(""), Some(vec![]));
    assert_eq!(solana_filter::base58::decode_key("hello world"), None);
    assert_eq!(solana_filter::base58::decode_key("0OIl"), None);
}

#[test]
fn program_index_beyond_the_accounts_fails_closed_under_a_constraint() {
    let keys = vec![key(1)];
    let stray = instruction(1, vec![], vec![]);
    let filters = InstructionFilterParams { program_id: Some(b58(&key(1))) };
    assert!(!apply_filter(&stray, &filters, &keys));
    let blk = block(vec![transaction(vec![vec![1; 64]], keys, vec![stray])]);
    assert_eq!(
        map_filter_transactions(wants(&key(1)), &blk),
        Ok(Transactions { transactions: vec![] })
    );
}

#[test]
fn program_index_beyond_the_accounts_fails_the_block_when_extracted() {
    let keys = vec![key(1)];
    let stray = instruction(1, vec![], vec![]);
    assert!(apply_filter(&stray, &InstructionFilterParams { program_id: None }, &keys));
    let blk = block(vec![transaction(vec![vec![1; 64]], keys, vec![stray])]);
    assert_eq!(
        map_filter_transactions(anything(), &blk),
        Err(TransformError::InputIntegrity(IntegrityFault::ProgramIndexOutOfRange))
    );
}

#[test]
fn account_index_beyond_the_accounts_fails_the_block() {
    let blk = block(vec![transaction(
        vec![vec![1; 64]],
        vec![key(1), key(2)],
        vec![instruction(0, vec![1, 2], vec![])],
    )]);
    assert_eq!(
        map_filter_transactions(wants(&key(1)), &blk),
        Err(TransformError::InputIntegrity(IntegrityFault::AccountIndexOutOfRange))
    );
    assert_eq!(
        encode_instruction(&instruction(0, vec![1, 2], vec![]), &vec![key(1), key(2)]),
        Err(TransformError::InputIntegrity(IntegrityFault::AccountIndexOutOfRange))
    );
}

#[test]
fn a_stray_instruction_that_is_not_selected_does_no_harm() {
    let blk = block(vec![transaction(
        vec![vec![1; 64]],
        vec![key(1), key(2)],
        vec![instruction(5, vec![9], vec![]), instruction(1, vec![0], vec![])],
    )]);
    let out = map_filter_transactions(wants(&key(2)), &blk).unwrap();
    assert_eq!(out.transactions[0].instructions.len(), 1);
}

#[test]
fn missing_parts_fail_the_block_whatever_the_descriptor() {
    let no_transaction = ConfirmedTransaction {
        transaction: None,
        meta: Some(TransactionStatusMeta {
            loaded_writable_addresses: vec![],
            loaded_readonly_addresses: vec![],
        }),
    };
    let no_message = ConfirmedTransaction {
        transaction: Some(RawTransaction { signatures: vec![vec![1; 64]], message: None }),
        meta: None,
    };
    let no_meta = ConfirmedTransaction {
        transaction: Some(RawTransaction {
            signatures: vec![vec![1; 64]],
            message: Some(Message { account_keys: vec![key(1)], instructions: vec![] }),
        }),
        meta: None,
    };
    assert_eq!(
        map_filter_transactions(wants(&key(9)), &block(vec![no_transaction.clone()])),
        Err(TransformError::InputIntegrity(IntegrityFault::MissingTransaction))
    );
    assert_eq!(
        map_filter_transactions(wants(&key(9)), &block(vec![no_message.clone()])),
        Err(TransformError::InputIntegrity(IntegrityFault::MissingMessage))
    );
    assert_eq!(
        map_filter_transactions(wants(&key(9)), &block(vec![no_meta.clone()])),
        Err(TransformError::InputIntegrity(IntegrityFault::MissingMeta))
    );
    assert_eq!(
        no_meta.resolved_accounts(),
        Err(TransformError::InputIntegrity(IntegrityFault::MissingMeta))
    );
    assert_eq!(
        map_filter_transactions(anything(), &block(vec![no_meta, no_message, no_transaction])),
        Err(TransformError::InputIntegrity(IntegrityFault::MissingMeta))
    );
}

#[test]
fn the_first_faulty_transaction_decides_the_error() {
    let fine = transaction(vec![vec![1; 64]], vec![key(1)], vec![instruction(0, vec![], vec![])]);
    let unsigned = transaction(vec![], vec![key(1)], vec![instruction(0, vec![], vec![])]);
    let stray = transaction(vec![vec![2; 64]], vec![key(1)], vec![instruction(3, vec![], vec![])]);
    assert_eq!(
        map_filter_transactions(anything(), &block(vec![fine.clone(), unsigned.clone(), stray.clone()])),
        Err(TransformError::InputIntegrity(IntegrityFault::NoSignature))
    );
    assert_eq!(
        map_filter_transactions(anything(), &block(vec![fine, stray, unsigned])),
        Err(TransformError::InputIntegrity(IntegrityFault::ProgramIndexOutOfRange))
    );
}

#[test]
fn an_emitted_transaction_needs_a_signature() {
    let unsigned = transaction(vec![], vec![key(1)], vec![instruction(0, vec![], vec![])]);
    assert_eq!(
        map_filter_transactions(wants(&key(1)), &block(vec![unsigned.clone()])),
        Err(TransformError::InputIntegrity(IntegrityFault::NoSignature))
    );
    assert_eq!(
        map_filter_transactions(wants(&key(2)), &block(vec![unsigned])),
        Ok(Transactions { transactions: vec![] })
    );
}

#[test]
fn loaded_addresses_follow_the_static_keys() {
    let tx = ConfirmedTransaction {
        transaction: Some(RawTransaction {
            signatures: vec![vec![1; 64]],
            message: Some(Message {
                account_keys: vec![key(1), key(2)],
                instructions: vec![instruction(3, vec![2, 0], vec![])],
            }),
        }),
        meta: Some(TransactionStatusMeta {
            loaded_writable_addresses: vec![key(3)],
            loaded_readonly_addresses: vec![key(4), key(5)],
        }),
    };
    assert_eq!(tx.resolved_accounts(), Ok(vec![key(1), key(2), key(3), key(4), key(5)]));
    let out = map_filter_transactions(wants(&key(4)), &block(vec![tx])).unwrap();
    assert_eq!(
        out.transactions[0].instructions,
        vec![Instruction {
            program_id: b58(&key(4)),
            accounts: vec![b58(&key(3)), b58(&key(1))],
            data: String::new(),
        }]
    );
}

#[test]
fn all_signatures_are_emitted_in_order() {
    let tx = transaction(
        vec![vec![1; 64], vec![2; 64], vec![3; 64]],
        vec![key(1)],
        vec![instruction(0, vec![], vec![0, 0, 1])],
    );
    let emitted = extract_transaction(&tx, &InstructionFilterParams { program_id: None }, 5)
        .unwrap()
        .unwrap();
    assert_eq!(
        emitted,
        Transaction {
            signatures: vec![b58(&[1; 64]), b58(&[2; 64]), b58(&[3; 64])],
            instructions: vec![Instruction {
                program_id: b58(&key(1)),
                accounts: vec![],
                data: "112".to_string(),
            }],
            timestamp: 5,
        }
    );
}

#[test]
fn a_transaction_without_match_is_passed_over() {
    let tx = transaction(vec![vec![1; 64]], vec![key(1)], vec![instruction(0, vec![], vec![])]);
    let filters = InstructionFilterParams { program_id: Some("not base58 at all".to_string()) };
    assert_eq!(extract_transaction(&tx, &filters, 5), Ok(None));
}

#[test]
fn the_filter_compares_text_exactly() {
    let keys = vec![key(1)];
    let first = instruction(0, vec![], vec![]);
    let text = b58(&key(1));
    assert!(apply_filter(&first, &InstructionFilterParams { program_id: Some(text.clone()) }, &keys));
    let lower = InstructionFilterParams { program_id: Some(text.to_lowercase()) };
    assert!(!apply_filter(&first, &lower, &keys));
    let prefix = InstructionFilterParams { program_id: Some(text[..10].to_string()) };
    assert!(!apply_filter(&first, &prefix, &keys));
    let raw = InstructionFilterParams { program_id: Some(String::from_utf8(vec![1; 32]).unwrap()) };
    assert!(!apply_filter(&first, &raw, &keys));
}

#[test]
fn block_time_becomes_the_timestamp() {
    assert_eq!(block_timestamp(None), 0);
    assert_eq!(block_timestamp(Some(0)), 0);
    assert_eq!(block_timestamp(Some(1_700_000_000)), 1_700_000_000);
    assert_eq!(block_timestamp(Some(i64::MAX)), 9_223_372_036_854_775_807);
    assert_eq!(block_timestamp(Some(-1)), u64::MAX);
    assert_eq!(block_timestamp(Some(i64::MIN)), 9_223_372_036_854_775_808);
    let mut blk = one_instruction_block();
    blk.block_time = None;
    let out = map_filter_transactions(anything(), &blk).unwrap();
    assert_eq!(out.transactions[0].timestamp, 0);
}

#[test]
fn a_transaction_is_found_by_any_of_its_signatures() {
    let tx = transaction(vec![vec![1; 64], vec![2; 64]], vec![key(1)], vec![]);
    let second = TransactionFilterParams { signature: Some(b58(&[2; 64])) };
    let other = TransactionFilterParams { signature: Some(b58(&[3; 64])) };
    let none = TransactionFilterParams { signature: None };
    assert_eq!(apply_transaction_filter(&tx, &second), Ok(true));
    assert_eq!(apply_transaction_filter(&tx, &other), Ok(false));
    assert_eq!(apply_transaction_filter(&tx, &none), Ok(true));
    let empty = ConfirmedTransaction { transaction: None, meta: None };
    assert_eq!(apply_transaction_filter(&empty, &none), Ok(true));
    assert_eq!(
        apply_transaction_filter(&empty, &second),
        Err(TransformError::InputIntegrity(IntegrityFault::MissingTransaction))
    );
}

#[test]
fn errors_describe_themselves() {
    assert_eq!(TransformError::Parameter.describe(), "Unexpected error while parsing parameters");
    assert_eq!(
        TransformError::InputIntegrity(IntegrityFault::NoSignature).describe(),
        "transaction without a signature"
    );
    assert_eq!(IntegrityFault::MissingTransaction.describe(), "confirmed transaction without a transaction");
    assert_eq!(IntegrityFault::MissingMessage.describe(), "transaction without a message");
    assert_eq!(IntegrityFault::MissingMeta.describe(), "confirmed transaction without status metadata");
    assert_eq!(
        IntegrityFault::ProgramIndexOutOfRange.describe(),
        "program id index beyond the resolved accounts"
    );
    assert_eq!(
        IntegrityFault::AccountIndexOutOfRange.describe(),
        "account index beyond the resolved accounts"
    );
}
