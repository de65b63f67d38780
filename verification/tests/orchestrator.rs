use whispr_limit::orchestrator::compute_swap;
use whispr_limit::orchestrator::compute_swap_callback;
use whispr_limit::orchestrator::limit_data;
use whispr_limit::orchestrator::same_identity;
use whispr_limit::orchestrator::settle_dispatch;
use whispr_limit::orchestrator::Ledger;
use whispr_limit::protocol::Argument;
use whispr_limit::protocol::CallbackAccount;
use whispr_limit::protocol::ComputationOutputs;
use whispr_limit::protocol::ComputeSwapOutput;
use whispr_limit::protocol::SharedEncryptedStruct;
use whispr_limit::state::ConfidentialSwapExecutedEvent;
use whispr_limit::state::ErrorCode;
use whispr_limit::state::SwapError;
use whispr_limit::state::SwapState;
use whispr_limit::state::SwapStatus;

const ALICE: [u8; 32] = [0xA1; 32];
const BOB: [u8; 32] = [0xB0; 32];
const KEY: [u8; 32] = [0x11; 32];
const LIMIT: [u8; 32] = [0x22; 32];
const AMOUNT: [u8; 32] = [0x33; 32];

fn success(nonce: u128, execute: [u8; 32], withdraw_amount: [u8; 32]) -> ComputationOutputs {
    ComputationOutputs::Success(ComputeSwapOutput {
        field_0: SharedEncryptedStruct {
            encryption_key: KEY,
            nonce,
            ciphertexts: [execute, withdraw_amount],
        },
    })
}

fn ledger_with_limit(owner: [u8; 32]) -> Ledger {
    let mut ledger = Ledger::new();
    limit_data(&mut ledger, owner, LIMIT);
    ledger
}

#[test]
fn new_ledger_is_empty() {
    let ledger = Ledger::new();
    assert_eq!(ledger.limit_of(ALICE), None);
    assert_eq!(ledger.swap_of(ALICE, 0), None);
    assert!(ledger.events().is_empty());
}

#[test]
fn identities_compare_byte_by_byte() {
    let mut other = ALICE;
    assert!(same_identity(&ALICE, &other));
    other[31] ^= 1;
    assert!(!same_identity(&ALICE, &other));
    other = ALICE;
    other[0] ^= 1;
    assert!(!same_identity(&ALICE, &other));
}

#[test]
fn limit_is_created_then_overwritten() {
    let mut ledger = Ledger::new();
    limit_data(&mut ledger, ALICE, [1u8; 32]);
    assert_eq!(ledger.limit_of(ALICE), Some([1u8; 32]));
    assert_eq!(ledger.limit_of(BOB), None);
    limit_data(&mut ledger, BOB, [2u8; 32]);
    limit_data(&mut ledger, ALICE, [3u8; 32]);
    assert_eq!(ledger.limit_of(ALICE), Some([3u8; 32]));
    assert_eq!(ledger.limit_of(BOB), Some([2u8; 32]));
    assert_eq!(ledger.swap_of(ALICE, 0), None);
    assert!(ledger.events().is_empty());
}

#[test]
fn swap_without_limit_is_refused() {
    let mut ledger = ledger_with_limit(BOB);
    let outcome = compute_swap(&mut ledger, ALICE, 1, KEY, 5, AMOUNT, 1000);
    assert_eq!(outcome, Err(SwapError::MissingLimit));
    assert_eq!(ledger.swap_of(ALICE, 1), None);
    assert_eq!(ledger.limit_of(BOB), Some(LIMIT));
}

#[test]
fn swap_is_opened_with_its_request() {
    let mut ledger = ledger_with_limit(ALICE);
    let request = compute_swap(&mut ledger, ALICE, 7, KEY, 5, AMOUNT, 1000).unwrap();
    assert_eq!(request.computation_offset, 7);
    assert_eq!(request.comp_def_offset, 3675089831);
    assert_eq!(
        request.args,
        vec![
            Argument::ArcisPubkey(KEY),
            Argument::PlaintextU128(5),
            Argument::EncryptedU64(LIMIT),
            Argument::EncryptedU64(AMOUNT),
        ]
    );
    assert_eq!(request.callback_accounts, vec![CallbackAccount { pubkey: ALICE, is_writable: true }]);
    assert_eq!(
        ledger.swap_of(ALICE, 7),
        Some(SwapState {
            user: ALICE,
            computation_offset: 7,
            amount: 0,
            min_output: 0,
            status: SwapStatus::Initiated,
            created_at: 1000,
        })
    );
}

#[test]
fn request_carries_the_latest_limit() {
    let mut ledger = ledger_with_limit(ALICE);
    limit_data(&mut ledger, ALICE, [0x44; 32]);
    let request = compute_swap(&mut ledger, ALICE, 7, KEY, 5, AMOUNT, 1000).unwrap();
    assert_eq!(request.args[2], Argument::EncryptedU64([0x44; 32]));
}

#[test]
fn accepted_dispatch_moves_to_computing() {
    let mut ledger = ledger_with_limit(ALICE);
    compute_swap(&mut ledger, ALICE, 7, KEY, 5, AMOUNT, 1000).unwrap();
    assert_eq!(settle_dispatch(&mut ledger, ALICE, 7, true), Ok(()));
    let record = ledger.swap_of(ALICE, 7).unwrap();
    assert_eq!(record.status, SwapStatus::Computing);
    assert_eq!(record.created_at, 1000);
    assert_eq!(record.user, ALICE);
    assert_eq!(record.computation_offset, 7);
}

#[test]
fn second_call_with_same_offset_fails() {
    let mut ledger = ledger_with_limit(ALICE);
    compute_swap(&mut ledger, ALICE, 7, KEY, 5, AMOUNT, 1000).unwrap();
    let first = ledger.swap_of(ALICE, 7);
    let again = compute_swap(&mut ledger, ALICE, 7, [0x55; 32], 6, [0x66; 32], 2000);
    assert_eq!(again, Err(SwapError::DuplicateOffset));
    assert_eq!(ledger.swap_of(ALICE, 7), first);

    settle_dispatch(&mut ledger, ALICE, 7, true).unwrap();
    let computing = ledger.swap_of(ALICE, 7);
    let again = compute_swap(&mut ledger, ALICE, 7, KEY, 5, AMOUNT, 3000);
    assert_eq!(again, Err(SwapError::DuplicateOffset));
    assert_eq!(ledger.swap_of(ALICE, 7), computing);
    assert_eq!(computing.unwrap().created_at, 1000);
}

#[test]
fn same_offset_of_another_user_is_free() {
    let mut ledger = ledger_with_limit(ALICE);
    limit_data(&mut ledger, BOB, [0x77; 32]);
    compute_swap(&mut ledger, ALICE, 7, KEY, 5, AMOUNT, 1000).unwrap();
    let request = compute_swap(&mut ledger, BOB, 7, KEY, 5, AMOUNT, 1001).unwrap();
    assert_eq!(request.args[2], Argument::EncryptedU64([0x77; 32]));
    assert_eq!(ledger.swap_of(ALICE, 7).unwrap().created_at, 1000);
    assert_eq!(ledger.swap_of(BOB, 7).unwrap().created_at, 1001);
}

#[test]
fn failed_dispatch_stays_initiated() {
    let mut ledger = ledger_with_limit(ALICE);
    compute_swap(&mut ledger, ALICE, 7, KEY, 5, AMOUNT, 1000).unwrap();
    let opened = ledger.swap_of(ALICE, 7);
    assert_eq!(settle_dispatch(&mut ledger, ALICE, 7, false), Err(SwapError::DispatchFailed));
    assert_eq!(ledger.swap_of(ALICE, 7), opened);
    assert_eq!(ledger.swap_of(ALICE, 7).unwrap().status, SwapStatus::Initiated);
    assert!(ledger.events().is_empty());
}

#[test]
fn settling_needs_a_waiting_swap() {
    let mut ledger = ledger_with_limit(ALICE);
    assert_eq!(settle_dispatch(&mut ledger, ALICE, 7, true), Err(SwapError::NotInitiated));
    assert_eq!(settle_dispatch(&mut ledger, ALICE, 7, false), Err(SwapError::NotInitiated));
    compute_swap(&mut ledger, ALICE, 7, KEY, 5, AMOUNT, 1000).unwrap();
    assert_eq!(settle_dispatch(&mut ledger, BOB, 7, true), Err(SwapError::NotInitiated));
    assert_eq!(settle_dispatch(&mut ledger, ALICE, 8, true), Err(SwapError::NotInitiated));
    assert_eq!(settle_dispatch(&mut ledger, ALICE, 7, true), Ok(()));
    assert_eq!(settle_dispatch(&mut ledger, ALICE, 7, true), Err(SwapError::NotInitiated));
    assert_eq!(ledger.swap_of(ALICE, 7).unwrap().status, SwapStatus::Computing);
}

#[test]
fn aborted_callback_leaves_every_swap() {
    let mut ledger = ledger_with_limit(ALICE);
    limit_data(&mut ledger, BOB, LIMIT);
    compute_swap(&mut ledger, ALICE, 1, KEY, 5, AMOUNT, 1000).unwrap();
    settle_dispatch(&mut ledger, ALICE, 1, true).unwrap();
    compute_swap(&mut ledger, ALICE, 2, KEY, 5, AMOUNT, 1001).unwrap();
    compute_swap(&mut ledger, BOB, 1, KEY, 5, AMOUNT, 1002).unwrap();
    settle_dispatch(&mut ledger, BOB, 1, true).unwrap();
    let before = (ledger.swap_of(ALICE, 1), ledger.swap_of(ALICE, 2), ledger.swap_of(BOB, 1));

    let outcome = compute_swap_callback(&mut ledger, ALICE, ComputationOutputs::Failure);
    assert_eq!(outcome, Err(ErrorCode::AbortedComputation));
    let after = (ledger.swap_of(ALICE, 1), ledger.swap_of(ALICE, 2), ledger.swap_of(BOB, 1));
    assert_eq!(after, before);
    assert_eq!(ledger.swap_of(ALICE, 1).unwrap().status, SwapStatus::Computing);
    assert_eq!(ledger.swap_of(ALICE, 2).unwrap().status, SwapStatus::Initiated);
    assert!(ledger.events().is_empty());
    assert_eq!(ledger.limit_of(ALICE), Some(LIMIT));
}

#[test]
fn successful_callback_emits_one_event() {
    let mut ledger = ledger_with_limit(ALICE);
    compute_swap(&mut ledger, ALICE, 1, KEY, 5, AMOUNT, 1000).unwrap();
    settle_dispatch(&mut ledger, ALICE, 1, true).unwrap();
    let before = ledger.swap_of(ALICE, 1);

    let outcome = compute_swap_callback(&mut ledger, ALICE, success(99, [0xE0; 32], [0xD0; 32]));
    let expected = ConfidentialSwapExecutedEvent {
        user: ALICE,
        execute: [0xE0; 32],
        withdraw_amount: [0xD0; 32],
        nonce: 99,
    };
    assert_eq!(outcome, Ok(expected));
    assert_eq!(ledger.events().len(), 1);
    assert_eq!(ledger.events()[0], expected);
    assert_eq!(ledger.swap_of(ALICE, 1), before);
}

#[test]
fn event_nonce_is_the_results_nonce() {
    let mut ledger = ledger_with_limit(ALICE);
    compute_swap(&mut ledger, ALICE, 1, KEY, 5, AMOUNT, 1000).unwrap();
    settle_dispatch(&mut ledger, ALICE, 1, true).unwrap();
    let event =
        compute_swap_callback(&mut ledger, ALICE, success(6, [0xE0; 32], [0xD0; 32])).unwrap();
    assert_eq!(event.nonce, 6);
    assert_ne!(event.nonce, 5);
    assert_eq!(event.user, ALICE);
}

#[test]
fn events_are_appended_in_order() {
    let mut ledger = ledger_with_limit(ALICE);
    compute_swap_callback(&mut ledger, ALICE, success(1, [1u8; 32], [2u8; 32])).unwrap();
    assert_eq!(
        compute_swap_callback(&mut ledger, BOB, ComputationOutputs::Failure),
        Err(ErrorCode::AbortedComputation)
    );
    compute_swap_callback(&mut ledger, BOB, success(2, [3u8; 32], [4u8; 32])).unwrap();
    let log = ledger.events();
    assert_eq!(log.len(), 2);
    assert_eq!(
        log[0],
        ConfidentialSwapExecutedEvent {
            user: ALICE,
            execute: [1u8; 32],
            withdraw_amount: [2u8; 32],
            nonce: 1,
        }
    );
    assert_eq!(
        log[1],
        ConfidentialSwapExecutedEvent {
            user: BOB,
            execute: [3u8; 32],
            withdraw_amount: [4u8; 32],
            nonce: 2,
        }
    );
}

#[test]
fn many_swaps_of_one_user_are_tracked_apart() {
    let mut ledger = ledger_with_limit(ALICE);
    let mut offset: u64 = 0;
    while offset < 20 {
        compute_swap(&mut ledger, ALICE, offset, KEY, 5, AMOUNT, offset as i64).unwrap();
        if offset % 2 == 0 {
            settle_dispatch(&mut ledger, ALICE, offset, true).unwrap();
        }
        offset += 1;
    }
    let mut offset: u64 = 0;
    while offset < 20 {
        let record = ledger.swap_of(ALICE, offset).unwrap();
        assert_eq!(record.created_at, offset as i64);
        let expected =
            if offset % 2 == 0 { SwapStatus::Computing } else { SwapStatus::Initiated };
        assert_eq!(record.status, expected);
        offset += 1;
    }
    assert_eq!(ledger.swap_of(ALICE, 20), None);
}
