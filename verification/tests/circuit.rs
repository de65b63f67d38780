use whispr_limit::circuits::compute_swap;
use whispr_limit::circuits::SwapAmount;
use whispr_limit::circuits::SwapResult;
use whispr_limit::circuits::EXECUTE;
use whispr_limit::circuits::REJECT;

fn decide(limit_amount: u64, amount: u64) -> SwapResult {
    compute_swap(SwapAmount { limit_amount, amount })
}

#[test]
fn amount_above_limit_is_rejected() {
    assert_eq!(decide(100, 150), SwapResult { execute: 0, withdraw_amount: 150 });
}

#[test]
fn amount_below_limit_is_executed() {
    assert_eq!(decide(100, 50), SwapResult { execute: 1, withdraw_amount: 50 });
}

#[test]
fn tie_goes_to_reject() {
    assert_eq!(decide(100, 100), SwapResult { execute: 0, withdraw_amount: 100 });
}

#[test]
fn zero_limit_rejects_every_amount() {
    assert_eq!(decide(0, 0), SwapResult { execute: 0, withdraw_amount: 0 });
    assert_eq!(decide(0, 1), SwapResult { execute: 0, withdraw_amount: 1 });
    assert_eq!(decide(0, u64::MAX), SwapResult { execute: 0, withdraw_amount: u64::MAX });
}

#[test]
fn largest_limit_executes_all_but_the_largest_amount() {
    assert_eq!(decide(u64::MAX, 0), SwapResult { execute: 1, withdraw_amount: 0 });
    assert_eq!(
        decide(u64::MAX, u64::MAX - 1),
        SwapResult { execute: 1, withdraw_amount: u64::MAX - 1 }
    );
    assert_eq!(decide(u64::MAX, u64::MAX), SwapResult { execute: 0, withdraw_amount: u64::MAX });
}

#[test]
fn one_below_and_one_above_the_limit() {
    assert_eq!(decide(100, 99), SwapResult { execute: 1, withdraw_amount: 99 });
    assert_eq!(decide(100, 101), SwapResult { execute: 0, withdraw_amount: 101 });
}

#[test]
fn flags_have_their_fixed_values() {
    assert_eq!(REJECT, 0);
    assert_eq!(EXECUTE, 1);
    assert_eq!(decide(10, 20).execute, REJECT);
    assert_eq!(decide(20, 10).execute, EXECUTE);
}

#[test]
fn same_inputs_give_the_same_result() {
    let mut limit: u64 = 1;
    while limit < 1_000_000 {
        let mut amount: u64 = 0;
        while amount < 2_000_000 {
            let first = decide(limit, amount);
            let second = decide(limit, amount);
            assert_eq!(first, second);
            assert_eq!(first.withdraw_amount, amount);
            assert_eq!(first.execute == 0, amount >= limit);
            assert_eq!(first.execute == 1, amount < limit);
            amount = amount * 3 + 7;
        }
        limit = limit * 5 + 3;
    }
}
