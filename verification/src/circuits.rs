//! The decision circuit, on the plaintext values that only the computing
//! cluster ever sees.

use vstd::prelude::*;

verus! {

/// Plaintext input of the circuit: the owner's limit and the order's amount.
#[derive(Clone, Copy, Debug, PartialEq, Eq)]
pub struct SwapAmount {
    pub limit_amount: u64,
    pub amount: u64,
}

/// Plaintext output of the circuit. `execute` is `0` when the order is
/// handed back untouched and `1` when it goes on to the swap pipeline;
/// `withdraw_amount` carries the order's amount either way.
#[derive(Clone, Copy, Debug, PartialEq, Eq)]
pub struct SwapResult {
    pub execute: u64,
    pub withdraw_amount: u64,
}

/// The flag that stands for "rejected": the amount reaches the limit.
pub const REJECT: u64 = 0;

/// The flag that stands for "execute": the amount stays under the limit.
pub const EXECUTE: u64 = 1;

/// What the circuit decides for a limit and an amount. A tie is a rejection.
pub open spec fn decision(limit_amount: u64, amount: u64) -> SwapResult {
    SwapResult {
        execute: if amount >= limit_amount { 0 } else { 1 },
        withdraw_amount: amount,
    }
}

/// Evaluates the circuit on one request.
pub fn compute_swap(swap_amount: SwapAmount) -> (result: SwapResult)
    ensures
        result == decision(swap_amount.limit_amount, swap_amount.amount),
        result.execute == REJECT <==> swap_amount.amount >= swap_amount.limit_amount,
        result.execute == EXECUTE <==> swap_amount.amount < swap_amount.limit_amount,
        result.withdraw_amount == swap_amount.amount,
{
    let limit_amount: u64 = swap_amount.limit_amount;
    let amount: u64 = swap_amount.amount;
    let mut result = SwapResult { execute: EXECUTE, withdraw_amount: amount };
    if amount >= limit_amount {
        result = SwapResult { execute: REJECT, withdraw_amount: amount };
    }
    result
}

/// The circuit is a function of its two plaintext inputs: requests that
/// agree on limit and amount are decided alike, field for field.
pub proof fn decision_is_deterministic(first: SwapAmount, second: SwapAmount)
    requires
        first.limit_amount == second.limit_amount,
        first.amount == second.amount,
    ensures
        decision(first.limit_amount, first.amount) == decision(
            second.limit_amount,
            second.amount,
        ),
        decision(first.limit_amount, first.amount).execute == decision(
            second.limit_amount,
            second.amount,
        ).execute,
        decision(first.limit_amount, first.amount).withdraw_amount == decision(
            second.limit_amount,
            second.amount,
        ).withdraw_amount,
{
}

/// Every decision has one of the two canonical shapes, and which one is
/// settled by comparing the amount with the limit.
pub proof fn decision_compares_amount_with_limit(limit_amount: u64, amount: u64)
    ensures
        amount >= limit_amount ==> decision(limit_amount, amount) == (SwapResult {
            execute: 0,
            withdraw_amount: amount,
        }),
        amount < limit_amount ==> decision(limit_amount, amount) == (SwapResult {
            execute: 1,
            withdraw_amount: amount,
        }),
        decision(limit_amount, amount).execute == 0 <==> amount >= limit_amount,
{
}

} // verus!
