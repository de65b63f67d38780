//! What crosses the boundary to the computation network: the request that
//! is queued for a swap, and the answer that the cluster calls back with.

use vstd::prelude::*;
use crate::state::ConfidentialSwapExecutedEvent;
use crate::state::ErrorCode;

verus! {

/// The name under which the decision circuit is registered with the cluster.
pub const CIRCUIT_NAME: &'static str = "compute_swap";

/// One argument of a queued computation, tagged with its kind.
#[derive(Clone, Copy, Debug, PartialEq, Eq)]
pub enum Argument {
    /// The requester's public key.
    ArcisPubkey([u8; 32]),
    /// A 128-bit value in the clear.
    PlaintextU128(u128),
    /// An encrypted 64-bit value.
    EncryptedU64([u8; 32]),
}

/// An account that the cluster hands to the callback.
#[derive(Clone, Copy, Debug, PartialEq, Eq)]
pub struct CallbackAccount {
    pub pubkey: [u8; 32],
    pub is_writable: bool,
}

/// A computation to queue: which circuit, under which offset, with which
/// arguments, and the accounts its callback will be given.
#[derive(Clone, Debug, PartialEq, Eq)]
pub struct QueueRequest {
    pub computation_offset: u64,
    pub comp_def_offset: u32,
    pub args: Vec<Argument>,
    pub callback_accounts: Vec<CallbackAccount>,
}

/// A result encrypted for the requester: the two ciphertexts of the
/// circuit's output and the nonce they were encrypted under.
#[derive(Clone, Copy, Debug, PartialEq, Eq)]
pub struct SharedEncryptedStruct {
    pub encryption_key: [u8; 32],
    pub nonce: u128,
    pub ciphertexts: [[u8; 32]; 2],
}

/// The output of the decision circuit as the callback receives it.
#[derive(Clone, Copy, Debug, PartialEq, Eq)]
pub struct ComputeSwapOutput {
    pub field_0: SharedEncryptedStruct,
}

/// What the cluster reports for a computation: its output, or that the
/// computation was aborted.
#[derive(Clone, Copy, Debug, PartialEq, Eq)]
pub enum ComputationOutputs {
    Success(ComputeSwapOutput),
    Failure,
}

/// The number that the computation network derives from a circuit's name
/// and knows the circuit by.
pub uninterp spec fn circuit_offset(name: Seq<char>) -> u32;

/// Calls `arcium_anchor::comp_def_offset`, which hashes the circuit's name
/// with SHA-256 and reads the first four bytes of the digest as a
/// little-endian number. The contract only names that number: it is a
/// function of the name alone.
#[verifier::external_body]
pub(crate) fn comp_def_offset(conf_ix_name: &str) -> (offset: u32)
    ensures
        offset == circuit_offset(conf_ix_name@),
{
    arcium_anchor::comp_def_offset(conf_ix_name)
}

/// The circuit's arguments in the order its interface fixes: public key,
/// nonce, encrypted limit, encrypted amount.
pub open spec fn argument_list(
    pub_key: [u8; 32],
    nonce: u128,
    limit: [u8; 32],
    encrypted_amount: [u8; 32],
) -> Seq<Argument> {
    seq![
        Argument::ArcisPubkey(pub_key),
        Argument::PlaintextU128(nonce),
        Argument::EncryptedU64(limit),
        Argument::EncryptedU64(encrypted_amount),
    ]
}

/// The callback's accounts: the user alone, writable.
pub open spec fn callback_account_list(user: [u8; 32]) -> Seq<CallbackAccount> {
    seq![CallbackAccount { pubkey: user, is_writable: true }]
}

/// Whether `request` asks the circuit known by `comp_def_offset` to decide
/// a swap of `user` with these inputs.
pub open spec fn is_request_for(
    request: QueueRequest,
    comp_def_offset: u32,
    user: [u8; 32],
    computation_offset: u64,
    pub_key: [u8; 32],
    nonce: u128,
    limit: [u8; 32],
    encrypted_amount: [u8; 32],
) -> bool {
    &&& request.computation_offset == computation_offset
    &&& request.comp_def_offset == comp_def_offset
    &&& request.args@ == argument_list(pub_key, nonce, limit, encrypted_amount)
    &&& request.callback_accounts@ == callback_account_list(user)
}

/// Whether `request` is the request for a swap of `user` with these inputs:
/// it names the decision circuit by the number that the network derives
/// from the circuit's name.
pub open spec fn is_swap_request(
    request: QueueRequest,
    user: [u8; 32],
    computation_offset: u64,
    pub_key: [u8; 32],
    nonce: u128,
    limit: [u8; 32],
    encrypted_amount: [u8; 32],
) -> bool {
    is_request_for(
        request,
        circuit_offset(CIRCUIT_NAME@),
        user,
        computation_offset,
        pub_key,
        nonce,
        limit,
        encrypted_amount,
    )
}

/// Builds the argument list of a swap.
pub fn swap_arguments(
    pub_key: [u8; 32],
    nonce: u128,
    limit: [u8; 32],
    encrypted_amount: [u8; 32],
) -> (args: Vec<Argument>)
    ensures
        args@ == argument_list(pub_key, nonce, limit, encrypted_amount),
{
    let mut args: Vec<Argument> = Vec::new();
    args.push(Argument::ArcisPubkey(pub_key));
    args.push(Argument::PlaintextU128(nonce));
    args.push(Argument::EncryptedU64(limit));
    args.push(Argument::EncryptedU64(encrypted_amount));
    assert(args@ =~= argument_list(pub_key, nonce, limit, encrypted_amount));
    args
}

/// Builds the list of accounts that the callback of a swap is given.
pub fn callback_accounts(user: [u8; 32]) -> (accounts: Vec<CallbackAccount>)
    ensures
        accounts@ == callback_account_list(user),
{
    let mut accounts: Vec<CallbackAccount> = Vec::new();
    accounts.push(CallbackAccount { pubkey: user, is_writable: true });
    assert(accounts@ =~= callback_account_list(user));
    accounts
}

/// Builds the request that asks the circuit known by `comp_def_offset` to
/// decide a swap.
pub fn request_for_circuit(
    comp_def_offset: u32,
    user: [u8; 32],
    computation_offset: u64,
    pub_key: [u8; 32],
    nonce: u128,
    limit: [u8; 32],
    encrypted_amount: [u8; 32],
) -> (request: QueueRequest)
    ensures
        is_request_for(
            request,
            comp_def_offset,
            user,
            computation_offset,
            pub_key,
            nonce,
            limit,
            encrypted_amount,
        ),
{
    QueueRequest {
        computation_offset,
        comp_def_offset,
        args: swap_arguments(pub_key, nonce, limit, encrypted_amount),
        callback_accounts: callback_accounts(user),
    }
}

/// Builds the request that asks the cluster to decide a swap with the
/// decision circuit.
pub fn queue_request(
    user: [u8; 32],
    computation_offset: u64,
    pub_key: [u8; 32],
    nonce: u128,
    limit: [u8; 32],
    encrypted_amount: [u8; 32],
) -> (request: QueueRequest)
    ensures
        is_swap_request(
            request,
            user,
            computation_offset,
            pub_key,
            nonce,
            limit,
            encrypted_amount,
        ),
{
    let circuit = comp_def_offset(CIRCUIT_NAME);
    request_for_circuit(
        circuit,
        user,
        computation_offset,
        pub_key,
        nonce,
        limit,
        encrypted_amount,
    )
}

/// The event for a result: the first ciphertext is the decision, the second
/// the amount to withdraw, and the nonce is the result's own.
pub open spec fn event_of(
    user: [u8; 32],
    output: ComputeSwapOutput,
) -> ConfidentialSwapExecutedEvent {
    ConfidentialSwapExecutedEvent {
        user,
        execute: output.field_0.ciphertexts[0],
        withdraw_amount: output.field_0.ciphertexts[1],
        nonce: output.field_0.nonce,
    }
}

/// What a callback yields: the event of the result, or the error that
/// reports an aborted computation.
pub open spec fn callback_outcome(user: [u8; 32], output: ComputationOutputs) -> Result<
    ConfidentialSwapExecutedEvent,
    ErrorCode,
> {
    match output {
        ComputationOutputs::Success(result) => Ok(event_of(user, result)),
        ComputationOutputs::Failure => Err(ErrorCode::AbortedComputation),
    }
}

/// Reads the cluster's answer for `user`. Nothing is decrypted.
pub fn executed_event(user: [u8; 32], output: ComputationOutputs) -> (outcome: Result<
    ConfidentialSwapExecutedEvent,
    ErrorCode,
>)
    ensures
        outcome == callback_outcome(user, output),
{
    let swap_result = match output {
        ComputationOutputs::Success(ComputeSwapOutput { field_0 }) => field_0,
        ComputationOutputs::Failure => {
            return Err(ErrorCode::AbortedComputation);
        },
    };
    let execute = swap_result.ciphertexts[0];
    let withdraw_amount = swap_result.ciphertexts[1];
    Ok(ConfidentialSwapExecutedEvent { user, execute, withdraw_amount, nonce: swap_result.nonce })
}

} // verus!
