//! The safety laws of the vault, proved over the spec-level transitions:
//! what survives any sequence of operations, and what each refusal leaves
//! untouched.

use vstd::prelude::*;

use crate::errors::VaultError;
use crate::vault::{
    VaultView, spec_claim, spec_claim_request, spec_deposit, spec_initialize, spec_ratio_policy,
    spec_start_distribution,
};

verus! {

/// One invocation of a state-changing operation, with the gateway outcome
/// the host reported for it.
pub enum Op {
    Initialize { usdt_address: u64, project_token: u64, brand_wallet: u64 },
    Deposit { sender: u64, amount: u128, pull_ok: bool },
    StartDistribution { caller: u64 },
    Claim { sender: u64, push_ok: bool },
}

/// The state one operation leaves behind, whether it succeeded or was
/// refused.
pub open spec fn step(s: VaultView, op: Op) -> VaultView {
    match op {
        Op::Initialize { usdt_address, project_token, brand_wallet } => spec_initialize(
            s,
            usdt_address,
            project_token,
            brand_wallet,
        ),
        Op::Deposit { sender, amount, pull_ok } => spec_deposit(s, sender, amount, pull_ok).0,
        Op::StartDistribution { caller } => spec_start_distribution(s, caller).0,
        Op::Claim { sender, push_ok } => spec_claim(s, sender, push_ok).0,
    }
}

/// The state a sequence of operations leaves behind, applied first to last.
pub open spec fn run(s: VaultView, ops: Seq<Op>) -> VaultView
    decreases ops.len(),
{
    if ops.len() == 0 {
        s
    } else {
        run(step(s, ops[0]), ops.drop_first())
    }
}

/// No single operation unrecords a release.
pub proof fn lemma_step_keeps_claimed(s: VaultView, op: Op, p: u64)
    requires
        s.records[p].claimed,
    ensures
        step(s, op).records[p].claimed,
{
}

/// Once recorded, a release survives every further sequence of operations.
pub proof fn lemma_claimed_persists(s: VaultView, ops: Seq<Op>, p: u64)
    requires
        s.records[p].claimed,
    ensures
        run(s, ops).records[p].claimed,
    decreases ops.len(),
{
    if ops.len() > 0 {
        lemma_step_keeps_claimed(s, ops[0], p);
        lemma_claimed_persists(step(s, ops[0]), ops.drop_first(), p);
    }
}

/// No single operation rewrites a written configuration or turns the
/// activation flag back off.
pub proof fn lemma_step_keeps_configuration(s: VaultView, op: Op)
    requires
        s.initialized(),
    ensures
        step(s, op).usdt_token == s.usdt_token,
        step(s, op).project_token == s.project_token,
        step(s, op).brand_wallet == s.brand_wallet,
        s.distribution_active ==> step(s, op).distribution_active,
{
}

/// Once written, the configuration survives every further sequence of
/// operations, and activation, once granted, is never revoked.
pub proof fn lemma_configuration_persists(s: VaultView, ops: Seq<Op>)
    requires
        s.initialized(),
    ensures
        run(s, ops).usdt_token == s.usdt_token,
        run(s, ops).project_token == s.project_token,
        run(s, ops).brand_wallet == s.brand_wallet,
        s.distribution_active ==> run(s, ops).distribution_active,
    decreases ops.len(),
{
    if ops.len() > 0 {
        lemma_step_keeps_configuration(s, ops[0]);
        lemma_configuration_persists(step(s, ops[0]), ops.drop_first());
    }
}

/// A successful claim records the release it paid out.
pub proof fn lemma_claim_success_recorded(s: VaultView, p: u64, push_ok: bool)
    requires
        spec_claim(s, p, push_ok).1 == Ok::<bool, VaultError>(true),
    ensures
        spec_claim(s, p, push_ok).0.records[p].claimed,
{
}

/// No double payout: once a release for `p` is recorded, then after any
/// further sequence of operations another claim by `p` is refused — as
/// already claimed, or as premature when distribution is inactive — and
/// leaves the state exactly as it was.
pub proof fn lemma_no_double_payout(s: VaultView, ops: Seq<Op>, p: u64, push_ok: bool)
    requires
        s.records[p].claimed,
    ensures
        run(s, ops).records[p].claimed,
        spec_claim(run(s, ops), p, push_ok).0 == run(s, ops),
        spec_claim(run(s, ops), p, push_ok).1 == Err::<bool, VaultError>(
            VaultError::AlreadyClaimedError,
        ) || spec_claim(run(s, ops), p, push_ok).1 == Err::<bool, VaultError>(
            VaultError::PreconditionError,
        ),
{
    lemma_claimed_persists(s, ops, p);
}

/// The two-phase claim protocol agrees with itself: when the vault hands
/// out a push request the claim is owed — it succeeds whenever the push
/// does — and when it refuses, the claim is refused with the same error and
/// the state untouched, whatever the gateway would have reported.
pub proof fn lemma_claim_request_matches_claim(s: VaultView, p: u64, push_ok: bool)
    ensures
        spec_claim_request(s, p) is Ok ==> spec_claim(s, p, true).1 == Ok::<bool, VaultError>(
            true,
        ),
        spec_claim_request(s, p) matches Err(e) ==> spec_claim(s, p, push_ok).1 == Err::<
            bool,
            VaultError,
        >(e) && spec_claim(s, p, push_ok).0 == s,
{
}

/// No claim before activation: while distribution is inactive every claim
/// is refused as premature, whatever the allocation, and nothing changes.
pub proof fn lemma_no_claim_before_activation(s: VaultView, p: u64, push_ok: bool)
    requires
        !s.distribution_active,
    ensures
        spec_claim(s, p, push_ok).0 == s,
        spec_claim(s, p, push_ok).1 == Err::<bool, VaultError>(VaultError::PreconditionError),
{
}

/// Idempotent initialization: once a first call has set the configuration
/// to a non-zero deposit asset, a second call, whatever its arguments,
/// leaves the first-set values in place.
pub proof fn lemma_initialize_idempotent(
    s: VaultView,
    usdt1: u64,
    project1: u64,
    brand1: u64,
    usdt2: u64,
    project2: u64,
    brand2: u64,
)
    requires
        !s.initialized(),
        usdt1 != 0,
    ensures
        spec_initialize(s, usdt1, project1, brand1).usdt_token == usdt1,
        spec_initialize(s, usdt1, project1, brand1).project_token == project1,
        spec_initialize(s, usdt1, project1, brand1).brand_wallet == brand1,
        spec_initialize(spec_initialize(s, usdt1, project1, brand1), usdt2, project2, brand2)
            == spec_initialize(s, usdt1, project1, brand1),
{
}

/// Authorization gate: a caller other than the authority cannot change the
/// activation flag, or anything else, and is refused as unauthorized.
pub proof fn lemma_authorization_gate(s: VaultView, caller: u64)
    requires
        !s.is_authority(caller),
    ensures
        spec_start_distribution(s, caller).0 == s,
        spec_start_distribution(s, caller).0.distribution_active == s.distribution_active,
        spec_start_distribution(s, caller).1 == Err::<bool, VaultError>(
            VaultError::AuthorizationError,
        ),
{
}

/// Allocation consistency: a deposit of `amount` by `p` whose pull went
/// through succeeds, grows `p`'s recorded deposit by `amount` and `p`'s
/// allocation by what the ratio policy gives for `amount`, grows the total
/// by `amount`, and touches no other participant's record.
pub proof fn lemma_allocation_consistency(s: VaultView, p: u64, amount: u128)
    requires
        s.records[p].deposited + amount <= u128::MAX,
        s.records[p].allocated + spec_ratio_policy(amount) <= u128::MAX,
        s.total_deposits + amount <= u128::MAX,
    ensures
        spec_deposit(s, p, amount, true).1 == Ok::<bool, VaultError>(true),
        spec_deposit(s, p, amount, true).0.records[p].deposited == s.records[p].deposited
            + amount,
        spec_deposit(s, p, amount, true).0.records[p].allocated == s.records[p].allocated
            + spec_ratio_policy(amount),
        spec_deposit(s, p, amount, true).0.records[p].claimed == s.records[p].claimed,
        spec_deposit(s, p, amount, true).0.total_deposits == s.total_deposits + amount,
        forall|q: u64|
            q != p ==> (#[trigger] spec_deposit(s, p, amount, true).0.records[q]) == s.records[q],
{
}

/// Failed external transfer rollback: a deposit whose pull the gateway
/// reported as failed is refused and leaves the state exactly as it was.
pub proof fn lemma_failed_transfer_rollback(s: VaultView, p: u64, amount: u128)
    ensures
        spec_deposit(s, p, amount, false).0 == s,
        spec_deposit(s, p, amount, false).1 == Err::<bool, VaultError>(
            VaultError::ExternalTransferFailure,
        ),
{
}

} // verus!
