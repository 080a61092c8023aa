//! The vault state machine: initialization, deposit intake, allocation
//! bookkeeping, distribution activation, eligibility evaluation, and claim
//! settlement, each pinned to a spec-level transition on the vault's view.

use vstd::prelude::*;

use crate::errors::VaultError;
use crate::ledger::{
    Ledger, ParticipantRecord, keys_of, lemma_get_absent, lemma_get_at_key, lemma_get_le_sum,
    seq_get, sum_deposited, unique_keys, zero_record,
};

verus! {

/// The abstract state of a vault: the three configuration identities, the
/// activation flag, the deposit accumulator, and one record per participant.
///
/// `records` is total: a participant that has never deposited holds the zero
/// record, so entries come into being lazily and are never removed.
#[verifier::ext_equal]
pub struct VaultView {
    /// Identity of the asset accepted for deposits; zero while unconfigured.
    pub usdt_token: u64,
    /// Identity of the asset released to claimants.
    pub project_token: u64,
    /// The authority: may activate distribution, and receives all deposits.
    pub brand_wallet: u64,
    /// Whether claims are permitted; set once, never reset.
    pub distribution_active: bool,
    /// Sum of every successfully deposited amount.
    pub total_deposits: u128,
    /// What the vault knows of each participant.
    pub records: Map<u64, ParticipantRecord>,
}

/// How a deposited amount converts into an entitlement to the reward asset:
/// one to one.
pub open spec fn spec_ratio_policy(amount: u128) -> u128 {
    amount
}

/// The ratio policy the vault applies to each deposited amount.
pub fn ratio_policy(amount: u128) -> (r: u128)
    ensures
        r == spec_ratio_policy(amount),
{
    amount
}

/// A vault that has never been configured or used.
pub open spec fn spec_empty_vault() -> VaultView {
    VaultView {
        usdt_token: 0,
        project_token: 0,
        brand_wallet: 0,
        distribution_active: false,
        total_deposits: 0,
        records: Map::new(|p: u64| true, |p: u64| zero_record()),
    }
}

impl VaultView {
    /// Whether the configuration has been written.
    pub open spec fn initialized(self) -> bool {
        self.usdt_token != 0
    }

    /// The access-control guard: the caller is the authority. An unset
    /// authority matches no one, so access starts out closed.
    pub open spec fn is_authority(self, caller: u64) -> bool {
        self.brand_wallet != 0 && caller == self.brand_wallet
    }

    /// Whether `p` may still claim: something is allocated and nothing has
    /// been released yet.
    pub open spec fn eligible(self, p: u64) -> bool {
        self.records[p].allocated > 0 && !self.records[p].claimed
    }
}

/// State after `initialize`: the configuration is written exactly once;
/// later calls change nothing.
pub open spec fn spec_initialize(
    s: VaultView,
    usdt_address: u64,
    project_token: u64,
    brand_wallet: u64,
) -> VaultView {
    if s.initialized() {
        s
    } else {
        VaultView { usdt_token: usdt_address, project_token, brand_wallet, ..s }
    }
}

/// State and result of `deposit_usdt`, given the gateway's report on the
/// pull. On failure nothing changes; on success the participant's deposit
/// and allocation and the global total each grow by the amount.
pub open spec fn spec_deposit(
    s: VaultView,
    sender: u64,
    amount: u128,
    pull_ok: bool,
) -> (VaultView, Result<bool, VaultError>) {
    if !pull_ok {
        (s, Err(VaultError::ExternalTransferFailure))
    } else {
        let rec = s.records[sender];
        let grown = ParticipantRecord {
            deposited: (rec.deposited + amount) as u128,
            allocated: (rec.allocated + spec_ratio_policy(amount)) as u128,
            claimed: rec.claimed,
        };
        (
            VaultView {
                total_deposits: (s.total_deposits + amount) as u128,
                records: s.records.insert(sender, grown),
                ..s
            },
            Ok(true),
        )
    }
}

/// State and result of `start_distribution`: only the authority may turn the
/// activation flag on; anyone else is refused and nothing changes.
pub open spec fn spec_start_distribution(s: VaultView, caller: u64) -> (
    VaultView,
    Result<bool, VaultError>,
) {
    if s.is_authority(caller) {
        (VaultView { distribution_active: true, ..s }, Ok(true))
    } else {
        (s, Err(VaultError::AuthorizationError))
    }
}

/// State and result of `claim_tokens`, given the gateway's report on the
/// push. The preconditions are judged in order: distribution must be active,
/// the entitlement must not have been released before, something must be
/// allocated, and the push must have gone through; only then is the release
/// recorded.
pub open spec fn spec_claim(s: VaultView, sender: u64, push_ok: bool) -> (
    VaultView,
    Result<bool, VaultError>,
) {
    if !s.distribution_active {
        (s, Err(VaultError::PreconditionError))
    } else if s.records[sender].claimed {
        (s, Err(VaultError::AlreadyClaimedError))
    } else if s.records[sender].allocated == 0 {
        (s, Err(VaultError::PreconditionError))
    } else if !push_ok {
        (s, Err(VaultError::ExternalTransferFailure))
    } else {
        let rec = s.records[sender];
        let settled = ParticipantRecord { claimed: true, ..rec };
        (VaultView { records: s.records.insert(sender, settled), ..s }, Ok(true))
    }
}

/// A transfer the vault asks the asset gateway to attempt.
#[derive(Clone, Copy, Debug, PartialEq, Eq, Structural)]
pub enum TransferRequest {
    /// Move `amount` of `asset` from `from` to `to`.
    Pull { asset: u64, from: u64, to: u64, amount: u128 },
    /// Move `amount` of `asset` from the vault's holdings to `to`.
    Push { asset: u64, to: u64, amount: u128 },
}

/// The pull that `deposit_usdt` expects the gateway to have attempted: the
/// deposit asset, from the depositor, to the authority.
pub open spec fn spec_deposit_request(s: VaultView, sender: u64, amount: u128) -> TransferRequest {
    TransferRequest::Pull { asset: s.usdt_token, from: sender, to: s.brand_wallet, amount }
}

/// The push that `claim_tokens` expects the gateway to attempt for an
/// eligible claimant, or the error an ineligible one is refused with.
pub open spec fn spec_claim_request(s: VaultView, sender: u64) -> Result<
    TransferRequest,
    VaultError,
> {
    if !s.distribution_active {
        Err(VaultError::PreconditionError)
    } else if s.records[sender].claimed {
        Err(VaultError::AlreadyClaimedError)
    } else if s.records[sender].allocated == 0 {
        Err(VaultError::PreconditionError)
    } else {
        Ok(
            TransferRequest::Push {
                asset: s.project_token,
                to: sender,
                amount: s.records[sender].allocated,
            },
        )
    }
}

/// The vault: configuration, activation flag, deposit accumulator, and the
/// participant ledger. A state-changing operation takes the gateway's
/// reported outcome as an argument and commits or refuses atomically, so a
/// nested invocation during a pending transfer is impossible by
/// construction: the host performs the transfer while no operation is in
/// progress.
pub struct InvestmentVault {
    usdt_token: u64,
    project_token: u64,
    brand_wallet: u64,
    distribution_active: bool,
    total_deposits: u128,
    ledger: Ledger,
}

impl View for InvestmentVault {
    type V = VaultView;

    closed spec fn view(&self) -> VaultView {
        VaultView {
            usdt_token: self.usdt_token,
            project_token: self.project_token,
            brand_wallet: self.brand_wallet,
            distribution_active: self.distribution_active,
            total_deposits: self.total_deposits,
            records: Map::new(|p: u64| true, |p: u64| seq_get(self.ledger.entries@, p)),
        }
    }
}

impl InvestmentVault {
    /// The vault's invariants: the ledger keys no participant twice, the
    /// accumulator equals the sum of the recorded deposits, every allocation
    /// is what the ratio policy gives for the recorded deposit, and a
    /// recorded release implies distribution was activated.
    pub closed spec fn wf(&self) -> bool {
        &&& unique_keys(self.ledger.entries@)
        &&& self.total_deposits as int == sum_deposited(self.ledger.entries@)
        &&& forall|p: u64|
            (#[trigger] seq_get(self.ledger.entries@, p)).allocated == spec_ratio_policy(
                seq_get(self.ledger.entries@, p).deposited,
            )
        &&& forall|p: u64|
            (#[trigger] seq_get(self.ledger.entries@, p)).claimed ==> self.distribution_active
    }
}

/// The deposited amounts that `ps` names in `m`, added up in order.
pub open spec fn sum_deposited_over(m: Map<u64, ParticipantRecord>, ps: Seq<u64>) -> int
    decreases ps.len(),
{
    if ps.len() == 0 {
        0
    } else {
        m[ps[0]].deposited + sum_deposited_over(m, ps.drop_first())
    }
}

impl InvestmentVault {
    /// Every participant the ledger holds an entry for, each once.
    pub closed spec fn participants(&self) -> Seq<u64> {
        keys_of(self.ledger.entries@)
    }
}

proof fn lemma_sum_over_entries(
    m: Map<u64, ParticipantRecord>,
    s: Seq<(u64, ParticipantRecord)>,
)
    requires
        forall|i: int| 0 <= i < s.len() ==> m[(#[trigger] s[i]).0] == s[i].1,
    ensures
        sum_deposited_over(m, keys_of(s)) == sum_deposited(s),
    decreases s.len(),
{
    let ks = keys_of(s);
    if s.len() > 0 {
        let st = s.drop_first();
        assert forall|i: int| 0 <= i < st.len() implies m[(#[trigger] st[i]).0] == st[i].1 by {
            assert(st[i] == s[i + 1]);
        }
        lemma_sum_over_entries(m, st);
        assert(ks[0] == s[0].0);
        assert(ks.drop_first() =~= keys_of(st));
        assert(sum_deposited_over(m, ks) == m[ks[0]].deposited + sum_deposited_over(
            m,
            ks.drop_first(),
        ));
    }
}

/// Deposit conservation: after any sequence of operations the recorded total
/// equals the sum over all participants of their recorded deposits — the
/// participant list holds every depositor once, anyone outside it has
/// deposited nothing, and the listed deposits add up to the total.
pub proof fn lemma_deposit_conservation(v: InvestmentVault)
    requires
        v.wf(),
    ensures
        v.participants().no_duplicates(),
        forall|p: u64|
            !(#[trigger] v.participants().contains(p)) ==> v@.records[p].deposited == 0,
        sum_deposited_over(v@.records, v.participants()) == v@.total_deposits as int,
{
    let s = v.ledger.entries@;
    let ks = v.participants();
    lemma_records(v);
    assert(forall|i: int| 0 <= i < s.len() ==> ks[i] == (#[trigger] s[i]).0);
    assert forall|a: int, b: int|
        0 <= a < ks.len() && 0 <= b < ks.len() && a != b implies ks[a] != ks[b] by {
        assert(ks[a] == s[a].0 && ks[b] == s[b].0);
    }
    assert forall|p: u64| !(#[trigger] ks.contains(p)) implies v@.records[p].deposited == 0 by {
        assert forall|k: int| 0 <= k < s.len() implies (#[trigger] s[k].0) != p by {
            assert(ks[k] == s[k].0);
        }
        lemma_get_absent(s, p);
    }
    assert forall|i: int| 0 <= i < s.len() implies v@.records[(#[trigger] s[i]).0] == s[i].1 by {
        lemma_get_at_key(s, i);
    }
    lemma_sum_over_entries(v@.records, s);
}

proof fn lemma_records(v: InvestmentVault)
    ensures
        forall|p: u64| #[trigger] v@.records.dom().contains(p),
        forall|p: u64| #[trigger] v@.records[p] == seq_get(v.ledger.entries@, p),
{
    assert forall|p: u64| #[trigger] v@.records.dom().contains(p) by {
        assert(v@.records.dom() == Set::new(|p: u64| true));
    }
}

impl Default for InvestmentVault {
    /// A fresh vault: unconfigured, inactive, with an empty ledger.
    fn default() -> (r: Self)
        ensures
            r.wf(),
            r@ == spec_empty_vault(),
    {
        let r = InvestmentVault {
            usdt_token: 0,
            project_token: 0,
            brand_wallet: 0,
            distribution_active: false,
            total_deposits: 0,
            ledger: Ledger::new(),
        };
        proof {
            lemma_records(r);
            assert(r@.records =~= spec_empty_vault().records);
            assert(r@ =~= spec_empty_vault());
        }
        r
    }
}

impl InvestmentVault {
    /// Write the configuration once; any later call, whatever its
    /// arguments, is a silent no-op.
    pub fn initialize(&mut self, usdt_address: u64, project_token: u64, brand_wallet: u64)
        requires
            old(self).wf(),
        ensures
            final(self).wf(),
            final(self)@ == spec_initialize(old(self)@, usdt_address, project_token, brand_wallet),
    {
        if self.usdt_token == 0 {
            self.usdt_token = usdt_address;
            self.project_token = project_token;
            self.brand_wallet = brand_wallet;
        }
        proof {
            lemma_records(*old(self));
            lemma_records(*self);
            assert(self@.records =~= old(self)@.records);
            assert(self@ =~= spec_initialize(
                old(self)@,
                usdt_address,
                project_token,
                brand_wallet,
            ));
        }
    }

    /// Take in a deposit the gateway has already attempted to pull. When the
    /// pull failed, refuse and change nothing; when it succeeded, grow the
    /// participant's deposit and allocation and the global total by the
    /// amount, and touch nothing else.
    pub fn deposit_usdt(&mut self, sender: u64, amount: u128, pull_ok: bool) -> (r: Result<
        bool,
        VaultError,
    >)
        requires
            old(self).wf(),
            old(self)@.total_deposits + amount <= u128::MAX,
        ensures
            final(self).wf(),
            final(self)@ == spec_deposit(old(self)@, sender, amount, pull_ok).0,
            r == spec_deposit(old(self)@, sender, amount, pull_ok).1,
    {
        if !pull_ok {
            return Err(VaultError::ExternalTransferFailure);
        }
        let rec = self.ledger.get(sender);
        proof {
            lemma_records(*old(self));
            lemma_get_le_sum(self.ledger.entries@, sender);
        }
        let grown = ParticipantRecord {
            deposited: rec.deposited + amount,
            allocated: rec.allocated + ratio_policy(amount),
            claimed: rec.claimed,
        };
        self.ledger.set(sender, grown);
        self.total_deposits = self.total_deposits + amount;
        proof {
            lemma_records(*self);
            assert(self@.records =~= spec_deposit(old(self)@, sender, amount, pull_ok).0.records);
            assert(self@ =~= spec_deposit(old(self)@, sender, amount, pull_ok).0);
        }
        Ok(true)
    }

    /// Turn the activation flag on, for the authority alone; the flag never
    /// goes back. Activating twice is a harmless no-op.
    pub fn start_distribution(&mut self, caller: u64) -> (r: Result<bool, VaultError>)
        requires
            old(self).wf(),
        ensures
            final(self).wf(),
            final(self)@ == spec_start_distribution(old(self)@, caller).0,
            r == spec_start_distribution(old(self)@, caller).1,
    {
        let authorized = self.is_authority(caller);
        if !authorized {
            return Err(VaultError::AuthorizationError);
        }
        self.distribution_active = true;
        proof {
            lemma_records(*old(self));
            lemma_records(*self);
            assert(self@.records =~= old(self)@.records);
            assert(self@ =~= spec_start_distribution(old(self)@, caller).0);
        }
        Ok(true)
    }

    /// The access-control guard as the callers see it.
    pub fn is_authority(&self, caller: u64) -> (r: bool)
        ensures
            r == self@.is_authority(caller),
    {
        self.brand_wallet != 0 && caller == self.brand_wallet
    }

    /// Whether `user` may still claim: a positive allocation and no release
    /// recorded yet.
    pub fn check_eligibility(&self, user: u64) -> (r: bool)
        ensures
            r == self@.eligible(user),
    {
        proof {
            lemma_records(*self);
        }
        let rec = self.ledger.get(user);
        rec.allocated > 0 && !rec.claimed
    }

    /// Release the caller's entitlement, at most once, given the gateway's
    /// report on the push. Refused, with nothing changed, when distribution
    /// is not active, when the entitlement was already released, when
    /// nothing is allocated, or when the push failed; otherwise the release
    /// is recorded and nothing else changes.
    pub fn claim_tokens(&mut self, sender: u64, push_ok: bool) -> (r: Result<bool, VaultError>)
        requires
            old(self).wf(),
        ensures
            final(self).wf(),
            final(self)@ == spec_claim(old(self)@, sender, push_ok).0,
            r == spec_claim(old(self)@, sender, push_ok).1,
    {
        proof {
            lemma_records(*old(self));
        }
        if !self.distribution_active {
            return Err(VaultError::PreconditionError);
        }
        let rec = self.ledger.get(sender);
        if rec.claimed {
            return Err(VaultError::AlreadyClaimedError);
        }
        if rec.allocated == 0 {
            return Err(VaultError::PreconditionError);
        }
        if !push_ok {
            return Err(VaultError::ExternalTransferFailure);
        }
        let settled = ParticipantRecord {
            deposited: rec.deposited,
            allocated: rec.allocated,
            claimed: true,
        };
        self.ledger.set(sender, settled);
        proof {
            lemma_records(*self);
            assert(self@.records =~= spec_claim(old(self)@, sender, push_ok).0.records);
            assert(self@ =~= spec_claim(old(self)@, sender, push_ok).0);
        }
        Ok(true)
    }

    /// The pull the host should ask the gateway for before committing a
    /// deposit of `amount` by `sender`.
    pub fn deposit_request(&self, sender: u64, amount: u128) -> (r: TransferRequest)
        ensures
            r == spec_deposit_request(self@, sender, amount),
    {
        TransferRequest::Pull {
            asset: self.usdt_token,
            from: sender,
            to: self.brand_wallet,
            amount,
        }
    }

    /// The push the host should ask the gateway for on behalf of `sender`,
    /// or the error `claim_tokens` would refuse `sender` with.
    pub fn claim_request(&self, sender: u64) -> (r: Result<TransferRequest, VaultError>)
        ensures
            r == spec_claim_request(self@, sender),
    {
        proof {
            lemma_records(*self);
        }
        if !self.distribution_active {
            return Err(VaultError::PreconditionError);
        }
        let rec = self.ledger.get(sender);
        if rec.claimed {
            return Err(VaultError::AlreadyClaimedError);
        }
        if rec.allocated == 0 {
            return Err(VaultError::PreconditionError);
        }
        Ok(TransferRequest::Push { asset: self.project_token, to: sender, amount: rec.allocated })
    }

    /// The caller's entitlement to the reward asset.
    pub fn get_allocation(&self, user: u64) -> (r: u128)
        ensures
            r == self@.records[user].allocated,
    {
        proof {
            lemma_records(*self);
        }
        self.ledger.get(user).allocated
    }

    /// What `user` has deposited so far.
    pub fn get_deposits(&self, user: u64) -> (r: u128)
        ensures
            r == self@.records[user].deposited,
    {
        proof {
            lemma_records(*self);
        }
        self.ledger.get(user).deposited
    }

    /// Whether `user`'s entitlement has been released.
    pub fn is_claimed(&self, user: u64) -> (r: bool)
        ensures
            r == self@.records[user].claimed,
    {
        proof {
            lemma_records(*self);
        }
        self.ledger.get(user).claimed
    }

    /// Whether claims are permitted yet.
    pub fn is_distribution_active(&self) -> (r: bool)
        ensures
            r == self@.distribution_active,
    {
        self.distribution_active
    }

    /// The sum of every successfully deposited amount.
    pub fn get_total_deposits(&self) -> (r: u128)
        ensures
            r == self@.total_deposits,
    {
        self.total_deposits
    }

    /// Identity of the asset accepted for deposits; zero while unconfigured.
    pub fn get_usdt_token(&self) -> (r: u64)
        ensures
            r == self@.usdt_token,
    {
        self.usdt_token
    }

    /// Identity of the asset released to claimants.
    pub fn get_project_token(&self) -> (r: u64)
        ensures
            r == self@.project_token,
    {
        self.project_token
    }

    /// The authority's identity; zero while unconfigured.
    pub fn get_brand_wallet(&self) -> (r: u64)
        ensures
            r == self@.brand_wallet,
    {
        self.brand_wallet
    }
}

} // verus!
