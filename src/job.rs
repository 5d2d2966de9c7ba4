//! The payment job record and its invariant.
use vstd::prelude::*;
use crate::pubkey::Pubkey;

verus! {

/// A contributor's address and whether it has paid its share.
#[derive(Clone, Copy, Debug)]
pub struct WalletStatus {
    pub wallet: Pubkey,
    pub paid: bool,
}

/// One payment pool: who owes what, by when, and who receives the pool.
#[derive(Clone, Debug)]
pub struct PaymentJob {
    /// Creator of the job; may distribute before the deadline.
    pub authority: Pubkey,
    /// Amount in lamports that each contributor owes.
    pub amount: u64,
    /// Time from which anyone may distribute; `i64::MAX` means never.
    pub deadline: i64,
    /// Set once the pool has been distributed; never cleared.
    pub closed: bool,
    /// Contributors, in the order given at creation.
    pub payers: Vec<WalletStatus>,
    /// Recipients, in the order given at creation.
    pub payees: Vec<Pubkey>,
}

/// Mathematical model of a `PaymentJob`.
pub ghost struct JobView {
    pub authority: Pubkey,
    pub amount: u64,
    pub deadline: i64,
    pub closed: bool,
    pub payers: Seq<WalletStatus>,
    pub payees: Seq<Pubkey>,
}

impl View for PaymentJob {
    type V = JobView;

    open spec fn view(&self) -> JobView {
        JobView {
            authority: self.authority,
            amount: self.amount,
            deadline: self.deadline,
            closed: self.closed,
            payers: self.payers@,
            payees: self.payees@,
        }
    }
}

/// Errors of the job instructions.
#[derive(Clone, Copy, Debug, PartialEq, Eq, Structural)]
pub enum ErrorCode {
    /// Empty contributor or recipient list, zero amount, or a repeated contributor.
    InvalidInput,
    /// The contributor has already paid.
    AlreadyPaid,
    /// The payer is not one of the job's contributors.
    NotContributor,
    /// The job is closed.
    AlreadyClosed,
    /// Someone other than the authority tried to distribute before the deadline.
    BeforeDeadline,
    /// The pool holds less than the recorded payments add up to.
    InsufficientFunds,
    /// A balance transfer could not be made.
    TransferFailed,
}

/// No address occurs twice in `s`.
pub open spec fn keys_unique(s: Seq<Pubkey>) -> bool {
    forall|i: int, j: int| 0 <= i < j < s.len() ==> s[i] != s[j]
}

/// The contributors' addresses, in order.
pub open spec fn wallets_of(s: Seq<WalletStatus>) -> Seq<Pubkey> {
    s.map_values(|w: WalletStatus| w.wallet)
}

/// Number of contributors that have paid.
pub open spec fn count_paid(s: Seq<WalletStatus>) -> nat
    decreases s.len(),
{
    if s.len() == 0 {
        0
    } else {
        count_paid(s.drop_last()) + if s.last().paid { 1nat } else { 0nat }
    }
}

/// `k` is one of the contributors.
pub open spec fn is_contributor(s: Seq<WalletStatus>, k: Pubkey) -> bool {
    exists|i: int| 0 <= i < s.len() && s[i].wallet == k
}

/// Position of contributor `k` (meaningful where `is_contributor(s, k)`).
pub open spec fn contributor_index(s: Seq<WalletStatus>, k: Pubkey) -> int {
    choose|i: int| 0 <= i < s.len() && s[i].wallet == k
}

/// Bytes of account data that a job with these list lengths occupies:
/// discriminator, authority, amount, deadline, closed flag, and the two lists.
pub open spec fn space_of(num_payers: nat, num_payees: nat) -> nat {
    8 + 32 + 8 + 8 + 1 + 4 + num_payers * 33 + 4 + num_payees * 32
}

impl JobView {
    /// The record invariant: what creation establishes and every instruction keeps.
    pub open spec fn wf(self) -> bool {
        &&& self.amount > 0
        &&& self.payers.len() > 0
        &&& self.payees.len() > 0
        &&& keys_unique(wallets_of(self.payers))
    }

    /// Lamports owed to the pool by the contributors that have paid.
    pub open spec fn total_collected(self) -> nat {
        count_paid(self.payers) * (self.amount as nat)
    }
}

/// Counts and lamport totals of a job's contributions.
#[derive(Clone, Copy, Debug, PartialEq, Eq, Structural)]
pub struct JobSummary {
    pub paid_contributors: usize,
    pub total_contributors: usize,
    /// Lamports owed by the contributors that have paid.
    pub paid_amount: u128,
    /// Lamports owed by all contributors.
    pub total_amount: u128,
}

impl PaymentJob {
    /// Contribution counts and totals, for display.
    pub fn summary(&self) -> (r: JobSummary)
        ensures
            r.paid_contributors == count_paid(self.payers@),
            r.total_contributors == self.payers@.len(),
            r.paid_amount == count_paid(self.payers@) * self.amount,
            r.total_amount == self.payers@.len() * self.amount,
    {
        let paid = self.paid_count();
        let total = self.payers.len();
        let amount = self.amount as u128;
        proof {
            assert(paid as u128 * amount <= u128::MAX) by (nonlinear_arith)
                requires
                    paid <= usize::MAX,
                    amount <= u64::MAX,
            ;
            assert(total as u128 * amount <= u128::MAX) by (nonlinear_arith)
                requires
                    total <= usize::MAX,
                    amount <= u64::MAX,
            ;
        }
        JobSummary {
            paid_contributors: paid,
            total_contributors: total,
            paid_amount: paid as u128 * amount,
            total_amount: total as u128 * amount,
        }
    }

    /// Account size for a job with `num_payers` contributors and `num_payees` recipients.
    pub fn space(num_payers: usize, num_payees: usize) -> (r: usize)
        requires
            space_of(num_payers as nat, num_payees as nat) <= usize::MAX,
        ensures
            r == space_of(num_payers as nat, num_payees as nat),
    {
        8 + 32 + 8 + 8 + 1 + 4 + num_payers * 33 + 4 + num_payees * 32
    }

    /// Number of contributors that have paid.
    pub fn paid_count(&self) -> (r: usize)
        ensures
            r == count_paid(self.payers@),
    {
        let mut n: usize = 0;
        let mut i: usize = 0;
        while i < self.payers.len()
            invariant
                i <= self.payers@.len(),
                n == count_paid(self.payers@.take(i as int)),
                n <= i,
            decreases self.payers@.len() - i,
        {
            proof {
                assert(self.payers@.take(i as int + 1).drop_last() =~= self.payers@.take(i as int));
            }
            if self.payers[i].paid {
                n = n + 1;
            }
            i = i + 1;
        }
        proof {
            assert(self.payers@.take(i as int) =~= self.payers@);
        }
        n
    }
}

} // verus!
