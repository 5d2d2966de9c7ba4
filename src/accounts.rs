//! The accounts that each instruction reads and writes.
use vstd::prelude::*;
use crate::pubkey::Pubkey;

verus! {

/// An account's address and its balance in lamports.
#[derive(Clone, Copy, Debug)]
pub struct Wallet {
    pub key: Pubkey,
    pub lamports: u64,
}

/// Accounts of a job creation: where the new record is stored, and its creator.
#[derive(Clone, Copy, Debug)]
pub struct CreatePaymentJob {
    pub job: Pubkey,
    pub authority: Pubkey,
}

/// Accounts of a payment: the job's pool and the paying contributor.
#[derive(Clone, Copy, Debug)]
pub struct Pay {
    pub job: Wallet,
    pub payer: Wallet,
}

/// Accounts of a distribution: the job's pool, the caller, and the
/// recipients' accounts in the job's stored order.
#[derive(Clone, Debug)]
pub struct DistributeFunds {
    pub job: Wallet,
    pub authority: Pubkey,
    pub payees: Vec<Wallet>,
}

/// Mathematical model of a `DistributeFunds`.
pub ghost struct DistributeView {
    pub job: Wallet,
    pub authority: Pubkey,
    pub payees: Seq<Wallet>,
}

impl View for DistributeFunds {
    type V = DistributeView;

    open spec fn view(&self) -> DistributeView {
        DistributeView { job: self.job, authority: self.authority, payees: self.payees@ }
    }
}

} // verus!
