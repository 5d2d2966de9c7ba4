//! The three instructions of a payment job: create, pay, distribute.
use vstd::prelude::*;
use crate::accounts::{CreatePaymentJob, DistributeFunds, DistributeView, Pay, Wallet};
use crate::job::{
    contributor_index, count_paid, is_contributor, keys_unique, wallets_of, ErrorCode, JobView,
    PaymentJob, WalletStatus,
};
use crate::pubkey::Pubkey;

verus! {

/// Deadline stored for a job created without one: never reached.
pub const NO_DEADLINE: i64 = 9223372036854775807;

/// The inputs that a job may be created from.
pub open spec fn creation_valid(payers: Seq<Pubkey>, payees: Seq<Pubkey>, amount: u64) -> bool {
    &&& payers.len() > 0
    &&& payees.len() > 0
    &&& amount > 0
    &&& keys_unique(payers)
}

/// The record that a valid creation yields.
pub open spec fn new_job(
    authority: Pubkey,
    payers: Seq<Pubkey>,
    payees: Seq<Pubkey>,
    amount: u64,
    deadline: Option<i64>,
) -> JobView {
    JobView {
        authority,
        amount,
        deadline: match deadline {
            Some(d) => d,
            None => NO_DEADLINE,
        },
        closed: false,
        payers: payers.map_values(|k: Pubkey| WalletStatus { wallet: k, paid: false }),
        payees,
    }
}

/// Creates a job record from its contributors, recipients, amount and deadline.
pub fn create_payment_job(
    ctx: &CreatePaymentJob,
    payers: Vec<Pubkey>,
    payees: Vec<Pubkey>,
    amount: u64,
    deadline: Option<i64>,
) -> (r: Result<PaymentJob, ErrorCode>)
    ensures
        r is Ok <==> creation_valid(payers@, payees@, amount),
        r matches Ok(j) ==> j@ == new_job(ctx.authority, payers@, payees@, amount, deadline),
        r matches Err(e) ==> e == ErrorCode::InvalidInput,
{
    if payers.len() == 0 || payees.len() == 0 || amount == 0 {
        return Err(ErrorCode::InvalidInput);
    }
    let mut statuses: Vec<WalletStatus> = Vec::new();
    let mut i: usize = 0;
    while i < payers.len()
        invariant
            i <= payers@.len(),
            keys_unique(payers@.take(i as int)),
            statuses@ == payers@.take(i as int).map_values(
                |k: Pubkey| WalletStatus { wallet: k, paid: false },
            ),
        decreases payers@.len() - i,
    {
        let mut j: usize = 0;
        while j < i
            invariant
                i < payers@.len(),
                j <= i,
                forall|m: int| 0 <= m < j ==> payers@[m] != payers@[i as int],
            decreases i - j,
        {
            if payers[j] == payers[i] {
                proof {
                    assert(!keys_unique(payers@));
                }
                return Err(ErrorCode::InvalidInput);
            }
            j = j + 1;
        }
        statuses.push(WalletStatus { wallet: payers[i], paid: false });
        proof {
            assert(payers@.take(i as int + 1).drop_last() =~= payers@.take(i as int));
            assert(statuses@ =~= payers@.take(i as int + 1).map_values(
                |k: Pubkey| WalletStatus { wallet: k, paid: false },
            ));
        }
        i = i + 1;
    }
    proof {
        assert(payers@.take(i as int) =~= payers@);
    }
    let job = PaymentJob {
        authority: ctx.authority,
        amount,
        deadline: match deadline {
            Some(d) => d,
            None => NO_DEADLINE,
        },
        closed: false,
        payers: statuses,
        payees,
    };
    Ok(job)
}

/// Why a payment is refused, if it is.
pub open spec fn pay_error(job: JobView, ctx: Pay) -> Option<ErrorCode> {
    if job.closed {
        Some(ErrorCode::AlreadyClosed)
    } else if !is_contributor(job.payers, ctx.payer.key) {
        Some(ErrorCode::NotContributor)
    } else if job.payers[contributor_index(job.payers, ctx.payer.key)].paid {
        Some(ErrorCode::AlreadyPaid)
    } else if ctx.payer.lamports < job.amount || ctx.job.lamports + job.amount > u64::MAX {
        Some(ErrorCode::TransferFailed)
    } else {
        None
    }
}

/// The record after contributor `k` has paid.
pub open spec fn paid_job(job: JobView, k: Pubkey) -> JobView {
    JobView {
        payers: job.payers.update(
            contributor_index(job.payers, k),
            WalletStatus { wallet: k, paid: true },
        ),
        ..job
    }
}

/// The accounts after the payer's share has moved into the pool.
pub open spec fn paid_accounts(job: JobView, ctx: Pay) -> Pay {
    Pay {
        job: Wallet { key: ctx.job.key, lamports: (ctx.job.lamports + job.amount) as u64 },
        payer: Wallet { key: ctx.payer.key, lamports: (ctx.payer.lamports - job.amount) as u64 },
    }
}

/// One payment: from record `job` and accounts `ctx` to `job2`, `ctx2` and result `r`.
pub open spec fn pay_step(
    job: JobView,
    ctx: Pay,
    job2: JobView,
    ctx2: Pay,
    r: Result<(), ErrorCode>,
) -> bool {
    match pay_error(job, ctx) {
        Some(e) => r == Err::<(), ErrorCode>(e) && job2 == job && ctx2 == ctx,
        None => r is Ok && job2 == paid_job(job, ctx.payer.key) && ctx2 == paid_accounts(job, ctx),
    }
}

/// Moves `amount` lamports from `from` to `to`, or nothing at all.
fn transfer(from: &mut Wallet, to: &mut Wallet, amount: u64) -> (r: Result<(), ErrorCode>)
    ensures
        r is Ok <==> old(from).lamports >= amount && old(to).lamports + amount <= u64::MAX,
        r is Ok ==> final(from).lamports == old(from).lamports - amount
            && final(to).lamports == old(to).lamports + amount,
        r is Err ==> r == Err::<(), ErrorCode>(ErrorCode::TransferFailed)
            && *final(from) == *old(from) && *final(to) == *old(to),
        final(from).key == old(from).key,
        final(to).key == old(to).key,
{
    if from.lamports < amount {
        return Err(ErrorCode::TransferFailed);
    }
    match to.lamports.checked_add(amount) {
        None => Err(ErrorCode::TransferFailed),
        Some(v) => {
            from.lamports = from.lamports - amount;
            to.lamports = v;
            Ok(())
        },
    }
}

/// Records the payment of the contributor `ctx.payer` and moves its share into the pool.
pub fn pay(ctx: &mut Pay, job: &mut PaymentJob) -> (r: Result<(), ErrorCode>)
    requires
        old(job)@.wf(),
    ensures
        pay_step(old(job)@, *old(ctx), final(job)@, *final(ctx), r),
        final(job)@.wf(),
{
    if job.closed {
        return Err(ErrorCode::AlreadyClosed);
    }
    let payer_key = ctx.payer.key;
    let mut i: usize = 0;
    while i < job.payers.len()
        invariant
            i <= job.payers@.len(),
            forall|m: int| 0 <= m < i ==> job.payers@[m].wallet != payer_key,
        ensures
            i <= job.payers@.len(),
            forall|m: int| 0 <= m < i ==> job.payers@[m].wallet != payer_key,
            i < job.payers@.len() ==> job.payers@[i as int].wallet == payer_key,
        decreases job.payers@.len() - i,
    {
        if job.payers[i].wallet == payer_key {
            break;
        }
        i = i + 1;
    }
    if i == job.payers.len() {
        return Err(ErrorCode::NotContributor);
    }
    proof {
        let c = contributor_index(job.payers@, payer_key);
        assert(wallets_of(job.payers@)[i as int] == payer_key);
        assert(wallets_of(job.payers@)[c] == payer_key);
    }
    if job.payers[i].paid {
        return Err(ErrorCode::AlreadyPaid);
    }
    let amount = job.amount;
    let res = transfer(&mut ctx.payer, &mut ctx.job, amount);
    if res.is_err() {
        return Err(ErrorCode::TransferFailed);
    }
    job.payers.set(i, WalletStatus { wallet: payer_key, paid: true });
    proof {
        assert(wallets_of(job.payers@) =~= wallets_of(old(job).payers@));
    }
    Ok(())
}

/// Why a distribution is refused, if it is; `pool` is the job's balance.
pub open spec fn distribute_error(job: JobView, caller: Pubkey, now: i64, pool: u64) -> Option<
    ErrorCode,
> {
    if job.closed {
        Some(ErrorCode::AlreadyClosed)
    } else if caller != job.authority && now < job.deadline {
        Some(ErrorCode::BeforeDeadline)
    } else if job.total_collected() > pool {
        Some(ErrorCode::InsufficientFunds)
    } else {
        None
    }
}

/// What each recipient receives: the collected total, clamped to the pool,
/// split evenly with the remainder left in the pool.
pub open spec fn per_recipient(job: JobView, pool: u64) -> nat {
    let total = job.total_collected();
    let distributable = if total <= pool {
        total
    } else {
        pool as nat
    };
    distributable / job.payees.len()
}

/// `after` is `before` with the first `k` accounts credited `amount` each.
pub open spec fn credited(before: Seq<Wallet>, after: Seq<Wallet>, k: int, amount: nat) -> bool {
    &&& after.len() == before.len()
    &&& forall|i: int|
        0 <= i < before.len() ==> (#[trigger] after[i]).key == before[i].key && after[i].lamports
            == if i < k {
            before[i].lamports + amount
        } else {
            before[i].lamports as int
        }
}

/// One distribution at time `now`: from record `job` and accounts `ctx` to
/// `job2`, `ctx2` and result `r`.
pub open spec fn distribute_step(
    job: JobView,
    ctx: DistributeView,
    now: i64,
    job2: JobView,
    ctx2: DistributeView,
    r: Result<(), ErrorCode>,
) -> bool {
    match distribute_error(job, ctx.authority, now, ctx.job.lamports) {
        Some(e) => r == Err::<(), ErrorCode>(e) && job2 == job && ctx2 == ctx,
        None => {
            let per = per_recipient(job, ctx.job.lamports);
            let n = ctx.payees.len();
            &&& job2 == JobView { closed: true, ..job }
            &&& ctx2.authority == ctx.authority
            &&& ctx2.job.key == ctx.job.key
            &&& if per == 0 {
                r is Ok && ctx2 == ctx
            } else {
                &&& r is Ok <==> forall|i: int|
                    0 <= i < n ==> #[trigger] ctx.payees[i].lamports + per <= u64::MAX
                &&& r is Ok ==> credited(ctx.payees, ctx2.payees, n as int, per)
                    && ctx2.job.lamports == ctx.job.lamports - n * per
                &&& r is Err ==> r == Err::<(), ErrorCode>(ErrorCode::TransferFailed) && exists|k: int|
                    0 <= k < n && ctx.payees[k].lamports + per > u64::MAX && credited(
                        ctx.payees,
                        ctx2.payees,
                        k,
                        per,
                    ) && ctx2.job.lamports == ctx.job.lamports - k * per
            }
        },
    }
}

/// Closes the job and splits its pool evenly across the recipients.
pub fn distribute_funds(ctx: &mut DistributeFunds, job: &mut PaymentJob, now: i64) -> (r: Result<
    (),
    ErrorCode,
>)
    requires
        old(job)@.wf(),
        old(ctx).payees@.len() == old(job).payees@.len(),
        forall|i: int|
            0 <= i < old(ctx).payees@.len() ==> (#[trigger] old(ctx).payees@[i]).key
                == old(job).payees@[i],
    ensures
        distribute_step(old(job)@, old(ctx)@, now, final(job)@, final(ctx)@, r),
        final(job)@.wf(),
{
    if job.closed {
        return Err(ErrorCode::AlreadyClosed);
    }
    if !(ctx.authority == job.authority) && now < job.deadline {
        return Err(ErrorCode::BeforeDeadline);
    }
    let paid = job.paid_count();
    let pool = ctx.job.lamports;
    let total: u64 = match (paid as u64).checked_mul(job.amount) {
        Some(t) => t,
        None => {
            return Err(ErrorCode::InsufficientFunds);
        },
    };
    if total > pool {
        return Err(ErrorCode::InsufficientFunds);
    }
    job.closed = true;
    let distributable = if total <= pool {
        total
    } else {
        pool
    };
    let n = ctx.payees.len();
    let per = distributable / (n as u64);
    proof {
        assert(paid as nat * job.amount as nat == old(job)@.total_collected());
    }
    if per == 0 {
        return Ok(());
    }
    proof {
        assert(per * n <= distributable) by (nonlinear_arith)
            requires
                per as int == (distributable as int) / (n as int),
                n > 0,
        ;
    }
    let ghost before = ctx.payees@;
    let ghost pool0 = ctx.job.lamports;
    let mut i: usize = 0;
    while i < n
        invariant
            n == before.len(),
            n > 0,
            per > 0,
            per * n <= pool0,
            i <= n,
            credited(before, ctx.payees@, i as int, per as nat),
            ctx.job.lamports == pool0 - i * per,
            ctx.job.key == old(ctx).job.key,
            ctx.authority == old(ctx).authority,
            before == old(ctx).payees@,
            pool0 == old(ctx).job.lamports,
            per == per_recipient(old(job)@, pool0),
            job@ == (JobView { closed: true, ..old(job)@ }),
            old(job)@.wf(),
            distribute_error(old(job)@, old(ctx).authority, now, pool0) is None,
        decreases n - i,
    {
        proof {
            assert(i * per + per <= n * per) by (nonlinear_arith)
                requires
                    i < n,
            ;
        }
        let w = ctx.payees[i];
        match w.lamports.checked_add(per) {
            None => {
                proof {
                    assert(old(ctx)@.payees[i as int].lamports + per > u64::MAX);
                    assert(credited(old(ctx)@.payees, ctx@.payees, i as int, per as nat));
                    assert(ctx@.job.lamports == old(ctx)@.job.lamports - i * per);
                }
                return Err(ErrorCode::TransferFailed);
            },
            Some(v) => {
                ctx.payees.set(i, Wallet { key: w.key, lamports: v });
                ctx.job.lamports = ctx.job.lamports - per;
                proof {
                    assert((i + 1) * per == i * per + per) by (nonlinear_arith);
                }
            },
        }
        i = i + 1;
    }
    proof {
        assert forall|k: int| 0 <= k < n implies #[trigger] before[k].lamports + per <= u64::MAX by {
            assert(ctx.payees@[k].lamports == before[k].lamports + per);
        }
    }
    Ok(())
}

} // verus!
