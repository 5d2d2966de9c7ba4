//! What holds across the instructions, proved over their step relations.
use vstd::prelude::*;
use crate::accounts::{DistributeView, Pay};
use crate::job::{
    contributor_index, count_paid, is_contributor, wallets_of, ErrorCode, JobView, WalletStatus,
};
use crate::program::{
    creation_valid, distribute_error, distribute_step, new_job, pay_step, per_recipient,
};
use crate::pubkey::Pubkey;

verus! {

/// Marking an unpaid contributor as paid raises the paid count by one.
pub proof fn lemma_count_paid_mark(s: Seq<WalletStatus>, i: int, k: Pubkey)
    requires
        0 <= i < s.len(),
        !s[i].paid,
    ensures
        count_paid(s.update(i, WalletStatus { wallet: k, paid: true })) == count_paid(s) + 1,
    decreases s.len(),
{
    let t = s.update(i, WalletStatus { wallet: k, paid: true });
    if i == s.len() - 1 {
        assert(t.drop_last() =~= s.drop_last());
    } else {
        lemma_count_paid_mark(s.drop_last(), i, k);
        assert(t.drop_last() =~= s.drop_last().update(i, WalletStatus { wallet: k, paid: true }));
    }
}

/// A sequence of statuses none of which is paid has a paid count of zero.
pub proof fn lemma_count_paid_none(s: Seq<WalletStatus>)
    requires
        forall|i: int| 0 <= i < s.len() ==> !(#[trigger] s[i]).paid,
    ensures
        count_paid(s) == 0,
    decreases s.len(),
{
    if s.len() > 0 {
        lemma_count_paid_none(s.drop_last());
    }
}

/// A job created from valid inputs is well formed, open, and has no payments.
pub proof fn lemma_created_job_is_open_and_unpaid(
    authority: Pubkey,
    payers: Seq<Pubkey>,
    payees: Seq<Pubkey>,
    amount: u64,
    deadline: Option<i64>,
)
    requires
        creation_valid(payers, payees, amount),
    ensures
        new_job(authority, payers, payees, amount, deadline).wf(),
        !new_job(authority, payers, payees, amount, deadline).closed,
        forall|i: int|
            0 <= i < payers.len() ==> !(#[trigger] new_job(
                authority,
                payers,
                payees,
                amount,
                deadline,
            ).payers[i]).paid,
        count_paid(new_job(authority, payers, payees, amount, deadline).payers) == 0,
{
    let j = new_job(authority, payers, payees, amount, deadline);
    assert(wallets_of(j.payers) =~= payers);
    lemma_count_paid_none(j.payers);
}

/// Each of the four faults of creation inputs makes them invalid.
pub proof fn lemma_creation_faults(payers: Seq<Pubkey>, payees: Seq<Pubkey>, amount: u64, i: int, j: int)
    ensures
        payers.len() == 0 ==> !creation_valid(payers, payees, amount),
        payees.len() == 0 ==> !creation_valid(payers, payees, amount),
        amount == 0 ==> !creation_valid(payers, payees, amount),
        0 <= i < j < payers.len() && payers[i] == payers[j] ==> !creation_valid(payers, payees, amount),
{
}

/// A successful payment marks the payer as paid, raises the paid count by one,
/// and moves exactly the amount due from the payer into the pool.
pub proof fn lemma_payment_moves_amount_due(
    job: JobView,
    ctx: Pay,
    job2: JobView,
    ctx2: Pay,
)
    requires
        job.wf(),
        pay_step(job, ctx, job2, ctx2, Ok(())),
    ensures
        job2.wf(),
        is_contributor(job2.payers, ctx.payer.key),
        job2.payers[contributor_index(job2.payers, ctx.payer.key)].paid,
        count_paid(job2.payers) == count_paid(job.payers) + 1,
        ctx2.payer.key == ctx.payer.key,
        ctx2.payer.lamports == ctx.payer.lamports - job.amount,
        ctx2.job.lamports == ctx.job.lamports + job.amount,
{
    let k = ctx.payer.key;
    let c = contributor_index(job.payers, k);
    assert(wallets_of(job2.payers) =~= wallets_of(job.payers));
    assert(job2.payers[c].wallet == k);
    let c2 = contributor_index(job2.payers, k);
    assert(wallets_of(job2.payers)[c2] == wallets_of(job2.payers)[c]);
    lemma_count_paid_mark(job.payers, c, k);
}

/// A second payment by a contributor that has paid fails with `AlreadyPaid`
/// and changes neither the record nor any balance.
pub proof fn lemma_second_payment_refused(
    job: JobView,
    ctx: Pay,
    job1: JobView,
    ctx1: Pay,
    again: Pay,
    job2: JobView,
    ctx2: Pay,
    r2: Result<(), ErrorCode>,
)
    requires
        job.wf(),
        pay_step(job, ctx, job1, ctx1, Ok(())),
        again.payer.key == ctx.payer.key,
        pay_step(job1, again, job2, ctx2, r2),
    ensures
        r2 == Err::<(), ErrorCode>(ErrorCode::AlreadyPaid),
        job2 == job1,
        ctx2 == again,
{
    lemma_payment_moves_amount_due(job, ctx, job1, ctx1);
}

/// On an open job, a payment by an address that is not a contributor fails
/// with `NotContributor` and changes nothing.
pub proof fn lemma_stranger_payment_refused(
    job: JobView,
    ctx: Pay,
    job2: JobView,
    ctx2: Pay,
    r: Result<(), ErrorCode>,
)
    requires
        !job.closed,
        !is_contributor(job.payers, ctx.payer.key),
        pay_step(job, ctx, job2, ctx2, r),
    ensures
        r == Err::<(), ErrorCode>(ErrorCode::NotContributor),
        job2 == job,
        ctx2 == ctx,
{
}

/// On an open job, someone other than the authority cannot distribute before
/// the deadline, and nothing changes.
pub proof fn lemma_early_distribution_refused(
    job: JobView,
    ctx: DistributeView,
    now: i64,
    job2: JobView,
    ctx2: DistributeView,
    r: Result<(), ErrorCode>,
)
    requires
        !job.closed,
        ctx.authority != job.authority,
        now < job.deadline,
        distribute_step(job, ctx, now, job2, ctx2, r),
    ensures
        r == Err::<(), ErrorCode>(ErrorCode::BeforeDeadline),
        job2 == job,
        ctx2 == ctx,
{
}

/// For the authority, the time plays no part: a distribution never fails with
/// `BeforeDeadline`, the outcome is the same at any two times, and it succeeds
/// and closes the job whenever the pool covers the payments and no recipient's
/// balance would overflow.
pub proof fn lemma_authority_distributes_any_time(
    job: JobView,
    ctx: DistributeView,
    now: i64,
    other: i64,
    job2: JobView,
    ctx2: DistributeView,
    r: Result<(), ErrorCode>,
)
    requires
        !job.closed,
        ctx.authority == job.authority,
        distribute_step(job, ctx, now, job2, ctx2, r),
    ensures
        r != Err::<(), ErrorCode>(ErrorCode::BeforeDeadline),
        distribute_error(job, ctx.authority, now, ctx.job.lamports) == distribute_error(
            job,
            ctx.authority,
            other,
            ctx.job.lamports,
        ),
        distribute_step(job, ctx, other, job2, ctx2, r),
        job.total_collected() <= ctx.job.lamports && (forall|i: int|
            0 <= i < ctx.payees.len() ==> #[trigger] ctx.payees[i].lamports + per_recipient(
                job,
                ctx.job.lamports,
            ) <= u64::MAX) ==> r is Ok && job2.closed,
{
}

/// Distributing a job that nobody has paid into closes it and moves nothing.
pub proof fn lemma_unpaid_distribution_closes(
    job: JobView,
    ctx: DistributeView,
    now: i64,
    job2: JobView,
    ctx2: DistributeView,
    r: Result<(), ErrorCode>,
)
    requires
        job.wf(),
        !job.closed,
        ctx.authority == job.authority || now >= job.deadline,
        count_paid(job.payers) == 0,
        distribute_step(job, ctx, now, job2, ctx2, r),
    ensures
        r is Ok,
        job2.closed,
        ctx2 == ctx,
{
    assert(job.total_collected() == 0);
    assert(per_recipient(job, ctx.job.lamports) == 0) by (nonlinear_arith)
        requires
            job.total_collected() == 0,
            job.payees.len() > 0,
            per_recipient(job, ctx.job.lamports) == (job.total_collected() as int) / (job.payees.len() as int),
    ;
}

/// On a closed job, payments and distributions fail with `AlreadyClosed` and change nothing.
pub proof fn lemma_closed_job_refuses_everything(
    job: JobView,
    pay: Pay,
    pjob: JobView,
    pctx: Pay,
    pr: Result<(), ErrorCode>,
    dist: DistributeView,
    now: i64,
    djob: JobView,
    dctx: DistributeView,
    dr: Result<(), ErrorCode>,
)
    requires
        job.closed,
        pay_step(job, pay, pjob, pctx, pr),
        distribute_step(job, dist, now, djob, dctx, dr),
    ensures
        pr == Err::<(), ErrorCode>(ErrorCode::AlreadyClosed),
        pjob == job,
        pctx == pay,
        dr == Err::<(), ErrorCode>(ErrorCode::AlreadyClosed),
        djob == job,
        dctx == dist,
{
}

/// Neither instruction reopens a closed job, clears a contributor's payment,
/// or changes who the contributors and recipients are; both keep the record
/// well formed.
pub proof fn lemma_steps_keep_record_invariant(
    job: JobView,
    pay: Pay,
    pjob: JobView,
    pctx: Pay,
    pr: Result<(), ErrorCode>,
    dist: DistributeView,
    now: i64,
    djob: JobView,
    dctx: DistributeView,
    dr: Result<(), ErrorCode>,
)
    requires
        job.wf(),
        pay_step(job, pay, pjob, pctx, pr),
        distribute_step(job, dist, now, djob, dctx, dr),
    ensures
        pjob.wf(),
        djob.wf(),
        job.closed ==> pjob.closed && djob.closed,
        wallets_of(pjob.payers) == wallets_of(job.payers),
        djob.payers == job.payers,
        pjob.payees == job.payees && djob.payees == job.payees,
        forall|i: int| 0 <= i < job.payers.len() && #[trigger] job.payers[i].paid ==> pjob.payers[i].paid,
{
    if pr is Ok {
        assert(wallets_of(pjob.payers) =~= wallets_of(job.payers));
    }
}

} // verus!
