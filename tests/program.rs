use tab_pool::accounts::{CreatePaymentJob, DistributeFunds, Pay, Wallet};
use tab_pool::job::{ErrorCode, PaymentJob};
use tab_pool::program::{create_payment_job, distribute_funds, pay, NO_DEADLINE};
use tab_pool::pubkey::Pubkey;

fn key(n: u8) -> Pubkey {
    Pubkey::new_from_array([n; 32])
}

fn wallet(n: u8, lamports: u64) -> Wallet {
    Wallet { key: key(n), lamports }
}

const AUTHORITY: u8 = 200;
const JOB: u8 = 100;

fn make_job(payers: &[u8], payees: &[u8], amount: u64, deadline: Option<i64>) -> PaymentJob {
    let ctx = CreatePaymentJob { job: key(JOB), authority: key(AUTHORITY) };
    create_payment_job(
        &ctx,
        payers.iter().map(|n| key(*n)).collect(),
        payees.iter().map(|n| key(*n)).collect(),
        amount,
        deadline,
    )
    .unwrap()
}

fn pay_from(job: &mut PaymentJob, pool: &mut u64, payer: u8, balance: u64) -> (Result<(), ErrorCode>, u64) {
    let mut ctx = Pay { job: wallet(JOB, *pool), payer: wallet(payer, balance) };
    let r = pay(&mut ctx, job);
    *pool = ctx.job.lamports;
    (r, ctx.payer.lamports)
}

fn distribute_ctx(job: &PaymentJob, pool: u64, caller: u8) -> DistributeFunds {
    DistributeFunds {
        job: wallet(JOB, pool),
        authority: key(caller),
        payees: job.payees.iter().map(|k| Wallet { key: *k, lamports: 0 }).collect(),
    }
}

#[test]
fn create_starts_open_and_unpaid() {
    let job = make_job(&[1, 2, 3], &[7, 8], 10, Some(500));
    assert!(!job.closed);
    assert_eq!(job.payers.len(), 3);
    assert!(job.payers.iter().all(|w| !w.paid));
    assert_eq!(job.payers[1].wallet, key(2));
    assert_eq!(job.payees, vec![key(7), key(8)]);
    assert_eq!(job.amount, 10);
    assert_eq!(job.deadline, 500);
    assert_eq!(job.authority, key(AUTHORITY));
    assert_eq!(job.paid_count(), 0);
}

#[test]
fn create_without_deadline_never_expires() {
    let job = make_job(&[1], &[7], 10, None);
    assert_eq!(job.deadline, i64::MAX);
    assert_eq!(NO_DEADLINE, i64::MAX);
}

#[test]
fn create_rejects_invalid_inputs() {
    let ctx = CreatePaymentJob { job: key(JOB), authority: key(AUTHORITY) };
    let cases: Vec<(Vec<Pubkey>, Vec<Pubkey>, u64)> = vec![
        (vec![], vec![key(7)], 10),
        (vec![key(1)], vec![], 10),
        (vec![key(1)], vec![key(7)], 0),
        (vec![key(1), key(2), key(1)], vec![key(7)], 10),
    ];
    for (payers, payees, amount) in cases {
        let r = create_payment_job(&ctx, payers, payees, amount, None);
        assert_eq!(r.err(), Some(ErrorCode::InvalidInput));
    }
}

#[test]
fn payment_marks_paid_and_moves_amount() {
    let mut job = make_job(&[1, 2], &[7], 25, None);
    let mut pool = 0u64;
    let (r, left) = pay_from(&mut job, &mut pool, 2, 100);
    assert_eq!(r, Ok(()));
    assert!(job.payers[1].paid);
    assert!(!job.payers[0].paid);
    assert_eq!(left, 75);
    assert_eq!(pool, 25);
    assert_eq!(job.paid_count(), 1);
}

#[test]
fn second_payment_is_refused() {
    let mut job = make_job(&[1, 2], &[7], 25, None);
    let mut pool = 0u64;
    assert_eq!(pay_from(&mut job, &mut pool, 1, 100).0, Ok(()));
    let (r, left) = pay_from(&mut job, &mut pool, 1, 75);
    assert_eq!(r, Err(ErrorCode::AlreadyPaid));
    assert_eq!(left, 75);
    assert_eq!(pool, 25);
}

#[test]
fn stranger_payment_is_refused() {
    let mut job = make_job(&[1, 2], &[7], 25, None);
    let mut pool = 0u64;
    let (r, left) = pay_from(&mut job, &mut pool, 9, 100);
    assert_eq!(r, Err(ErrorCode::NotContributor));
    assert_eq!(left, 100);
    assert_eq!(pool, 0);
    assert!(job.payers.iter().all(|w| !w.paid));
}

#[test]
fn payment_without_funds_fails() {
    let mut job = make_job(&[1], &[7], 25, None);
    let mut pool = 0u64;
    let (r, left) = pay_from(&mut job, &mut pool, 1, 24);
    assert_eq!(r, Err(ErrorCode::TransferFailed));
    assert_eq!(left, 24);
    assert_eq!(pool, 0);
    assert!(!job.payers[0].paid);
}

#[test]
fn payment_overflowing_pool_fails() {
    let mut job = make_job(&[1], &[7], 25, None);
    let mut pool = u64::MAX - 10;
    let (r, _) = pay_from(&mut job, &mut pool, 1, 100);
    assert_eq!(r, Err(ErrorCode::TransferFailed));
    assert_eq!(pool, u64::MAX - 10);
}

#[test]
fn early_distribution_by_stranger_is_refused() {
    let mut job = make_job(&[1], &[7], 10, Some(1000));
    let mut pool = 0u64;
    pay_from(&mut job, &mut pool, 1, 10).0.unwrap();
    let mut ctx = distribute_ctx(&job, pool, 5);
    assert_eq!(distribute_funds(&mut ctx, &mut job, 999), Err(ErrorCode::BeforeDeadline));
    assert!(!job.closed);
    assert_eq!(ctx.job.lamports, 10);
    assert_eq!(ctx.payees[0].lamports, 0);
}

#[test]
fn late_distribution_by_anyone_succeeds() {
    let mut job = make_job(&[1], &[7], 10, Some(1000));
    let mut pool = 0u64;
    pay_from(&mut job, &mut pool, 1, 10).0.unwrap();
    let mut ctx = distribute_ctx(&job, pool, 5);
    assert_eq!(distribute_funds(&mut ctx, &mut job, 1000), Ok(()));
    assert!(job.closed);
    assert_eq!(ctx.payees[0].lamports, 10);
    assert_eq!(ctx.job.lamports, 0);
}

#[test]
fn authority_distributes_before_deadline() {
    let mut job = make_job(&[1], &[7], 10, None);
    let mut pool = 0u64;
    pay_from(&mut job, &mut pool, 1, 10).0.unwrap();
    let mut ctx = distribute_ctx(&job, pool, AUTHORITY);
    assert_eq!(distribute_funds(&mut ctx, &mut job, i64::MIN), Ok(()));
    assert!(job.closed);
    assert_eq!(ctx.payees[0].lamports, 10);
}

#[test]
fn stranger_cannot_force_job_without_deadline() {
    let mut job = make_job(&[1], &[7], 10, None);
    let mut ctx = distribute_ctx(&job, 0, 5);
    assert_eq!(distribute_funds(&mut ctx, &mut job, i64::MAX - 1), Err(ErrorCode::BeforeDeadline));
}

#[test]
fn unpaid_distribution_closes_without_transfers() {
    let mut job = make_job(&[1, 2], &[7, 8], 10, None);
    let mut ctx = distribute_ctx(&job, 5, AUTHORITY);
    assert_eq!(distribute_funds(&mut ctx, &mut job, 0), Ok(()));
    assert!(job.closed);
    assert_eq!(ctx.job.lamports, 5);
    assert!(ctx.payees.iter().all(|w| w.lamports == 0));
}

#[test]
fn three_payments_split_between_two() {
    let mut job = make_job(&[1, 2, 3], &[7, 8], 100, None);
    let mut pool = 0u64;
    for p in [1u8, 2, 3] {
        pay_from(&mut job, &mut pool, p, 1000).0.unwrap();
    }
    assert_eq!(pool, 300);
    let mut ctx = distribute_ctx(&job, pool, AUTHORITY);
    assert_eq!(distribute_funds(&mut ctx, &mut job, 0), Ok(()));
    assert!(job.closed);
    assert_eq!(ctx.payees[0].lamports, 150);
    assert_eq!(ctx.payees[1].lamports, 150);
    assert_eq!(ctx.job.lamports, 0);
}

#[test]
fn remainder_stays_in_pool() {
    let mut job = make_job(&[1], &[7, 8, 9], 100, None);
    let mut pool = 0u64;
    pay_from(&mut job, &mut pool, 1, 100).0.unwrap();
    let mut ctx = distribute_ctx(&job, pool, AUTHORITY);
    assert_eq!(distribute_funds(&mut ctx, &mut job, 0), Ok(()));
    assert!(ctx.payees.iter().all(|w| w.lamports == 33));
    assert_eq!(ctx.job.lamports, 1);
}

#[test]
fn extra_pool_balance_is_not_distributed() {
    let mut job = make_job(&[1], &[7], 100, None);
    let mut pool = 40u64;
    pay_from(&mut job, &mut pool, 1, 100).0.unwrap();
    let mut ctx = distribute_ctx(&job, pool, AUTHORITY);
    assert_eq!(distribute_funds(&mut ctx, &mut job, 0), Ok(()));
    assert_eq!(ctx.payees[0].lamports, 100);
    assert_eq!(ctx.job.lamports, 40);
}

#[test]
fn share_below_one_lamport_closes_without_transfers() {
    let mut job = make_job(&[1], &[7, 8, 9], 2, None);
    let mut pool = 0u64;
    pay_from(&mut job, &mut pool, 1, 2).0.unwrap();
    let mut ctx = distribute_ctx(&job, pool, AUTHORITY);
    assert_eq!(distribute_funds(&mut ctx, &mut job, 0), Ok(()));
    assert!(job.closed);
    assert_eq!(ctx.job.lamports, 2);
    assert!(ctx.payees.iter().all(|w| w.lamports == 0));
}

#[test]
fn short_pool_is_insufficient() {
    let mut job = make_job(&[1, 2], &[7], 100, None);
    let mut pool = 0u64;
    pay_from(&mut job, &mut pool, 1, 100).0.unwrap();
    pay_from(&mut job, &mut pool, 2, 100).0.unwrap();
    let mut ctx = distribute_ctx(&job, 150, AUTHORITY);
    assert_eq!(distribute_funds(&mut ctx, &mut job, 0), Err(ErrorCode::InsufficientFunds));
    assert!(!job.closed);
    assert_eq!(ctx.job.lamports, 150);
}

#[test]
fn overflowing_recipient_stops_transfers_after_closing() {
    let mut job = make_job(&[1], &[7, 8, 9], 30, None);
    let mut pool = 0u64;
    pay_from(&mut job, &mut pool, 1, 30).0.unwrap();
    let mut ctx = distribute_ctx(&job, pool, AUTHORITY);
    ctx.payees[1].lamports = u64::MAX - 5;
    assert_eq!(distribute_funds(&mut ctx, &mut job, 0), Err(ErrorCode::TransferFailed));
    assert!(job.closed);
    assert_eq!(ctx.payees[0].lamports, 10);
    assert_eq!(ctx.payees[1].lamports, u64::MAX - 5);
    assert_eq!(ctx.payees[2].lamports, 0);
    assert_eq!(ctx.job.lamports, 20);
}

#[test]
fn closed_job_refuses_everything() {
    let mut job = make_job(&[1, 2], &[7], 10, None);
    let mut pool = 0u64;
    pay_from(&mut job, &mut pool, 1, 10).0.unwrap();
    let mut ctx = distribute_ctx(&job, pool, AUTHORITY);
    distribute_funds(&mut ctx, &mut job, 0).unwrap();
    let mut pool = ctx.job.lamports;
    let (r, left) = pay_from(&mut job, &mut pool, 2, 10);
    assert_eq!(r, Err(ErrorCode::AlreadyClosed));
    assert_eq!(left, 10);
    assert!(!job.payers[1].paid);
    let mut again = distribute_ctx(&job, pool, AUTHORITY);
    assert_eq!(distribute_funds(&mut again, &mut job, 0), Err(ErrorCode::AlreadyClosed));
    assert!(again.payees.iter().all(|w| w.lamports == 0));
    assert!(job.closed);
}

#[test]
fn full_round_two_of_three_pay() {
    // contributors A, B, C; recipients X, Y; 10 each
    let mut job = make_job(&[1, 2, 3], &[7, 8], 10, None);
    let mut pool = 0u64;
    pay_from(&mut job, &mut pool, 1, 50).0.unwrap();
    pay_from(&mut job, &mut pool, 2, 50).0.unwrap();
    assert_eq!(pool, 20);
    let mut ctx = distribute_ctx(&job, pool, AUTHORITY);
    assert_eq!(distribute_funds(&mut ctx, &mut job, 0), Ok(()));
    assert_eq!(ctx.payees[0].lamports, 10);
    assert_eq!(ctx.payees[1].lamports, 10);
    assert!(job.closed);
    let mut pool = ctx.job.lamports;
    assert_eq!(pay_from(&mut job, &mut pool, 3, 50).0, Err(ErrorCode::AlreadyClosed));
}

#[test]
fn job_space_counts_both_lists() {
    assert_eq!(PaymentJob::space(0, 0), 65);
    assert_eq!(PaymentJob::space(3, 2), 65 + 3 * 33 + 2 * 32);
}

#[test]
fn pubkeys_compare_by_every_byte() {
    let mut b = [4u8; 32];
    assert_eq!(Pubkey::new_from_array(b), key(4));
    b[31] = 5;
    assert_ne!(Pubkey::new_from_array(b), key(4));
    assert_eq!(Pubkey::new_from_array(b).to_bytes(), b);
}
