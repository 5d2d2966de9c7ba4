//! Text shown to people: deadlines and payment request links.
use vstd::prelude::*;
use crate::pubkey::Pubkey;

verus! {

/// The character of decimal digit `d`.
pub open spec fn digit_char(d: nat) -> char {
    if d == 0 {
        '0'
    } else if d == 1 {
        '1'
    } else if d == 2 {
        '2'
    } else if d == 3 {
        '3'
    } else if d == 4 {
        '4'
    } else if d == 5 {
        '5'
    } else if d == 6 {
        '6'
    } else if d == 7 {
        '7'
    } else if d == 8 {
        '8'
    } else {
        '9'
    }
}

/// Decimal digits of `n`, without leading zeros.
pub open spec fn decimal(n: nat) -> Seq<char>
    decreases n,
{
    if n < 10 {
        seq![digit_char(n)]
    } else {
        decimal(n / 10).push(digit_char(n % 10))
    }
}

/// Decimal text of `n`, with a leading `-` when negative.
pub open spec fn signed_decimal(n: int) -> Seq<char> {
    if n < 0 {
        seq!['-'] + decimal((-n) as nat)
    } else {
        decimal(n as nat)
    }
}

fn digit_text(d: u64) -> (r: &'static str)
    requires
        d < 10,
    ensures
        r@ == seq![digit_char(d as nat)],
{
    proof {
        reveal_strlit("0");
        reveal_strlit("1");
        reveal_strlit("2");
        reveal_strlit("3");
        reveal_strlit("4");
        reveal_strlit("5");
        reveal_strlit("6");
        reveal_strlit("7");
        reveal_strlit("8");
        reveal_strlit("9");
    }
    if d == 0 {
        "0"
    } else if d == 1 {
        "1"
    } else if d == 2 {
        "2"
    } else if d == 3 {
        "3"
    } else if d == 4 {
        "4"
    } else if d == 5 {
        "5"
    } else if d == 6 {
        "6"
    } else if d == 7 {
        "7"
    } else if d == 8 {
        "8"
    } else {
        "9"
    }
}

/// Decimal text of an unsigned number.
pub fn decimal_text(n: u64) -> (r: String)
    ensures
        r@ == decimal(n as nat),
{
    let mut v: u64 = n;
    let mut tail = String::from_str("");
    proof {
        reveal_strlit("");
    }
    while v >= 10
        invariant
            decimal(n as nat) == decimal(v as nat) + tail@,
        decreases v,
    {
        let d = digit_text(v % 10);
        let next = String::from_str(d).concat(tail.as_str());
        proof {
            assert(decimal(v as nat) == decimal((v / 10) as nat).push(digit_char((v % 10) as nat)));
            assert(decimal(v as nat) + tail@ =~= decimal((v / 10) as nat) + next@);
        }
        tail = next;
        v = v / 10;
    }
    let r = String::from_str(digit_text(v)).concat(tail.as_str());
    proof {
        assert(r@ =~= decimal(v as nat) + tail@);
    }
    r
}

/// Decimal text of a signed number.
pub fn signed_decimal_text(n: i64) -> (r: String)
    ensures
        r@ == signed_decimal(n as int),
{
    if n < 0 {
        let magnitude = (-(n as i128)) as u64;
        let digits = decimal_text(magnitude);
        proof {
            reveal_strlit("-");
        }
        String::from_str("-").concat(digits.as_str())
    } else {
        decimal_text(n as u64)
    }
}

/// How a stored deadline reads: the sentinel for "none", or its timestamp.
pub open spec fn deadline_text(deadline: i64) -> Seq<char> {
    if deadline == i64::MAX {
        "No deadline"@
    } else {
        "Unix timestamp: "@ + signed_decimal(deadline as int)
    }
}

/// Describes a stored deadline.
pub fn format_deadline(deadline: i64) -> (r: String)
    ensures
        r@ == deadline_text(deadline),
{
    if deadline == i64::MAX {
        String::from_str("No deadline")
    } else {
        String::from_str("Unix timestamp: ").concat(signed_decimal_text(deadline).as_str())
    }
}

/// The base58 text that solana-sdk writes for a key.
pub uninterp spec fn address_text(bytes: Seq<u8>) -> Seq<char>;

/// What urlencoding makes of a text.
pub uninterp spec fn url_encoded(s: Seq<char>) -> Seq<char>;

/// Relies on solana-sdk's `Display` for `Pubkey`: the base58 text of the key's bytes.
#[verifier::external_body]
fn address_to_text(k: &Pubkey) -> (r: String)
    ensures
        r@ == address_text(k.bytes@),
{
    solana_sdk::pubkey::Pubkey::new_from_array(k.bytes).to_string()
}

/// Relies on `urlencoding::encode`: percent-encodes every byte of the text but
/// ASCII letters, digits and `-`, `_`, `.`, `~`.
#[verifier::external_body]
fn url_encode(s: &str) -> (r: String)
    ensures
        r@ == url_encoded(s@),
{
    urlencoding::encode(s).into_owned()
}

/// A payment request link for a job, from its parts.
pub open spec fn uri_of(job: Seq<char>, amount: Seq<char>, message: Seq<char>) -> Seq<char> {
    "solana:"@ + job + "?amount="@ + amount + "&reference="@ + job
        + "&label=Tab Payment&message="@ + message
}

/// The message that a payment request link carries, before encoding.
pub open spec fn message_of(job: Seq<char>) -> Seq<char> {
    "Payment to job "@ + job
}

/// Builds a payment request link from the job's address text, the amount
/// text and the already encoded message.
pub fn payment_uri_from(job: &str, amount: &str, message: &str) -> (r: String)
    ensures
        r@ == uri_of(job@, amount@, message@),
{
    let r = String::from_str("solana:").concat(job).concat("?amount=").concat(amount).concat(
        "&reference=",
    ).concat(job).concat("&label=Tab Payment&message=").concat(message);
    r
}

/// The payment request link for the job at `job`, asking for `amount`
/// (a decimal amount of SOL).
pub fn payment_uri(job: &Pubkey, amount: &str) -> (r: String)
    ensures
        r@ == uri_of(
            address_text(job.bytes@),
            amount@,
            url_encoded(message_of(address_text(job.bytes@))),
        ),
{
    let job_text = address_to_text(job);
    let message = String::from_str("Payment to job ").concat(job_text.as_str());
    let encoded = url_encode(message.as_str());
    payment_uri_from(job_text.as_str(), amount, encoded.as_str())
}

} // verus!
