//! Account identities and their text form.
use vstd::prelude::*;
use vstd::string::*;

verus! {

/// A 32-byte account address.
#[derive(Clone, Copy, Debug)]
pub struct Pubkey {
    pub bytes: [u8; 32],
}

impl Pubkey {
    pub fn new_from_array(bytes: [u8; 32]) -> (r: Pubkey)
        ensures
            r.bytes == bytes,
    {
        Pubkey { bytes }
    }

    pub fn to_bytes(&self) -> (r: [u8; 32])
        ensures
            r == self.bytes,
    {
        self.bytes
    }
}

impl PartialEq for Pubkey {
    fn eq(&self, o: &Pubkey) -> (r: bool) {
        let mut i: usize = 0;
        while i < 32
            invariant
                i <= 32,
                forall|k: int| 0 <= k < i ==> self.bytes[k] == o.bytes[k],
            decreases 32 - i,
        {
            if self.bytes[i] != o.bytes[i] {
                return false;
            }
            i = i + 1;
        }
        proof {
            assert(self.bytes =~= o.bytes);
        }
        true
    }
}

impl vstd::std_specs::cmp::PartialEqSpecImpl for Pubkey {
    open spec fn obeys_eq_spec() -> bool {
        true
    }

    open spec fn eq_spec(&self, o: &Pubkey) -> bool {
        *self == *o
    }
}

impl Eq for Pubkey {
}

/// The key that solana-sdk reads from a base58 address, if any.
pub uninterp spec fn address_bytes(s: Seq<char>) -> Option<Seq<u8>>;

/// What `str::trim` leaves of a text.
pub uninterp spec fn trimmed(s: Seq<char>) -> Seq<char>;

/// Relies on solana-sdk's `Pubkey::from_str`: decodes a base58 address into
/// 32 bytes, or fails; the outcome depends on the text alone.
#[verifier::external_body]
fn decode_address(s: &str) -> (r: Option<[u8; 32]>)
    ensures
        r is None <==> address_bytes(s@) is None,
        r matches Some(b) ==> address_bytes(s@) == Some(b@),
{
    <solana_sdk::pubkey::Pubkey as std::str::FromStr>::from_str(s).ok().map(|k| k.to_bytes())
}

/// Relies on `str::trim`: the text without leading and trailing whitespace.
#[verifier::external_body]
fn trim_text(s: &str) -> (r: &str)
    ensures
        r@ == trimmed(s@),
{
    s.trim()
}

/// Reads a base58 address.
pub fn parse_pubkey(s: &str) -> (r: Option<Pubkey>)
    ensures
        r is None <==> address_bytes(s@) is None,
        r matches Some(k) ==> address_bytes(s@) == Some(k.bytes@),
{
    match decode_address(s) {
        Some(b) => Some(Pubkey { bytes: b }),
        None => None,
    }
}

/// The pieces of `s` between commas, from left to right.
pub open spec fn comma_pieces(s: Seq<char>) -> Seq<Seq<char>>
    decreases s.len(),
{
    if s.len() == 0 {
        seq![Seq::empty()]
    } else {
        let p = comma_pieces(s.drop_last());
        if s.last() == ',' {
            p.push(Seq::empty())
        } else {
            p.update(p.len() - 1, p.last().push(s.last()))
        }
    }
}

proof fn lemma_comma_pieces_nonempty(s: Seq<char>)
    ensures
        comma_pieces(s).len() >= 1,
    decreases s.len(),
{
    if s.len() > 0 {
        lemma_comma_pieces_nonempty(s.drop_last());
    }
}

/// Splits `s` at every comma.
pub fn split_list(s: &str) -> (r: Vec<String>)
    ensures
        r@.len() == comma_pieces(s@).len(),
        forall|i: int| 0 <= i < r@.len() ==> (#[trigger] r@[i])@ == comma_pieces(s@)[i],
{
    let n = s.unicode_len();
    let mut out: Vec<String> = Vec::new();
    let mut start: usize = 0;
    let mut i: usize = 0;
    while i < n
        invariant
            n == s@.len(),
            start <= i <= n,
            comma_pieces(s@.take(i as int)).len() == out@.len() + 1,
            forall|k: int|
                0 <= k < out@.len() ==> (#[trigger] out@[k])@ == comma_pieces(s@.take(i as int))[k],
            comma_pieces(s@.take(i as int)).last() == s@.subrange(start as int, i as int),
        decreases n - i,
    {
        proof {
            assert(s@.take(i as int + 1).drop_last() =~= s@.take(i as int));
            lemma_comma_pieces_nonempty(s@.take(i as int));
        }
        let c = s.get_char(i);
        if c == ',' {
            let piece = String::from_str(s.substring_char(start, i));
            out.push(piece);
            start = i + 1;
            proof {
                assert(s@.subrange(start as int, i as int + 1) =~= Seq::<char>::empty());
            }
        } else {
            proof {
                assert(s@.subrange(start as int, i as int + 1) =~= s@.subrange(
                    start as int,
                    i as int,
                ).push(c));
            }
        }
        i = i + 1;
    }
    proof {
        assert(s@.take(i as int) =~= s@);
        lemma_comma_pieces_nonempty(s@);
    }
    let last = String::from_str(s.substring_char(start, n));
    out.push(last);
    out
}

/// Reads a comma-separated list of base58 addresses; spaces round each are ignored.
pub fn parse_pubkeys(s: &str) -> (r: Option<Vec<Pubkey>>)
    ensures
        r is Some <==> forall|i: int|
            0 <= i < comma_pieces(s@).len() ==> #[trigger] address_bytes(
                trimmed(comma_pieces(s@)[i]),
            ) is Some,
        r matches Some(v) ==> v@.len() == comma_pieces(s@).len() && forall|i: int|
            0 <= i < v@.len() ==> address_bytes(trimmed(comma_pieces(s@)[i])) == Some(
                (#[trigger] v@[i]).bytes@,
            ),
{
    let pieces = split_list(s);
    let mut keys: Vec<Pubkey> = Vec::new();
    let mut i: usize = 0;
    while i < pieces.len()
        invariant
            i <= pieces@.len(),
            pieces@.len() == comma_pieces(s@).len(),
            forall|k: int| 0 <= k < pieces@.len() ==> (#[trigger] pieces@[k])@ == comma_pieces(s@)[k],
            keys@.len() == i,
            forall|k: int|
                0 <= k < i ==> address_bytes(trimmed(comma_pieces(s@)[k])) == Some(
                    (#[trigger] keys@[k]).bytes@,
                ),
        decreases pieces@.len() - i,
    {
        let t = trim_text(pieces[i].as_str());
        match parse_pubkey(t) {
            Some(k) => {
                keys.push(k);
            },
            None => {
                return None;
            },
        }
        i = i + 1;
    }
    proof {
        assert forall|k: int| 0 <= k < comma_pieces(s@).len() implies #[trigger] address_bytes(
            trimmed(comma_pieces(s@)[k]),
        ) is Some by {
            assert(address_bytes(trimmed(comma_pieces(s@)[k])) == Some(keys@[k].bytes@));
        }
    }
    Some(keys)
}

} // verus!
