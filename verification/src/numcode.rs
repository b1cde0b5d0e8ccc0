//! Decimal text over bytes: the cached upload count kept as side metadata
//! of the counter key, and the line count of its append-only record log.

use vstd::prelude::*;

verus! {

/// Largest count the counter caches: the largest 19-digit number. The
/// increment saturates here so that the cached text always parses back.
pub const COUNT_CAP: u64 = 9999999999999999999;

/// Ten to the `k`.
pub open spec fn pow10(k: nat) -> nat
    decreases k,
{
    if k == 0 {
        1
    } else {
        10 * pow10((k - 1) as nat)
    }
}

/// Whether a byte is a decimal digit.
pub open spec fn is_digit_byte(c: u8) -> bool {
    48 <= c <= 57
}

/// Canonical decimal encoding of a number, most significant digit first.
pub open spec fn dec_of(n: nat) -> Seq<u8>
    decreases n,
{
    if n < 10 {
        seq![(48 + n) as u8]
    } else {
        dec_of(n / 10).push((48 + n % 10) as u8)
    }
}

/// Value of a sequence of decimal digits.
pub open spec fn dec_val(s: Seq<u8>) -> nat
    recommends
        forall|i: int| 0 <= i < s.len() ==> is_digit_byte(#[trigger] s[i]),
    decreases s.len(),
{
    if s.len() == 0 {
        0
    } else {
        dec_val(s.drop_last()) * 10 + (s.last() - 48) as nat
    }
}

/// The parse of a cached count: one to nineteen decimal digits and
/// nothing else; any other text fails to parse.
pub open spec fn dec_parse(s: Seq<u8>) -> Option<u64> {
    if 1 <= s.len() <= 19 && (forall|i: int| 0 <= i < s.len() ==> is_digit_byte(#[trigger] s[i])) {
        Some(dec_val(s) as u64)
    } else {
        None
    }
}

pub proof fn lemma_pow10_19()
    ensures
        pow10(18) == 1000000000000000000,
        pow10(19) == 10000000000000000000,
{
    reveal_with_fuel(pow10, 20);
}

pub proof fn lemma_pow10_mono(i: nat, j: nat)
    requires
        i <= j,
    ensures
        pow10(i) <= pow10(j),
    decreases j,
{
    if i < j {
        lemma_pow10_mono(i, (j - 1) as nat);
    }
}

/// A digit string's value is below ten to its length.
pub proof fn lemma_dec_val_bound(s: Seq<u8>)
    requires
        forall|i: int| 0 <= i < s.len() ==> is_digit_byte(#[trigger] s[i]),
    ensures
        dec_val(s) < pow10(s.len()),
    decreases s.len(),
{
    if s.len() > 0 {
        lemma_dec_val_bound(s.drop_last());
    }
}

pub proof fn lemma_dec_of_digits(n: nat)
    ensures
        dec_of(n).len() >= 1,
        forall|i: int| 0 <= i < dec_of(n).len() ==> is_digit_byte(#[trigger] dec_of(n)[i]),
    decreases n,
{
    if n >= 10 {
        lemma_dec_of_digits(n / 10);
    }
}

pub proof fn lemma_dec_of_len(n: nat, k: nat)
    requires
        k >= 1,
        n < pow10(k),
    ensures
        dec_of(n).len() <= k,
    decreases n,
{
    if n >= 10 {
        assert(pow10(k) == 10 * pow10((k - 1) as nat));
        lemma_dec_of_len(n / 10, (k - 1) as nat);
    }
}

pub proof fn lemma_dec_val_of(n: nat)
    ensures
        dec_val(dec_of(n)) == n,
    decreases n,
{
    if n < 10 {
        let s = dec_of(n);
        assert(s.len() == 1);
        assert(s.drop_last() =~= Seq::<u8>::empty());
        assert(dec_val(s.drop_last()) == 0);
        assert(s.last() == (48 + n) as u8);
        assert(dec_val(s) == (s.last() - 48) as nat);
    } else {
        lemma_dec_val_of(n / 10);
        let s = dec_of(n);
        assert(s == dec_of(n / 10).push((48 + n % 10) as u8));
        assert(s.drop_last() =~= dec_of(n / 10));
        assert(s.last() == (48 + n % 10) as u8);
        assert(dec_val(s) == dec_val(dec_of(n / 10)) * 10 + (s.last() - 48) as nat);
        assert(dec_val(s) == (n / 10) * 10 + n % 10);
    }
}

/// The cached count always parses back to itself: the encoding of any
/// value up to the cap is read back unchanged.
pub proof fn lemma_dec_round_trip(n: nat)
    requires
        n <= COUNT_CAP,
    ensures
        dec_parse(dec_of(n)) == Some(n as u64),
{
    lemma_dec_of_digits(n);
    lemma_pow10_19();
    lemma_dec_of_len(n, 19);
    lemma_dec_val_of(n);
}

/// Number of newline bytes in a sequence.
pub open spec fn newline_count(s: Seq<u8>) -> nat
    decreases s.len(),
{
    if s.len() == 0 {
        0
    } else {
        newline_count(s.drop_last()) + if s.last() == 10 {
            1nat
        } else {
            0nat
        }
    }
}

/// Number of newline-terminated or trailing lines, counted as the
/// degraded fallback counts records: a final unterminated line counts.
pub open spec fn line_count(s: Seq<u8>) -> nat {
    newline_count(s) + if s.len() > 0 && s.last() != 10 {
        1nat
    } else {
        0nat
    }
}

pub proof fn lemma_newline_count_le(s: Seq<u8>)
    ensures
        newline_count(s) <= s.len(),
        s.len() > 0 && s.last() != 10 ==> newline_count(s) < s.len(),
    decreases s.len(),
{
    if s.len() > 0 {
        lemma_newline_count_le(s.drop_last());
    }
}

/// Writes a number as decimal text.
pub fn format_u64(n: u64) -> (r: Vec<u8>)
    ensures
        r@ == dec_of(n as nat),
    decreases n,
{
    if n < 10 {
        let mut r: Vec<u8> = Vec::new();
        r.push(48 + (n as u8));
        proof {
            assert(r@ =~= dec_of(n as nat));
        }
        r
    } else {
        let mut r = format_u64(n / 10);
        r.push(48 + ((n % 10) as u8));
        r
    }
}

/// Reads a cached count back from decimal text.
pub fn parse_u64(s: &Vec<u8>) -> (r: Option<u64>)
    ensures
        r == dec_parse(s@),
{
    if s.len() < 1 || s.len() > 19 {
        return None;
    }
    let mut acc: u64 = 0;
    let mut i: usize = 0;
    while i < s.len()
        invariant
            i <= s.len(),
            s@.len() <= 19,
            forall|j: int| 0 <= j < i ==> is_digit_byte(#[trigger] s@[j]),
            acc as nat == dec_val(s@.take(i as int)),
            (acc as nat) < pow10(i as nat),
        decreases s.len() - i,
    {
        let c = s[i];
        if c < 48 || c > 57 {
            return None;
        }
        proof {
            lemma_pow10_mono(i as nat, 18);
            lemma_pow10_19();
        }
        acc = acc * 10 + ((c - 48) as u64);
        i = i + 1;
        proof {
            assert(s@.take(i as int).drop_last() =~= s@.take(i - 1));
        }
    }
    proof {
        assert(s@.take(s@.len() as int) =~= s@);
    }
    Some(acc)
}

/// Counts the record lines of the counter log, the degraded fallback
/// when the cached count is absent or unreadable.
pub fn count_lines(b: &Vec<u8>) -> (r: u64)
    ensures
        r as nat == line_count(b@),
{
    let mut cnt: u64 = 0;
    let mut i: usize = 0;
    while i < b.len()
        invariant
            i <= b.len(),
            cnt as nat == newline_count(b@.take(i as int)),
            cnt <= i,
        decreases b.len() - i,
    {
        if b[i] == 10 {
            cnt = cnt + 1;
        }
        i = i + 1;
        proof {
            assert(b@.take(i as int).drop_last() =~= b@.take(i - 1));
        }
    }
    proof {
        assert(b@.take(b@.len() as int) =~= b@);
        lemma_newline_count_le(b@);
    }
    if b.len() > 0 && b[b.len() - 1] != 10 {
        cnt = cnt + 1;
    }
    cnt
}

} // verus!
