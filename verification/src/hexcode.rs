//! Lowercase hexadecimal over byte sequences: the text encoding of the
//! full fingerprint kept in an entry's metadata.

use vstd::prelude::*;

verus! {

/// The lowercase hexadecimal digit for a value below 16.
pub open spec fn hex_digit(n: u8) -> u8
    recommends
        n < 16,
{
    if n < 10 {
        (48 + n) as u8
    } else {
        (87 + n) as u8
    }
}

/// Whether a byte is a lowercase hexadecimal digit.
pub open spec fn is_hex_byte(c: u8) -> bool {
    (48 <= c <= 57) || (97 <= c <= 102)
}

/// The value of a lowercase hexadecimal digit.
pub open spec fn hex_value(c: u8) -> u8
    recommends
        is_hex_byte(c),
{
    if c < 97 {
        (c - 48) as u8
    } else {
        (c - 87) as u8
    }
}

/// Lowercase hexadecimal encoding: two digits per byte, high digit first.
pub open spec fn hex_of(b: Seq<u8>) -> Seq<u8>
    decreases b.len(),
{
    if b.len() == 0 {
        Seq::empty()
    } else {
        hex_of(b.drop_last()) + seq![hex_digit(b.last() / 16), hex_digit(b.last() % 16)]
    }
}

/// Decoding of an even-length sequence of hexadecimal digits, pairwise.
pub open spec fn unhex(s: Seq<u8>) -> Seq<u8>
    recommends
        s.len() % 2 == 0,
    decreases s.len(),
{
    if s.len() < 2 {
        Seq::empty()
    } else {
        unhex(s.drop_last().drop_last()).push(
            (hex_value(s[s.len() - 2]) * 16 + hex_value(s.last())) as u8,
        )
    }
}

pub proof fn lemma_hex_of_len(b: Seq<u8>)
    ensures
        hex_of(b).len() == 2 * b.len(),
    decreases b.len(),
{
    if b.len() > 0 {
        lemma_hex_of_len(b.drop_last());
    }
}

pub proof fn lemma_unhex_len(s: Seq<u8>)
    ensures
        unhex(s).len() == s.len() / 2,
    decreases s.len(),
{
    if s.len() >= 2 {
        lemma_unhex_len(s.drop_last().drop_last());
    }
}

pub proof fn lemma_hex_of_is_hex(b: Seq<u8>)
    ensures
        forall|i: int| 0 <= i < hex_of(b).len() ==> is_hex_byte(#[trigger] hex_of(b)[i]),
    decreases b.len(),
{
    if b.len() > 0 {
        lemma_hex_of_is_hex(b.drop_last());
        lemma_hex_of_len(b.drop_last());
    }
}

/// Decoding undoes encoding: `unhex(hex_of(b)) == b`.
pub proof fn lemma_unhex_hex_of(b: Seq<u8>)
    ensures
        unhex(hex_of(b)) == b,
    decreases b.len(),
{
    if b.len() == 0 {
        assert(unhex(hex_of(b)) =~= b);
    } else {
        lemma_unhex_hex_of(b.drop_last());
        lemma_hex_of_len(b.drop_last());
        let h = hex_of(b);
        assert(h.drop_last().drop_last() =~= hex_of(b.drop_last()));
        assert(h[h.len() - 2] == hex_digit(b.last() / 16));
        assert(h.last() == hex_digit(b.last() % 16));
        assert(hex_value(hex_digit(b.last() / 16)) == b.last() / 16);
        assert(hex_value(hex_digit(b.last() % 16)) == b.last() % 16);
        assert(b.last() / 16 * 16 + b.last() % 16 == b.last());
        assert(unhex(hex_of(b)) =~= b);
    }
}

/// Encodes bytes as lowercase hexadecimal.
pub fn encode_hex(b: &Vec<u8>) -> (r: Vec<u8>)
    ensures
        r@ == hex_of(b@),
        r@.len() == 2 * b@.len(),
{
    let mut r: Vec<u8> = Vec::new();
    let mut i: usize = 0;
    while i < b.len()
        invariant
            i <= b.len(),
            r@ == hex_of(b@.take(i as int)),
            r@.len() == 2 * i,
        decreases b.len() - i,
    {
        proof {
            lemma_hex_of_len(b@.take(i as int));
        }
        let v = b[i];
        let hi = v / 16;
        let lo = v % 16;
        r.push(if hi < 10 { 48 + hi } else { 87 + hi });
        r.push(if lo < 10 { 48 + lo } else { 87 + lo });
        i = i + 1;
        proof {
            assert(b@.take(i as int).drop_last() =~= b@.take(i - 1));
            assert(b@.take(i as int).last() == b@[i - 1]);
            assert(r@ =~= hex_of(b@.take(i as int)));
        }
    }
    proof {
        assert(b@.take(b@.len() as int) =~= b@);
    }
    r
}

/// Decodes an even-length sequence of lowercase hexadecimal digits.
/// Returns `None` exactly when the input has odd length or holds a byte
/// that is not a lowercase hexadecimal digit.
pub fn decode_hex(s: &Vec<u8>) -> (r: Option<Vec<u8>>)
    ensures
        match r {
            Some(v) => s@.len() % 2 == 0 && (forall|i: int|
                0 <= i < s@.len() ==> is_hex_byte(#[trigger] s@[i])) && v@ == unhex(s@),
            None => s@.len() % 2 != 0 || exists|i: int|
                0 <= i < s@.len() && !is_hex_byte(#[trigger] s@[i]),
        },
{
    if s.len() % 2 != 0 {
        return None;
    }
    let mut r: Vec<u8> = Vec::new();
    let mut i: usize = 0;
    while i < s.len()
        invariant
            i <= s.len(),
            i % 2 == 0,
            s.len() % 2 == 0,
            forall|j: int| 0 <= j < i ==> is_hex_byte(#[trigger] s@[j]),
            r@ == unhex(s@.take(i as int)),
        decreases s.len() - i,
    {
        let c1 = s[i];
        let c2 = s[i + 1];
        let v1 = if 48 <= c1 && c1 <= 57 {
            c1 - 48
        } else if 97 <= c1 && c1 <= 102 {
            c1 - 87
        } else {
            return None;
        };
        let v2 = if 48 <= c2 && c2 <= 57 {
            c2 - 48
        } else if 97 <= c2 && c2 <= 102 {
            c2 - 87
        } else {
            return None;
        };
        r.push(v1 * 16 + v2);
        i = i + 2;
        proof {
            let t = s@.take(i as int);
            assert(t.drop_last().drop_last() =~= s@.take(i - 2));
            assert(t[t.len() - 2] == s@[i - 2]);
            assert(t.last() == s@[i - 1]);
            assert(r@ =~= unhex(s@.take(i as int)));
        }
    }
    proof {
        assert(s@.take(s@.len() as int) =~= s@);
    }
    Some(r)
}

} // verus!
