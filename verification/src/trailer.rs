//! The ten-byte trailer after the encrypted data. The writer splits the
//! decimal text of the data offset into groups of digits and stores each
//! group in one byte: its value, except that a two-digit group `0d` is stored
//! as `100 + d` and a lone digit `0` as `110`, so that no leading zero is
//! lost. The reader writes each nonzero byte back out as the digits it
//! stands for and reads the concatenation as the offset.

use vstd::prelude::*;
use crate::digits::{
    all_digits, decimal_digits, digits_value, lemma_decimal_digits_shape, lemma_digit_count_u64,
    lemma_digits_of_value, lemma_value_of_digits, lemma_value_push,
};

verus! {

/// `d` cut from the front into groups of `ad` digits (the last may be shorter).
pub open spec fn digit_chunks(d: Seq<u8>, ad: nat) -> Seq<Seq<u8>>
    decreases d.len(),
{
    if ad == 0 || d.len() == 0 {
        Seq::<Seq<u8>>::empty()
    } else if d.len() <= ad {
        seq![d]
    } else {
        seq![d.take(ad as int)] + digit_chunks(d.skip(ad as int), ad)
    }
}

/// The byte that stores one group: `100 + d` for a two-digit group `0d`,
/// `110` for a lone digit `0`, otherwise the group's value when it fits in an
/// `i8`, and `0` when it does not (as a failed `i8` parse falls back to zero).
pub open spec fn chunk_byte(c: Seq<u8>) -> u8 {
    if c.len() == 2 && c[0] == 0 {
        (100 + c[1]) as u8
    } else if c.len() == 1 && c[0] == 0 {
        110
    } else if digits_value(c) <= 127 {
        digits_value(c) as u8
    } else {
        0
    }
}

/// Whether the digits of `u`, in groups of `ad`, fill at most ten bytes.
pub open spec fn trailer_fits(u: nat, ad: nat) -> bool {
    ad > 0 && digit_chunks(decimal_digits(u), ad).len() <= 10
}

/// The ten trailer bytes that store `u` in groups of `ad` digits, zero-filled.
pub open spec fn offset_trailer(u: nat, ad: nat) -> Seq<u8> {
    let cs = digit_chunks(decimal_digits(u), ad);
    Seq::new(10, |k: int| if k < cs.len() { chunk_byte(cs[k]) } else { 0u8 })
}

/// The digits that one trailer byte stands for: nothing for a zero byte,
/// `0` and `b - 100` for a byte from 100 to 109, a lone `0` for 110, and the
/// byte's decimal digits otherwise.
pub open spec fn byte_text(b: u8) -> Seq<u8> {
    if b == 0 {
        Seq::<u8>::empty()
    } else if 100 <= b <= 109 {
        seq![0u8, (b - 100) as u8]
    } else if b == 110 {
        seq![0u8]
    } else {
        decimal_digits(b as nat)
    }
}

/// The concatenated decimal text of a trailer.
pub open spec fn trailer_text(t: Seq<u8>) -> Seq<u8>
    decreases t.len(),
{
    if t.len() == 0 {
        Seq::<u8>::empty()
    } else {
        trailer_text(t.drop_last()) + byte_text(t.last())
    }
}

/// The offset that a trailer records: `None` when its text is empty or does
/// not fit in a `usize` (where parsing the text fails).
pub open spec fn trailer_offset(t: Seq<u8>) -> Option<usize> {
    let s = trailer_text(t);
    if s.len() == 0 || digits_value(s) > usize::MAX {
        None
    } else {
        Some(digits_value(s) as usize)
    }
}

/// The decimal digits of `n`, most significant first.
pub fn decimal_digits_of(n: usize) -> (d: Vec<u8>)
    ensures
        d@ == decimal_digits(n as nat),
    decreases n,
{
    if n < 10 {
        let mut d = Vec::new();
        d.push(n as u8);
        assert(d@ =~= seq![n as u8]);
        d
    } else {
        let mut d = decimal_digits_of(n / 10);
        d.push((n % 10) as u8);
        d
    }
}

/// Encodes `u` for the trailer: its decimal digits are cut into groups of `ad`
/// and each group is stored in one byte (`100 + d` for a group `0d`, `110` for
/// a lone `0`, else its value, or zero where that does not fit an `i8`);
/// unused bytes stay zero.
pub fn cover_usize_to_u8s(u: usize, ad: usize) -> (data: [u8; 10])
    requires
        trailer_fits(u as nat, ad as nat),
    ensures
        data@ == offset_trailer(u as nat, ad as nat),
{
    let d = decimal_digits_of(u);
    proof {
        lemma_decimal_digits_shape(u as nat);
    }
    let n = d.len();
    let mut data = [0u8; 10];
    let ghost mut done: Seq<Seq<u8>> = Seq::empty();
    let mut k: usize = 0;
    let mut start: usize = 0;
    let mut cur: usize = 0;
    let mut i: usize = 0;
    assert(d@.skip(0) =~= d@);
    assert(d@.subrange(0, 0) =~= Seq::<u8>::empty());
    while i < n
        invariant
            d@ == decimal_digits(u as nat),
            all_digits(d@),
            n == d@.len(),
            n >= 1,
            ad > 0,
            start <= i <= n,
            i < n ==> i - start < ad,
            i == n ==> start == n,
            digit_chunks(d@, ad as nat) == done + digit_chunks(d@.skip(start as int), ad as nat),
            k == done.len(),
            k + digit_chunks(d@.skip(start as int), ad as nat).len() <= 10,
            data@ == Seq::new(10, |j: int| if j < k { chunk_byte(done[j]) } else { 0u8 }),
            cur <= 1000,
            cur == if digits_value(d@.subrange(start as int, i as int)) <= 1000 {
                digits_value(d@.subrange(start as int, i as int))
            } else {
                1000
            },
        decreases n - i,
    {
        let digit = d[i];
        assert(digit < 10);
        let ghost before = d@.subrange(start as int, i as int);
        let ghost chunk = d@.subrange(start as int, i + 1);
        proof {
            assert(before.push(digit) =~= chunk);
            lemma_value_push(before, digit);
        }
        let next = cur * 10 + digit as usize;
        cur = if next > 1000 { 1000 } else { next };
        if i + 1 - start == ad || i + 1 == n {
            let len = i + 1 - start;
            let lead = d[start];
            assert(chunk.len() == len && chunk[0] == lead);
            let b: u8 = if len == 2 && lead == 0 {
                assert(chunk[1] == digit);
                100 + digit
            } else if len == 1 && lead == 0 {
                110
            } else if cur <= 127 {
                cur as u8
            } else {
                0
            };
            assert(b == chunk_byte(chunk));
            let ghost rest = d@.skip(start as int);
            proof {
                if i + 1 == n {
                    assert(rest =~= chunk);
                    assert(d@.skip(n as int) =~= Seq::<u8>::empty());
                    assert(digit_chunks(rest, ad as nat) == seq![chunk]);
                } else {
                    assert(rest.take(ad as int) =~= chunk);
                    assert(rest.skip(ad as int) =~= d@.skip(i + 1));
                }
                assert(digit_chunks(rest, ad as nat) =~= seq![chunk] + digit_chunks(
                    d@.skip(i + 1),
                    ad as nat,
                ));
            }
            data[k] = b;
            proof {
                done = done.push(chunk);
                assert(digit_chunks(d@, ad as nat) =~= done + digit_chunks(
                    d@.skip(i + 1),
                    ad as nat,
                ));
            }
            k = k + 1;
            start = i + 1;
            cur = 0;
            assert(d@.subrange(start as int, start as int) =~= Seq::<u8>::empty());
            assert(data@ =~= Seq::new(10, |j: int| if j < k { chunk_byte(done[j]) } else { 0u8 }));
        }
        i += 1;
    }
    assert(d@.skip(n as int) =~= Seq::<u8>::empty());
    assert(done =~= digit_chunks(d@, ad as nat));
    assert(data@ =~= offset_trailer(u as nat, ad as nat));
    data
}

/// The number that a digit text spells, or `None` when the text is empty or
/// the number does not fit in a `usize` (as `str::parse::<usize>` fails).
pub fn parse_digits(text: &Vec<u8>) -> (value: Option<usize>)
    ensures
        value == (if text@.len() == 0 || digits_value(text@) > usize::MAX {
            None::<usize>
        } else {
            Some(digits_value(text@) as usize)
        }),
{
    if text.len() == 0 {
        return None;
    }
    let n = text.len();
    let mut acc: Option<usize> = Some(0);
    let mut i: usize = 0;
    assert(text@.subrange(0, 0) =~= Seq::<u8>::empty());
    while i < n
        invariant
            n == text@.len(),
            i <= n,
            acc == (if digits_value(text@.subrange(0, i as int)) > usize::MAX {
                None::<usize>
            } else {
                Some(digits_value(text@.subrange(0, i as int)) as usize)
            }),
        decreases n - i,
    {
        let d = text[i];
        proof {
            assert(text@.subrange(0, i as int).push(d) =~= text@.subrange(0, i + 1));
            lemma_value_push(text@.subrange(0, i as int), d);
        }
        acc = match acc {
            Some(v) => match v.checked_mul(10) {
                Some(w) => w.checked_add(d as usize),
                None => None,
            },
            None => None,
        };
        i += 1;
    }
    assert(text@.subrange(0, n as int) =~= text@);
    acc
}

/// Reads the data offset back from a trailer: the digits that its nonzero
/// bytes stand for, in order, read as one number.
pub fn read_data_offset(trailer: &[u8]) -> (offset: Option<usize>)
    ensures
        offset == trailer_offset(trailer@),
{
    let n = trailer.len();
    let mut text: Vec<u8> = Vec::new();
    let mut i: usize = 0;
    assert(trailer@.subrange(0, 0) =~= Seq::<u8>::empty());
    while i < n
        invariant
            n == trailer@.len(),
            i <= n,
            text@ == trailer_text(trailer@.subrange(0, i as int)),
        decreases n - i,
    {
        let b = trailer[i];
        let ghost before = text@;
        if 100 <= b && b <= 109 {
            text.push(0);
            text.push(b - 100);
        } else if b == 110 {
            text.push(0);
        } else if b != 0 {
            let mut piece = decimal_digits_of(b as usize);
            text.append(&mut piece);
        }
        assert(trailer@.subrange(0, i + 1).drop_last() =~= trailer@.subrange(0, i as int));
        assert(text@ =~= before + byte_text(b));
        i += 1;
    }
    assert(trailer@.subrange(0, n as int) =~= trailer@);
    parse_digits(&text)
}

/// The text of two trailers side by side is the two texts side by side.
pub proof fn lemma_trailer_text_concat(a: Seq<u8>, b: Seq<u8>)
    ensures
        trailer_text(a + b) == trailer_text(a) + trailer_text(b),
    decreases b.len(),
{
    if b.len() == 0 {
        assert(a + b =~= a);
        assert(trailer_text(a) + trailer_text(b) =~= trailer_text(a));
    } else {
        assert((a + b).drop_last() =~= a + b.drop_last());
        lemma_trailer_text_concat(a, b.drop_last());
        assert(trailer_text(a + b) =~= trailer_text(a) + trailer_text(b));
    }
}

/// Zero bytes contribute no text.
pub proof fn lemma_trailer_text_zeros(n: nat)
    ensures
        trailer_text(Seq::new(n, |i: int| 0u8)) == Seq::<u8>::empty(),
    decreases n,
{
    if n > 0 {
        let z = Seq::new(n, |i: int| 0u8);
        assert(z.drop_last() =~= Seq::new((n - 1) as nat, |i: int| 0u8));
        lemma_trailer_text_zeros((n - 1) as nat);
    }
}

/// A group of one or two digits is stored in one byte that stands for the
/// group again.
proof fn lemma_chunk_text(c: Seq<u8>)
    requires
        1 <= c.len() <= 2,
        all_digits(c),
    ensures
        byte_text(chunk_byte(c)) == c,
{
    assert(c[0] < 10);
    if c[0] == 0 {
        if c.len() == 2 {
            assert(c[1] < 10);
            assert(byte_text(chunk_byte(c)) =~= c);
        } else {
            assert(byte_text(chunk_byte(c)) =~= c);
        }
    } else {
        lemma_digits_of_value(c);
        if c.len() == 1 {
            assert(c.drop_last() =~= Seq::<u8>::empty());
            assert(digits_value(c.drop_last()) == 0);
        } else {
            assert(c[1] < 10);
            let t = c.drop_last();
            assert(t.drop_last() =~= Seq::<u8>::empty());
            assert(digits_value(t.drop_last()) == 0);
            assert(digits_value(t) == c[0] as nat);
            assert(c.last() == c[1]);
        }
        assert(digits_value(c) <= 99);
    }
}

/// The bytes that store groups of two spell the digits out again.
proof fn lemma_chunks_text(d: Seq<u8>)
    requires
        all_digits(d),
    ensures
        trailer_text(digit_chunks(d, 2).map_values(|c: Seq<u8>| chunk_byte(c))) == d,
    decreases d.len(),
{
    let cs = digit_chunks(d, 2);
    let f = |c: Seq<u8>| chunk_byte(c);
    if d.len() == 0 {
        assert(cs.map_values(f) =~= Seq::<u8>::empty());
        assert(trailer_text(Seq::<u8>::empty()) == Seq::<u8>::empty());
    } else {
        let first = if d.len() <= 2 { d } else { d.take(2) };
        let rest = if d.len() <= 2 { Seq::<u8>::empty() } else { d.skip(2) };
        assert(first + rest =~= d);
        let rcs = digit_chunks(rest, 2);
        if d.len() <= 2 {
            assert(rcs =~= Seq::<Seq<u8>>::empty());
        }
        assert(cs =~= seq![first] + rcs);
        assert(cs[0] == first);
        assert(all_digits(first)) by {
            assert forall|i: int| 0 <= i < first.len() implies #[trigger] first[i] < 10 by {
                assert(first[i] == d[i]);
            }
        }
        assert(all_digits(rest)) by {
            assert forall|i: int| 0 <= i < rest.len() implies #[trigger] rest[i] < 10 by {
                assert(rest[i] == d[i + 2]);
            }
        }
        lemma_chunks_text(rest);
        lemma_chunk_text(first);
        let m = cs.map_values(f);
        assert(m =~= seq![chunk_byte(first)] + rcs.map_values(f));
        lemma_trailer_text_concat(seq![chunk_byte(first)], rcs.map_values(f));
        let single = seq![chunk_byte(first)];
        assert(single.drop_last() =~= Seq::<u8>::empty());
        assert(trailer_text(single.drop_last()) == Seq::<u8>::empty());
        assert(single.last() == chunk_byte(first));
        assert(trailer_text(single) =~= byte_text(chunk_byte(first)));
    }
}

/// Groups of two number at most half the digits, rounded up.
proof fn lemma_chunk_count(d: Seq<u8>)
    ensures
        digit_chunks(d, 2).len() <= (d.len() + 1) / 2,
    decreases d.len(),
{
    if d.len() > 2 {
        lemma_chunk_count(d.skip(2));
    }
}

/// Law: the trailer round trip. For every offset `u`, the trailer that
/// `cover_usize_to_u8s(u, 2)` writes fits in ten bytes and
/// `read_data_offset` reads `u` back from it.
pub proof fn law_trailer_round_trip(u: usize)
    ensures
        trailer_fits(u as nat, 2),
        trailer_offset(offset_trailer(u as nat, 2)) == Some(u),
{
    let d = decimal_digits(u as nat);
    lemma_decimal_digits_shape(u as nat);
    lemma_value_of_digits(u as nat);
    lemma_digit_count_u64(u as nat);
    lemma_chunk_count(d);
    let cs = digit_chunks(d, 2);
    let f = |c: Seq<u8>| chunk_byte(c);
    lemma_chunks_text(d);
    let t = offset_trailer(u as nat, 2);
    let zeros = Seq::new((10 - cs.len()) as nat, |i: int| 0u8);
    assert(t =~= cs.map_values(f) + zeros);
    lemma_trailer_text_concat(cs.map_values(f), zeros);
    lemma_trailer_text_zeros((10 - cs.len()) as nat);
    assert(trailer_text(t) =~= d);
}

/// Every `usize` fits the trailer in groups of two digits: it has at most
/// twenty digits, so at most ten groups.
pub proof fn lemma_trailer_fits_pairs(u: usize)
    ensures
        trailer_fits(u as nat, 2),
{
    lemma_digit_count_u64(u as nat);
    lemma_chunk_count(decimal_digits(u as nat));
}

/// Law: different offsets are written as different trailers.
pub proof fn law_trailer_distinct(u1: usize, u2: usize)
    requires
        u1 != u2,
    ensures
        offset_trailer(u1 as nat, 2) != offset_trailer(u2 as nat, 2),
{
    law_trailer_round_trip(u1);
    law_trailer_round_trip(u2);
}

} // verus!
