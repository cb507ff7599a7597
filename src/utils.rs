use vstd::prelude::*;

verus! {

/// `16` raised to the power `n`: the weight of the nibble at position `n`.
pub open spec fn pow16(n: nat) -> nat
    decreases n,
{
    if n == 0 {
        1
    } else {
        16 * pow16((n - 1) as nat)
    }
}

/// The nibble of `val` at position `n`, position `0` being the least significant.
pub open spec fn nibble(val: u16, n: nat) -> int {
    (val as int / pow16(n) as int) % 16
}

/// The last `len` decimal digits of `v`, most significant first, padded with
/// leading zeros when `v` has fewer than `len` digits.
pub open spec fn decimal_digits(v: nat, len: nat) -> Seq<u8>
    decreases len,
{
    if len == 0 {
        Seq::empty()
    } else {
        decimal_digits(v / 10, (len - 1) as nat).push((v % 10) as u8)
    }
}

proof fn lemma_pow16_values()
    ensures
        pow16(0) == 1,
        pow16(1) == 16,
        pow16(2) == 256,
        pow16(3) == 4096,
        pow16(4) == 65536,
{
    assert(pow16(0) == 1);
    assert(pow16(1) == 16);
    assert(pow16(2) == 256);
    assert(pow16(3) == 4096);
}

/// Extracts the nibble of `val` at position `n` (`0` is the least significant one).
pub fn get_nth_nibble(val: u16, n: u8) -> (r: u16)
    requires
        n < 4,
    ensures
        r as int == nibble(val, n as nat),
{
    let s: u16 = n as u16 * 4;
    let r = (val & (0xFu16 << s)) >> s;
    proof {
        lemma_pow16_values();
        assert((val & (0xFu16 << s)) >> s == (val >> s) & 0xF) by (bit_vector)
            requires
                s < 16,
        ;
        if n == 0 {
            assert((val >> 0u16) & 0xF == val % 16) by (bit_vector);
        } else if n == 1 {
            assert((val >> 4u16) & 0xF == (val / 16) % 16) by (bit_vector);
        } else if n == 2 {
            assert((val >> 8u16) & 0xF == (val / 256) % 16) by (bit_vector);
        } else {
            assert((val >> 12u16) & 0xF == (val / 4096) % 16) by (bit_vector);
        }
    }
    r
}

/// Keeps the `n` least significant nibbles of `val` and clears the others.
pub fn get_first_n_nibbles(val: u16, n: u8) -> (r: u16)
    requires
        n <= 4,
    ensures
        r as int == val as int % pow16(n as nat) as int,
{
    let mut new_val: u16 = 0;
    let mut i: u8 = 0;
    proof {
        lemma_pow16_values();
    }
    while i < n
        invariant
            i <= n <= 4,
            new_val as int == val as int % pow16(i as nat) as int,
            pow16(0) == 1 && pow16(1) == 16 && pow16(2) == 256 && pow16(3) == 4096 && pow16(4)
                == 65536,
        decreases n - i,
    {
        let s: u16 = i as u16 * 4;
        let next: u16 = new_val | (val & (0xFu16 << s));
        proof {
            if i == 0 {
                assert(new_val == 0 ==> (new_val | (val & (0xFu16 << 0u16))) == val % 16)
                    by (bit_vector);
            } else if i == 1 {
                assert(new_val == val % 16 ==> (new_val | (val & (0xFu16 << 4u16))) == val % 256)
                    by (bit_vector);
            } else if i == 2 {
                assert(new_val == val % 256 ==> (new_val | (val & (0xFu16 << 8u16))) == val
                    % 4096) by (bit_vector);
            } else {
                assert(new_val == val % 4096 ==> (new_val | (val & (0xFu16 << 12u16))) == val)
                    by (bit_vector);
            }
        }
        new_val = next;
        i = i + 1;
    }
    new_val
}

/// Joins two bytes into a 16-bit word, `b1` being the high byte.
pub fn concat_bytes(b1: u8, b2: u8) -> (r: u16)
    ensures
        r == b1 as int * 256 + b2 as int,
{
    let r = ((b1 as u16) << 8) | b2 as u16;
    assert(((b1 as u16) << 8) | b2 as u16 == b1 as u16 * 256 + b2 as u16) by (bit_vector);
    r
}

/// Splits a 16-bit word into its high byte and its low byte.
pub fn split_bytes(w: u16) -> (r: (u8, u8))
    ensures
        r.0 == w as int / 256,
        r.1 == w as int % 256,
{
    ((w / 256) as u8, (w % 256) as u8)
}

/// The 8-bit result of an addition or subtraction, with the flag that says
/// whether the exact result left the range of a byte.
pub struct ArithmeticOverflow {
    pub val: u8,
    pub overflowed: bool,
}

/// Adds two bytes modulo 256; `overflowed` tells whether the sum exceeded 255.
pub fn addition_with_overflow(a: u8, b: u8) -> (r: ArithmeticOverflow)
    ensures
        r.val == (a as int + b as int) % 256,
        r.overflowed == (a as int + b as int > 255),
{
    let mut sum: u16 = a as u16 + b as u16;
    let overflowed = sum > 255;
    sum = sum - (sum / 256) * 256;
    ArithmeticOverflow { val: sum as u8, overflowed }
}

/// Subtracts `b` from `a` modulo 256; `overflowed` tells whether a borrow
/// occurred, that is whether `a < b`.
pub fn subtract_with_overflow(a: u8, b: u8) -> (r: ArithmeticOverflow)
    ensures
        r.val == (a as int - b as int) % 256,
        r.overflowed == (a < b),
{
    let mut sub: i16 = a as i16 - b as i16;
    let overflowed = sub < 0;
    if overflowed {
        sub = sub + 256;
    }
    ArithmeticOverflow { val: sub as u8, overflowed }
}

/// Expands `val` into its last `len` decimal digits, most significant first;
/// shorter numbers are padded with leading zeros, longer ones lose their
/// leading digits.
pub fn to_binary_encoded_decimal(val: u8, len: usize) -> (r: Vec<u8>)
    ensures
        r@ == decimal_digits(val as nat, len as nat),
        r@.len() == len,
{
    let mut digits: Vec<u8> = Vec::new();
    let mut j: usize = 0;
    while j < len
        invariant
            j <= len,
            digits.len() == j,
            forall|k: int| 0 <= k < j ==> digits@[k] == 0,
        decreases len - j,
    {
        digits.push(0);
        j = j + 1;
    }
    let mut v: u8 = val;
    let mut done: usize = 0;
    while done < len
        invariant
            done <= len,
            digits.len() == len,
            decimal_digits(val as nat, len as nat) =~= decimal_digits(v as nat, (len - done) as nat)
                + digits@.subrange((len - done) as int, len as int),
        decreases len - done,
    {
        let pos: usize = len - done - 1;
        let ghost rest = digits@.subrange((len - done) as int, len as int);
        let ghost m: nat = (len - done) as nat;
        assert(decimal_digits(v as nat, m) == decimal_digits((v / 10) as nat, (m - 1) as nat).push(
            (v % 10) as u8,
        ));
        digits.set(pos, v % 10);
        assert(digits@.subrange(pos as int, len as int) =~= seq![(v % 10) as u8] + rest);
        assert(decimal_digits(v as nat, m) + rest =~= decimal_digits((v / 10) as nat, (m - 1) as nat)
            + digits@.subrange(pos as int, len as int));
        v = v / 10;
        done = done + 1;
    }
    assert(digits@.subrange(0, len as int) =~= digits@);
    digits
}

/// Tells whether two byte slices hold the same bytes.
pub fn vec_compare(va: &[u8], vb: &[u8]) -> (r: bool)
    ensures
        r == (va@ == vb@),
{
    if va.len() != vb.len() {
        return false;
    }
    let mut i: usize = 0;
    while i < va.len()
        invariant
            va.len() == vb.len(),
            i <= va.len(),
            forall|k: int| 0 <= k < i ==> va@[k] == vb@[k],
        decreases va.len() - i,
    {
        if va[i] != vb[i] {
            return false;
        }
        i = i + 1;
    }
    assert(va@ =~= vb@);
    true
}

} // verus!
