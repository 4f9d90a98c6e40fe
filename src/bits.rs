use vstd::prelude::*;

verus! {

/// Bit `i` of `w` (bit 0 is the least significant).
pub open spec fn bit(w: u32, i: u32) -> bool {
    (w >> i) & 1 == 1
}

/// The four-bit field of `w` whose lowest bit is bit `lo`.
pub open spec fn nibble(w: u32, lo: u32) -> u32 {
    (w >> lo) & 0xF
}

/// A 32-bit word read as a two's complement number.
pub open spec fn signed(w: u32) -> int {
    if w >= 0x8000_0000 {
        w - 0x1_0000_0000
    } else {
        w as int
    }
}

/// An integer reduced to a 32-bit word, as 32-bit hardware arithmetic does.
pub open spec fn wrap(x: int) -> u32 {
    (x % 0x1_0000_0000) as u32
}

/// Reads bit `i` of `w`.
pub fn test_bit(w: u32, i: u32) -> (r: bool)
    requires
        i < 32,
    ensures
        r == bit(w, i),
{
    (w >> i) & 1 == 1
}

/// Reads the four-bit field of `w` whose lowest bit is bit `lo`.
pub fn read_nibble(w: u32, lo: u32) -> (r: u8)
    requires
        lo < 32,
    ensures
        r as u32 == nibble(w, lo),
        r < 16,
{
    let n = (w >> lo) & 0xF;
    assert(n < 16) by (bit_vector)
        requires
            n == (w >> lo) & 0xF,
    ;
    n as u8
}

/// Reducing to a word and adding commutes with adding and reducing.
pub proof fn lemma_wrap_add(a: int, b: int)
    ensures
        wrap(wrap(a) + b) == wrap(a + b),
{
    vstd::arithmetic::div_mod::lemma_add_mod_noop_right(b, a, 0x1_0000_0000);
    assert(wrap(a) as int == a % 0x1_0000_0000);
}

/// Reducing to a word and subtracting commutes with subtracting and
/// reducing.
pub proof fn lemma_wrap_sub(a: int, x: int)
    ensures
        wrap(a - wrap(x)) == wrap(a - x),
{
    vstd::arithmetic::div_mod::lemma_sub_mod_noop_right(a, x, 0x1_0000_0000);
    assert(wrap(x) as int == x % 0x1_0000_0000);
}

/// Wrapping word arithmetic is arithmetic reduced to a word.
pub proof fn lemma_wrapping_ops(x: u32, y: u32)
    ensures
        x.wrapping_add(y) == wrap(x + y),
        x.wrapping_sub(y) == wrap(x - y),
        x.wrapping_mul(y) == wrap(x * y),
{
    assert(x.wrapping_add(y) == wrap(x + y));
    assert(x.wrapping_sub(y) == wrap(x - y));
    assert(x.wrapping_mul(y) == wrap(x * y));
}

} // verus!
