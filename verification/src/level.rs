use vstd::prelude::*;

verus! {

/// The most regions a generated map may expose; region-id bitsets are sized
/// to this.
pub const MAX_NUM_REGIONS: usize = 35;

/// Handed from the menu to the game session: the seed the whole playthrough
/// is generated from.
#[derive(Debug, Clone, Copy, PartialEq, Eq, Structural)]
pub struct Transition {
    pub rng_seed: u64,
}

} // verus!

verus! {

/// A run of ASCII decimal digits to print at a screen position.
#[derive(Debug, Clone, PartialEq, Eq)]
pub struct DigitsOp {
    pub digits: Vec<u8>,
    pub x: i32,
    pub y: i32,
}

/// Ten to the `k`-th power.
pub open spec fn pow10(k: nat) -> int
    decreases k,
{
    if k == 0 {
        1
    } else {
        10 * pow10((k - 1) as nat)
    }
}

proof fn lemma_pow10_le(k: nat)
    requires
        k <= 5,
    ensures
        1 <= pow10(k),
        k == 0 ==> pow10(k) == 1,
        k == 1 ==> pow10(k) == 10,
        k == 2 ==> pow10(k) == 100,
        k == 3 ==> pow10(k) == 1000,
        k == 4 ==> pow10(k) == 10000,
        k == 5 ==> pow10(k) == 100000,
    decreases k,
{
    if k > 0 {
        lemma_pow10_le((k - 1) as nat);
    }
}

/// Renders `value` as exactly `n` decimal digits (leading zeros kept), most
/// significant first.
pub fn draw_decimal_value(value: u16, n: usize, x: i32, y: i32) -> (op: DigitsOp)
    requires
        1 <= n <= 5,
    ensures
        op.x == x,
        op.y == y,
        op.digits@.len() == n,
        forall|k: int|
            0 <= k < n ==> op.digits@[k] as int == 48 + ((value as int) / pow10(
                (n - 1 - k) as nat,
            )) % 10,
{
    let mut buffer: Vec<u8> = Vec::new();
    let mut j: usize = 0;
    while j < n
        invariant
            j <= n,
            buffer@.len() == j,
        decreases n - j,
    {
        buffer.push(0u8);
        j = j + 1;
    }
    let mut multiplicant: u32 = 1;
    let mut i: usize = n;
    while i > 0
        invariant
            n <= 5,
            i <= n,
            buffer@.len() == n,
            multiplicant as int == pow10((n - i) as nat),
            multiplicant <= 100000,
            forall|k: int|
                i <= k < n ==> buffer@[k] as int == 48 + ((value as int) / pow10((n - 1 - k) as nat))
                    % 10,
        decreases i,
    {
        i = i - 1;
        proof {
            lemma_pow10_le((n - i - 1) as nat);
            lemma_pow10_le((n - i) as nat);
            assert(pow10((n - i) as nat) == 10 * pow10((n - i - 1) as nat));
        }
        let decimal: u32 = ((value as u32) / multiplicant) % 10;
        buffer.set(i, 48 + (decimal as u8));
        multiplicant = multiplicant * 10;
    }
    DigitsOp { digits: buffer, x, y }
}

/// The three-digit score readout.
pub fn draw_score(value: u16, x: i32, y: i32) -> (op: DigitsOp)
    ensures
        op.x == x,
        op.y == y,
        op.digits@.len() == 3,
        forall|k: int|
            0 <= k < 3 ==> op.digits@[k] as int == 48 + ((value as int) / pow10((2 - k) as nat))
                % 10,
{
    draw_decimal_value(value, 3, x, y)
}

/// The two-digit stored-resource readout.
pub fn draw_resource_value(value: u8, x: i32, y: i32) -> (op: DigitsOp)
    ensures
        op.x == x,
        op.y == y,
        op.digits@.len() == 2,
        forall|k: int|
            0 <= k < 2 ==> op.digits@[k] as int == 48 + ((value as int) / pow10((1 - k) as nat))
                % 10,
{
    draw_decimal_value(value as u16, 2, x, y)
}

/// The single-digit threat-level readout.
pub fn draw_threat_value(value: u8, x: i32, y: i32) -> (op: DigitsOp)
    ensures
        op.x == x,
        op.y == y,
        op.digits@.len() == 1,
        op.digits@[0] as int == 48 + (value as int) % 10,
{
    draw_decimal_value(value as u16, 1, x, y)
}

} // verus!
