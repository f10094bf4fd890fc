use vstd::prelude::*;

verus! {

/// Narrows a 64-bit size to 32 bits; the value must already fit.
pub fn safe_truncate_u64(value: u64) -> (r: u32)
    requires
        value <= u32::MAX,
    ensures
        r == value,
{
    value as u32
}

/// Converts kibibytes to bytes.
pub fn kilo_bytes(b: usize) -> (r: usize)
    requires
        b * 1024 <= usize::MAX,
    ensures
        r == b * 1024,
{
    b * 1024
}

/// Converts mebibytes to bytes.
pub fn mega_bytes(mb: usize) -> (r: usize)
    requires
        mb * 1024 * 1024 <= usize::MAX,
    ensures
        r == mb * 1024 * 1024,
{
    kilo_bytes(mb) * 1024
}

/// Converts gibibytes to bytes.
pub fn giga_bytes(gb: usize) -> (r: usize)
    requires
        gb * 1024 * 1024 * 1024 <= usize::MAX,
    ensures
        r == gb * 1024 * 1024 * 1024,
{
    mega_bytes(gb) * 1024
}

/// Converts tebibytes to bytes.
pub fn tera_bytes(tb: usize) -> (r: usize)
    requires
        tb * 1024 * 1024 * 1024 * 1024 <= usize::MAX,
    ensures
        r == tb * 1024 * 1024 * 1024 * 1024,
{
    giga_bytes(tb) * 1024
}

/// Each unit is 1024 times the one below it: converting `n` of a unit
/// gives the same byte count as converting `1024 * n` of the unit below.
pub proof fn lemma_units_scale_by_1024(n: int)
    ensures
        (n * 1024) * 1024 == n * (1024 * 1024),
        ((n * 1024) * 1024) * 1024 == n * (1024 * 1024 * 1024),
        (((n * 1024) * 1024) * 1024) * 1024 == n * (1024 * 1024 * 1024 * 1024),
{
    assert((n * 1024) * 1024 == n * (1024 * 1024)) by (nonlinear_arith);
    assert(((n * 1024) * 1024) * 1024 == n * (1024 * 1024 * 1024)) by (nonlinear_arith);
    assert((((n * 1024) * 1024) * 1024) * 1024 == n * (1024 * 1024 * 1024 * 1024))
        by (nonlinear_arith);
}

} // verus!
