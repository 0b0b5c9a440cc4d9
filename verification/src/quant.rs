//! The supersample quantizer: collapses a 2x2 block of palette indices into
//! one block-drawing glyph and a foreground/background colour attribute.

use vstd::prelude::*;

verus! {

/// Width of the supersampled buffer: two samples per character column.
pub const BUF_W: usize = 160;

/// Height of the supersampled buffer: two samples per character row.
pub const BUF_H: usize = 50;

/// Number of palette indices a sample may hold (`0x0` to `0xe`).
pub const PALETTE_N: u8 = 15;

/// How many of the four samples hold colour `v`.
pub open spec fn cnt(s0: u8, s1: u8, s2: u8, s3: u8, v: u8) -> int {
    (if s0 == v { 1int } else { 0 }) + (if s1 == v { 1int } else { 0 })
        + (if s2 == v { 1int } else { 0 }) + (if s3 == v { 1int } else { 0 })
}

/// The lowest colour below `n` whose count is maximal among colours below `n`:
/// a strictly greater count is needed to displace a lower colour.
pub open spec fn best_upto(s0: u8, s1: u8, s2: u8, s3: u8, n: int) -> u8
    decreases n,
{
    if n <= 1 {
        0u8
    } else {
        let p = best_upto(s0, s1, s2, s3, n - 1);
        if cnt(s0, s1, s2, s3, (n - 1) as u8) > cnt(s0, s1, s2, s3, p) {
            (n - 1) as u8
        } else {
            p
        }
    }
}

/// The dominant colour of a block: maximal count, ties to the lowest index.
pub open spec fn dominant(s0: u8, s1: u8, s2: u8, s3: u8) -> u8 {
    best_upto(s0, s1, s2, s3, PALETTE_N as int)
}

/// The lowest colour below `n`, other than `c1`, that occurs at all.
pub open spec fn second_upto(s0: u8, s1: u8, s2: u8, s3: u8, c1: u8, n: int) -> Option<u8>
    decreases n,
{
    if n <= 0 {
        None
    } else {
        match second_upto(s0, s1, s2, s3, c1, n - 1) {
            Some(w) => Some(w),
            None => {
                if (n - 1) as u8 != c1 && cnt(s0, s1, s2, s3, (n - 1) as u8) > 0 {
                    Some((n - 1) as u8)
                } else {
                    None
                }
            },
        }
    }
}

/// The secondary colour: the lowest colour, distinct from the dominant one,
/// with a nonzero count; `None` when the block is uniform.
pub open spec fn secondary(s0: u8, s1: u8, s2: u8, s3: u8) -> Option<u8> {
    second_upto(s0, s1, s2, s3, dominant(s0, s1, s2, s3), PALETTE_N as int)
}

/// The glyph and attribute byte for a 2x2 block: a solid block for a uniform
/// block, the medium shade for a 3-to-1 split, the light shade when the
/// dominant colour covers exactly two samples, and an `@` on white-on-black
/// as the sentinel for the remaining (four distinct colours) case. The
/// attribute's low nibble is the foreground (dominant) colour, its high
/// nibble the background (secondary) colour.
pub open spec fn quantize_spec(s0: u8, s1: u8, s2: u8, s3: u8) -> (u8, u8) {
    let c1 = dominant(s0, s1, s2, s3);
    match secondary(s0, s1, s2, s3) {
        None => (0xdbu8, c1),
        Some(c2) => {
            let n1 = cnt(s0, s1, s2, s3, c1);
            let n2 = cnt(s0, s1, s2, s3, c2);
            if n1 == 3 && n2 == 1 {
                (0xb2u8, (c2 * 16 + c1) as u8)
            } else if n1 == 2 && n2 <= 2 {
                (0xb1u8, (c2 * 16 + c1) as u8)
            } else {
                (0x40u8, 0x0fu8)
            }
        },
    }
}

/// Counts how many of the four samples hold colour `v`.
fn count_color(s0: u8, s1: u8, s2: u8, s3: u8, v: u8) -> (n: u8)
    ensures
        n as int == cnt(s0, s1, s2, s3, v),
{
    let mut n: u8 = 0;
    if s0 == v { n = n + 1; }
    if s1 == v { n = n + 1; }
    if s2 == v { n = n + 1; }
    if s3 == v { n = n + 1; }
    n
}

/// Quantizes one 2x2 block of palette indices.
pub fn quantize_block(s0: u8, s1: u8, s2: u8, s3: u8) -> (r: (u8, u8))
    requires
        s0 < PALETTE_N,
        s1 < PALETTE_N,
        s2 < PALETTE_N,
        s3 < PALETTE_N,
    ensures
        r == quantize_spec(s0, s1, s2, s3),
{
    let mut best: u8 = 0;
    let mut i: u8 = 1;
    while i < PALETTE_N
        invariant
            1 <= i <= PALETTE_N,
            best < i,
            best == best_upto(s0, s1, s2, s3, i as int),
        decreases PALETTE_N - i,
    {
        if count_color(s0, s1, s2, s3, i) > count_color(s0, s1, s2, s3, best) {
            best = i;
        }
        i = i + 1;
    }
    let mut has_sec: bool = false;
    let mut sec_v: u8 = 0;
    let mut j: u8 = 0;
    while j < PALETTE_N
        invariant
            j <= PALETTE_N,
            sec_v < PALETTE_N,
            (if has_sec { Some(sec_v) } else { None::<u8> })
                == second_upto(s0, s1, s2, s3, best, j as int),
        decreases PALETTE_N - j,
    {
        if !has_sec && j != best && count_color(s0, s1, s2, s3, j) > 0 {
            has_sec = true;
            sec_v = j;
        }
        j = j + 1;
    }
    if !has_sec {
        (0xdb, best)
    } else {
        let n1 = count_color(s0, s1, s2, s3, best);
        let n2 = count_color(s0, s1, s2, s3, sec_v);
        if n1 == 3 && n2 == 1 {
            (0xb2, sec_v * 16 + best)
        } else if n1 == 2 && n2 <= 2 {
            (0xb1, sec_v * 16 + best)
        } else {
            (0x40, 0x0f)
        }
    }
}

/// Reads the 2x2 sample block whose top-left sample is at `(x, y)` and
/// quantizes it into the glyph byte and the colour attribute byte of one
/// character cell.
#[allow(non_snake_case)]
pub fn get_VGA_bytes(buffer: &Vec<u8>, x: usize, y: usize) -> (r: (u8, u8))
    requires
        buffer@.len() == BUF_W * BUF_H,
        x + 1 < BUF_W,
        y + 1 < BUF_H,
        buffer@[y * BUF_W + x] < PALETTE_N,
        buffer@[y * BUF_W + x + 1] < PALETTE_N,
        buffer@[(y + 1) * BUF_W + x] < PALETTE_N,
        buffer@[(y + 1) * BUF_W + x + 1] < PALETTE_N,
    ensures
        r == quantize_spec(
            buffer@[y * BUF_W + x],
            buffer@[y * BUF_W + x + 1],
            buffer@[(y + 1) * BUF_W + x],
            buffer@[(y + 1) * BUF_W + x + 1],
        ),
{
    let s0 = buffer[y * BUF_W + x];
    let s1 = buffer[y * BUF_W + x + 1];
    let s2 = buffer[(y + 1) * BUF_W + x];
    let s3 = buffer[(y + 1) * BUF_W + x + 1];
    quantize_block(s0, s1, s2, s3)
}

} // verus!
