//! How a displacement is shown: as a colour, and as a point of a graph.
use crate::fixed::{lemma_trunc_div_is_monotonic, trunc_div, ONE};
use vstd::prelude::*;

verus! {

/// A colour of four channels.
#[derive(Copy, Clone, Debug, PartialEq, Eq)]
pub struct Rgba {
    pub red: u8,
    pub green: u8,
    pub blue: u8,
    pub alpha: u8,
}

/// The offset of the graph's zero line from the top of the graph.
pub const GRAPH_BASE: i64 = 64;

/// The whole part of a sample, held to the range of a colour channel.
pub open spec fn channel(u: int) -> int {
    let whole = trunc_div(u, ONE as int);
    if whole < 0 {
        0
    } else if whole > 255 {
        255
    } else {
        whole
    }
}

/// The colour of a displacement: crests are red, troughs are green.
pub open spec fn color_of(u: int) -> Rgba {
    Rgba { red: channel(u) as u8, green: channel(-u) as u8, blue: 0, alpha: 255 }
}

/// The row of the graph on which a displacement is drawn: the whole part of
/// u/4.1 + 64, and zero for a value below zero.
pub open spec fn graph_row(u: int) -> int {
    let whole = trunc_div(trunc_div(10 * u, 41) + GRAPH_BASE * ONE, ONE as int);
    if whole < 0 {
        0
    } else if whole > u32::MAX {
        u32::MAX as int
    } else {
        whole
    }
}

/// The whole part of a wide sample, held to the range of a colour channel.
fn channel_of(u: i128) -> (c: u8)
    requires
        i64::MIN <= u <= -(i64::MIN as int),
    ensures
        c == channel(u as int),
{
    let whole: i128 = u / (ONE as i128);
    if whole < 0 {
        0
    } else if whole > 255 {
        255
    } else {
        whole as u8
    }
}

/// The colour of a displacement.
pub fn color(u: i64) -> (c: Rgba)
    ensures
        c == color_of(u as int),
{
    Rgba { red: channel_of(u as i128), green: channel_of(-(u as i128)), blue: 0, alpha: 255 }
}

/// The row of the graph on which a displacement is drawn.
pub fn graph_point(u: i64) -> (row: u32)
    ensures
        row == graph_row(u as int),
{
    let scaled: i128 = (10 * (u as i128)) / 41 + (GRAPH_BASE as i128) * (ONE as i128);
    let whole: i128 = scaled / (ONE as i128);
    if whole < 0 {
        0
    } else if whole > u32::MAX as i128 {
        u32::MAX
    } else {
        whole as u32
    }
}

/// The colour follows the displacement: a higher cell is no less red and no
/// more green.
pub proof fn lemma_color_is_monotonic(low: int, high: int)
    requires
        low <= high,
    ensures
        color_of(low).red <= color_of(high).red,
        color_of(low).green >= color_of(high).green,
        color_of(low).blue == color_of(high).blue,
        color_of(low).alpha == color_of(high).alpha,
{
    lemma_trunc_div_is_monotonic(low, high, ONE as int);
    lemma_trunc_div_is_monotonic(-high, -low, ONE as int);
}

/// A displacement between −255 and 255 is drawn inside a graph of 128 rows.
pub proof fn lemma_graph_row_of_a_preset(u: int)
    requires
        -255 * ONE <= u <= 255 * ONE,
    ensures
        1 <= graph_row(u) <= 126,
{
    lemma_trunc_div_is_monotonic(10 * u, 2550 * ONE, 41);
    lemma_trunc_div_is_monotonic(-2550 * ONE, 10 * u, 41);
    let scaled = trunc_div(10 * u, 41) + GRAPH_BASE * ONE;
    lemma_trunc_div_is_monotonic(scaled, trunc_div(2550 * ONE, 41) + GRAPH_BASE * ONE, ONE as int);
    lemma_trunc_div_is_monotonic(trunc_div(-2550 * ONE, 41) + GRAPH_BASE * ONE, scaled, ONE as int);
}

} // verus!
