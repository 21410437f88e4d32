//! Tile kinds of the tile map and summaries of a tile buffer.
use vstd::prelude::*;
use crate::text::owned;

verus! {

/// The name of a tile id: 0 empty, 1 solid, 2 spike, 3 goal, 4 platform,
/// 5 slope_up, 6 slope_down, 7 ladder; `unknown` for any other id.
pub open spec fn tile_type_name_spec(t: u8) -> Seq<char> {
    if t == 0 {
        "empty"@
    } else if t == 1 {
        "solid"@
    } else if t == 2 {
        "spike"@
    } else if t == 3 {
        "goal"@
    } else if t == 4 {
        "platform"@
    } else if t == 5 {
        "slope_up"@
    } else if t == 6 {
        "slope_down"@
    } else if t == 7 {
        "ladder"@
    } else {
        "unknown"@
    }
}

/// The name of a tile id.
pub fn tile_type_name(t: u8) -> (r: String)
    ensures
        r@ == tile_type_name_spec(t),
{
    match t {
        0 => owned("empty"),
        1 => owned("solid"),
        2 => owned("spike"),
        3 => owned("goal"),
        4 => owned("platform"),
        5 => owned("slope_up"),
        6 => owned("slope_down"),
        7 => owned("ladder"),
        _ => owned("unknown"),
    }
}

/// How many of the first `n` tiles have id `id`.
pub open spec fn count_id(tiles: Seq<u8>, id: u8, n: int) -> nat
    decreases n,
{
    if n <= 0 {
        0
    } else {
        count_id(tiles, id, n - 1) + if tiles[n - 1] == id {
            1nat
        } else {
            0nat
        }
    }
}

/// How many tiles of each known kind a tile buffer holds.
#[derive(PartialEq, Eq, Structural, Clone, Copy, Debug)]
pub struct TileSummary {
    pub empty: usize,
    pub solid: usize,
    pub spike: usize,
    pub goal: usize,
    pub platform: usize,
    pub slope_up: usize,
    pub slope_down: usize,
    pub ladder: usize,
}

pub open spec fn summary_matches(s: TileSummary, tiles: Seq<u8>, n: int) -> bool {
    &&& s.empty == count_id(tiles, 0, n)
    &&& s.solid == count_id(tiles, 1, n)
    &&& s.spike == count_id(tiles, 2, n)
    &&& s.goal == count_id(tiles, 3, n)
    &&& s.platform == count_id(tiles, 4, n)
    &&& s.slope_up == count_id(tiles, 5, n)
    &&& s.slope_down == count_id(tiles, 6, n)
    &&& s.ladder == count_id(tiles, 7, n)
}

proof fn lemma_count_le(tiles: Seq<u8>, id: u8, n: int)
    requires
        0 <= n,
    ensures
        count_id(tiles, id, n) <= n,
    decreases n,
{
    if n > 0 {
        lemma_count_le(tiles, id, n - 1);
    }
}

/// Counts the tiles of each known kind; ids above 7 are not counted.
pub fn build_tile_summary(tiles: &Vec<u8>) -> (r: TileSummary)
    ensures
        summary_matches(r, tiles@, tiles@.len() as int),
{
    let mut s = TileSummary {
        empty: 0,
        solid: 0,
        spike: 0,
        goal: 0,
        platform: 0,
        slope_up: 0,
        slope_down: 0,
        ladder: 0,
    };
    let mut i: usize = 0;
    while i < tiles.len()
        invariant
            i <= tiles@.len(),
            summary_matches(s, tiles@, i as int),
        decreases tiles@.len() - i,
    {
        proof {
            lemma_count_le(tiles@, tiles@[i as int], i as int);
        }
        match tiles[i] {
            0 => s.empty = s.empty + 1,
            1 => s.solid = s.solid + 1,
            2 => s.spike = s.spike + 1,
            3 => s.goal = s.goal + 1,
            4 => s.platform = s.platform + 1,
            5 => s.slope_up = s.slope_up + 1,
            6 => s.slope_down = s.slope_down + 1,
            7 => s.ladder = s.ladder + 1,
            _ => {},
        }
        i += 1;
    }
    s
}

/// The counts of a summary never add up to more tiles than there are.
pub proof fn lemma_summary_total(tiles: Seq<u8>, n: int)
    requires
        0 <= n <= tiles.len(),
    ensures
        count_id(tiles, 0, n) + count_id(tiles, 1, n) + count_id(tiles, 2, n) + count_id(tiles, 3, n)
            + count_id(tiles, 4, n) + count_id(tiles, 5, n) + count_id(tiles, 6, n) + count_id(
            tiles,
            7,
            n,
        ) <= n,
    decreases n,
{
    if n > 0 {
        lemma_summary_total(tiles, n - 1);
    }
}

} // verus!
