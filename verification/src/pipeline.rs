//! Run analysis: which scored tiles count as specialist work. A belief score is
//! on the specialist side when some output of the run has its tile identifier
//! and was specialist work.

use vstd::prelude::*;

verus! {

/// What the analysis reads of a cycle output: its tile and whether it was
/// specialist work.
#[derive(Debug, Clone)]
pub struct TileTag {
    pub tile_id: String,
    pub is_specialist: bool,
}

/// Whether some output of `outputs` has tile `tile_id` and was specialist work.
pub open spec fn is_specialist_tile(outputs: Seq<TileTag>, tile_id: Seq<char>) -> bool {
    exists|k: int| 0 <= k < outputs.len() && #[trigger] outputs[k].tile_id@ == tile_id && outputs[k].is_specialist
}

/// Whether `tile_id` is the tile of some output of `outputs` and specialist work.
pub fn is_specialist_output_tile(outputs: &Vec<TileTag>, tile_id: &String) -> (r: bool)
    ensures
        r == is_specialist_tile(outputs@, tile_id@),
{
    let n: usize = outputs.len();
    let mut k: usize = 0;
    while k < n
        invariant
            n == outputs@.len(),
            0 <= k <= n,
            forall|j: int| 0 <= j < k ==> !(#[trigger] outputs@[j].tile_id@ == tile_id@ && outputs@[j].is_specialist),
        decreases n - k,
    {
        if outputs[k].is_specialist && outputs[k].tile_id == *tile_id {
            return true;
        }
        k = k + 1;
    }
    false
}

/// For each scored tile of `scored_tile_ids`, in order, whether it is on the
/// specialist side of the run `outputs`.
pub fn specialist_mask(outputs: &Vec<TileTag>, scored_tile_ids: &Vec<String>) -> (mask: Vec<bool>)
    ensures
        mask@.len() == scored_tile_ids@.len(),
        forall|i: int| 0 <= i < mask@.len() ==>
            #[trigger] mask@[i] == is_specialist_tile(outputs@, scored_tile_ids@[i]@),
{
    let n: usize = scored_tile_ids.len();
    let mut mask: Vec<bool> = Vec::new();
    let mut i: usize = 0;
    while i < n
        invariant
            n == scored_tile_ids@.len(),
            0 <= i <= n,
            mask@.len() == i,
            forall|j: int| 0 <= j < i ==> #[trigger] mask@[j] == is_specialist_tile(outputs@, scored_tile_ids@[j]@),
        decreases n - i,
    {
        let b: bool = is_specialist_output_tile(outputs, &scored_tile_ids[i]);
        mask.push(b);
        i = i + 1;
    }
    mask
}

/// No two outputs share a tile identifier.
pub open spec fn tiles_distinct(outputs: Seq<TileTag>) -> bool {
    forall|i: int, j: int| 0 <= i < outputs.len() && 0 <= j < outputs.len() && i != j
        ==> #[trigger] outputs[i].tile_id@ != #[trigger] outputs[j].tile_id@
}

/// A tile that an output of the run produced as specialist work is on the
/// specialist side; when no two outputs share a tile identifier, a tile is on
/// the specialist side exactly when its own output was specialist work.
pub proof fn lemma_own_tile_side(outputs: Seq<TileTag>, j: int)
    requires
        0 <= j < outputs.len(),
    ensures
        outputs[j].is_specialist ==> is_specialist_tile(outputs, outputs[j].tile_id@),
        tiles_distinct(outputs) ==> (is_specialist_tile(outputs, outputs[j].tile_id@) == outputs[j].is_specialist),
{
    if tiles_distinct(outputs) && is_specialist_tile(outputs, outputs[j].tile_id@) {
        let k = choose|k: int| 0 <= k < outputs.len() && #[trigger] outputs[k].tile_id@ == outputs[j].tile_id@ && outputs[k].is_specialist;
        assert(k == j);
    }
}

} // verus!
