use vstd::prelude::*;

use crate::text::same;

verus! {

/// The restriction id of a track in a quarter of the resolution.
pub const QUARTER_RESOLUTION: &'static str = "q";

/// The restriction id of a track in half the resolution.
pub const HALF_RESOLUTION: &'static str = "h";

/// The restriction id of a track in full resolution.
pub const FULL_RESOLUTION: &'static str = "f";

/// What a simulcast track remembers of the packets before.
#[derive(Debug, Eq, PartialEq, Clone, Copy, Structural)]
pub struct SimulcastTrackHelpers {
    pub temporal_supported: bool,
    /// When the last packet arrived, in milliseconds.
    pub l_ts_calc: u32,
    pub l_pic_id: u16,
    pub l_tlz_idx: u8,
    pub ref_pic_id: u16,
    pub p_ref_pic_id: u16,
    pub ref_tlz_idx: u8,
    pub p_ref_tlz_idx: u8,
}

impl SimulcastTrackHelpers {
    /// Whether nothing is remembered.
    pub open spec fn is_blank(&self) -> bool {
        *self == SimulcastTrackHelpers {
            temporal_supported: false,
            l_ts_calc: 0,
            l_pic_id: 0,
            l_tlz_idx: 0,
            ref_pic_id: 0,
            p_ref_pic_id: 0,
            ref_tlz_idx: 0,
            p_ref_tlz_idx: 0,
        }
    }

    pub fn new() -> (helpers: Self)
        ensures
            helpers.is_blank(),
    {
        SimulcastTrackHelpers {
            temporal_supported: false,
            l_ts_calc: 0,
            l_pic_id: 0,
            l_tlz_idx: 0,
            ref_pic_id: 0,
            p_ref_pic_id: 0,
            ref_tlz_idx: 0,
            p_ref_tlz_idx: 0,
        }
    }
}

/// The spatial layer of a track with the given restriction id.
pub open spec fn layer_of(rid: Seq<char>) -> usize {
    if rid == FULL_RESOLUTION@ {
        2
    } else if rid == HALF_RESOLUTION@ {
        1
    } else {
        0
    }
}

/// Finds the spatial layer of a track with the given restriction id.
pub fn spatial_layer(rid: &str) -> (layer: usize)
    ensures
        layer == layer_of(rid@),
        layer < 3,
{
    if same(rid, FULL_RESOLUTION) {
        2
    } else if same(rid, HALF_RESOLUTION) {
        1
    } else {
        0
    }
}

/// The layers are in the order of the resolutions. A track without a known restriction id is on the
/// lowest layer.
pub proof fn law_layers_are_in_the_order_of_resolutions(rid: Seq<char>)
    ensures
        layer_of("q"@) == 0,
        layer_of("h"@) == 1,
        layer_of("f"@) == 2,
        layer_of(rid) < 3,
        rid != "h"@ && rid != "f"@ ==> layer_of(rid) == 0,
{
    reveal_strlit("q");
    reveal_strlit("h");
    reveal_strlit("f");
    assert("q"@[0] == 'q' && "h"@[0] == 'h' && "f"@[0] == 'f');
}

} // verus!
