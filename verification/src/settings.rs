//! Defaults of persisted settings.
use vstd::prelude::*;

verus! {

/// Volume of the video player (percent) when settings hold none.
pub fn default_video_volume() -> (v: u32)
    ensures
        v == 100,
{
    100
}

/// The levels that saved settings are read back at: the volume at most
/// 100, the video volume at most 200 (percent), the star filter at most 5.
pub fn loaded_levels(volume: u32, video_volume: u32, rating_filter: u8) -> (r: (u32, u32, u8))
    ensures
        r.0 == if volume > 100 { 100 } else { volume },
        r.1 == if video_volume > 200 { 200 } else { video_volume },
        r.2 == if rating_filter > 5 { 5 } else { rating_filter },
{
    (
        if volume > 100 { 100 } else { volume },
        if video_volume > 200 { 200 } else { video_volume },
        if rating_filter > 5 { 5 } else { rating_filter },
    )
}

} // verus!
