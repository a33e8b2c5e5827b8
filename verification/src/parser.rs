//! Pure helpers behind the textual spec parser. The tokenizer itself is a
//! thin regex surface outside this library; resolving a bare height (as in
//! "1080p") to a full resolution is the part with fixed rules.

use vstd::prelude::*;

verus! {

/// The width paired with a bare height: common broadcast and monitor heights
/// carry their conventional width, every other height defaults to 16:9.
pub open spec fn spec_width_for_height(height: u32) -> int {
    if height == 480 {
        640
    } else if height == 576 {
        768
    } else if height == 720 {
        1280
    } else if height == 1080 {
        1920
    } else if height == 1440 {
        2560
    } else if height == 2160 {
        3840
    } else if height == 4320 {
        7680
    } else {
        (height as int * 16) / 9
    }
}

/// Width for a height given alone, by the standard table, defaulting to a
/// 16:9 aspect ratio.
pub fn calculate_width_from_height(height: u32) -> (w: u32)
    requires
        height <= u32::MAX / 16,
    ensures
        w as int == spec_width_for_height(height),
{
    match height {
        480 => 640,  // 4:3
        576 => 768,  // 4:3 PAL
        720 => 1280,  // 16:9
        1080 => 1920,  // 16:9
        1440 => 2560,  // 16:9
        2160 => 3840,  // 16:9 4K
        4320 => 7680,  // 16:9 8K
        // Default to a 16:9 aspect ratio
        _ => (height * 16) / 9,
    }
}

} // verus!
