//! A no-op display backend for unsupported hosts: it reports a fixed mode
//! catalog for listing and matching, and refuses to change the display.

use vstd::prelude::*;

use crate::display::{DisplayError, DisplayMode};

verus! {

/// The fixed catalog the stub backend reports.
pub open spec fn stub_mode_catalog() -> Seq<DisplayMode> {
    seq![
        DisplayMode { width: 1920, height: 1080, refresh_millihertz: 60_000 },
        DisplayMode { width: 1920, height: 1080, refresh_millihertz: 144_000 },
        DisplayMode { width: 2560, height: 1440, refresh_millihertz: 60_000 },
        DisplayMode { width: 2560, height: 1440, refresh_millihertz: 144_000 },
        DisplayMode { width: 3840, height: 2160, refresh_millihertz: 60_000 },
    ]
}

/// The mode the stub backend reports as current.
pub open spec fn stub_current_mode() -> DisplayMode {
    DisplayMode { width: 1920, height: 1080, refresh_millihertz: 60_000 }
}

/// Every mode in the stub catalog has a nonzero resolution.
pub proof fn lemma_stub_catalog_wf()
    ensures
        forall|i: int|
            0 <= i < stub_mode_catalog().len() ==> (#[trigger] stub_mode_catalog()[i]).wf(),
{
    let s = stub_mode_catalog();
    assert forall|i: int| 0 <= i < s.len() implies (#[trigger] s[i]).wf() by {
        if i == 0 {
            assert(s[0].width == 1920);
        } else if i == 1 {
            assert(s[1].width == 1920);
        } else if i == 2 {
            assert(s[2].width == 2560);
        } else if i == 3 {
            assert(s[3].width == 2560);
        } else {
            assert(s[4].width == 3840);
        }
    }
}

pub struct StubDisplayManager;

impl StubDisplayManager {
    pub fn new() -> (r: Result<Self, DisplayError>)
        ensures
            r is Ok,
    {
        Ok(StubDisplayManager)
    }

    /// Report the fixed mock catalog.
    pub fn get_available_modes(&self) -> (r: Result<Vec<DisplayMode>, DisplayError>)
        ensures
            r matches Ok(modes) && modes@ == stub_mode_catalog(),
    {
        let mut modes: Vec<DisplayMode> = Vec::new();
        modes.push(DisplayMode { width: 1920, height: 1080, refresh_millihertz: 60_000 });
        modes.push(DisplayMode { width: 1920, height: 1080, refresh_millihertz: 144_000 });
        modes.push(DisplayMode { width: 2560, height: 1440, refresh_millihertz: 60_000 });
        modes.push(DisplayMode { width: 2560, height: 1440, refresh_millihertz: 144_000 });
        modes.push(DisplayMode { width: 3840, height: 2160, refresh_millihertz: 60_000 });
        proof {
            assert(modes@ =~= stub_mode_catalog());
        }
        Ok(modes)
    }

    /// Display switching is not supported on this host.
    pub fn set_display_mode(&self, _mode: &DisplayMode) -> (r: Result<(), DisplayError>)
        ensures
            r matches Err(e) && e == DisplayError::Unsupported,
    {
        Err(DisplayError::Unsupported)
    }

    /// Report the fixed mock current mode.
    pub fn get_current_display_mode(&self) -> (r: Result<DisplayMode, DisplayError>)
        ensures
            r matches Ok(m) && m == stub_current_mode(),
    {
        Ok(DisplayMode { width: 1920, height: 1080, refresh_millihertz: 60_000 })
    }
}

} // verus!
