//! The platform backend behind the matcher. Per-OS display APIs are
//! deliberately outside this library; the built-in backend is the no-op stub
//! for hosts without a supported display API, which reports a fixed catalog
//! and cannot apply a mode.

use vstd::prelude::*;

use crate::display::{DisplayError, DisplayMode};
use crate::platform::stub::StubDisplayManager;

pub mod stub;

verus! {

/// Facade over the platform backend in use.
pub struct PlatformDisplayManager {
    inner: StubDisplayManager,
}

impl PlatformDisplayManager {
    pub fn new() -> (r: Result<Self, DisplayError>)
        ensures
            r is Ok,
    {
        match StubDisplayManager::new() {
            Ok(inner) => Ok(PlatformDisplayManager { inner }),
            Err(e) => Err(e),
        }
    }

    /// The catalog of modes the backend reports.
    pub fn get_available_modes(&self) -> (r: Result<Vec<DisplayMode>, DisplayError>)
        ensures
            r matches Ok(modes) && modes@ == stub::stub_mode_catalog(),
    {
        self.inner.get_available_modes()
    }

    /// Ask the backend to apply a mode.
    pub fn set_display_mode(&self, mode: &DisplayMode) -> (r: Result<(), DisplayError>)
        ensures
            r matches Err(e) && e == DisplayError::Unsupported,
    {
        self.inner.set_display_mode(mode)
    }

    /// The mode the backend reports as current.
    pub fn get_current_display_mode(&self) -> (r: Result<DisplayMode, DisplayError>)
        ensures
            r matches Ok(m) && m == stub::stub_current_mode(),
    {
        self.inner.get_current_display_mode()
    }
}

} // verus!
