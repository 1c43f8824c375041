//! What the daemon and its clients share.
use vstd::prelude::*;

verus! {

/// The name of the daemon on the system bus.
pub const SERVICE_NAME: &'static str = "cc.localcc.GpuSwitcher";

/// What the dedicated GPU is used for.
#[derive(Debug, Copy, Clone, PartialEq, Eq, Structural)]
pub enum GpuMode {
    /// Not at all: the integrated GPU does the work.
    Integrated,
    /// With the vendor's driver.
    Nvidia,
    /// Passed through to a virtual machine.
    Vfio,
}

impl DeepView for GpuMode {
    type V = GpuMode;

    open spec fn deep_view(&self) -> GpuMode {
        *self
    }
}

} // verus!
