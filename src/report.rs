//! The whole system report.

use vstd::prelude::*;
use crate::display::{BatteryInfo, DisplayInfo};
use crate::hardware::{BuildInfo, HardwareInfo};
use crate::network::NetworkInfo;

verus! {

/// Everything known of a device. Each part is best-effort; the battery part
/// is absent on a device without a battery.
pub struct SystemInfo {
    pub hardware: HardwareInfo,
    pub display: DisplayInfo,
    pub battery: Option<BatteryInfo>,
    pub build: BuildInfo,
    pub network: NetworkInfo,
}

} // verus!
