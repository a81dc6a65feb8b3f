//! Locations of a source's raw data.
//!
//! Each monitored battery exposes its status token and its capacity value
//! as two files under the platform's power-supply directory; this module
//! builds both file paths from the battery's name.

use vstd::prelude::*;
use vstd::string::StringExecFns;

verus! {

/// The paths of the status and capacity files of the named battery, in
/// that order, under the power-supply directory.
pub fn get_status_and_percentage_path(battery: &String) -> (paths: (String, String))
    ensures
        paths.0@ == "/sys/class/power_supply/"@ + battery@ + "/status"@,
        paths.1@ == "/sys/class/power_supply/"@ + battery@ + "/capacity"@,
{
    let mut status_path = String::from_str("/sys/class/power_supply/");
    status_path.append(battery.as_str());
    let mut percentage_path = String::from_str("/sys/class/power_supply/");
    percentage_path.append(battery.as_str());
    status_path.append("/status");
    percentage_path.append("/capacity");
    (status_path, percentage_path)
}

} // verus!
