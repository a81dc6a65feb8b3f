//! Process configuration.
//!
//! The monitored battery names, the poll delay, the three ordered alert
//! thresholds and the danger-band recovery command. All of it is fixed for
//! the life of the process.

use vstd::prelude::*;
use vstd::string::StringExecFns;

verus! {

/// The watchdog's configuration: which batteries to watch, how long to
/// sleep between poll cycles, the warning/critical/danger thresholds
/// (intended ordering `danger <= critical <= warning`, though the engine
/// tolerates a misconfigured ordering), and the shell command the danger
/// band runs.
#[derive(Debug)]
pub struct Config {
    pub batteries: Vec<String>,
    pub delay_seconds: u64,
    pub warning: u8,
    pub critical: u8,
    pub danger: u8,
    pub dangercmd: String,
}

impl Default for Config {
    /// The documented defaults: batteries BAT0 and BAT1, a 60 second poll
    /// delay, thresholds 25/10/3, and a recovery command that notifies and
    /// hibernates.
    fn default() -> (config: Config)
        ensures
            config.batteries@.len() == 2,
            config.batteries@[0]@ == "BAT0"@,
            config.batteries@[1]@ == "BAT1"@,
            config.delay_seconds == 60,
            config.warning == 25,
            config.critical == 10,
            config.danger == 3,
            config.dangercmd@
                == "notify-send -u critical 'Critical' 'Hibernated system due to low battery' && systemctl hibernate"@,
    {
        let mut batteries: Vec<String> = Vec::new();
        batteries.push(String::from_str("BAT0"));
        batteries.push(String::from_str("BAT1"));
        Config {
            batteries,
            delay_seconds: 60,
            warning: 25,
            critical: 10,
            danger: 3,
            dangercmd: String::from_str(
                "notify-send -u critical 'Critical' 'Hibernated system due to low battery' && systemctl hibernate",
            ),
        }
    }
}

} // verus!
