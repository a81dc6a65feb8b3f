use batwatch::config::Config;
use batwatch::paths::get_status_and_percentage_path;

#[test]
fn default_config_values() {
    let config = Config::default();
    assert_eq!(config.batteries, vec!["BAT0".to_string(), "BAT1".to_string()]);
    assert_eq!(config.delay_seconds, 60);
    assert_eq!(config.warning, 25);
    assert_eq!(config.critical, 10);
    assert_eq!(config.danger, 3);
    assert_eq!(
        config.dangercmd,
        "notify-send -u critical 'Critical' 'Hibernated system due to low battery' && systemctl hibernate"
    );
}

#[test]
fn battery_paths_point_into_power_supply_directory() {
    let battery = "BAT0".to_string();
    let (status, capacity) = get_status_and_percentage_path(&battery);
    assert_eq!(status, "/sys/class/power_supply/BAT0/status");
    assert_eq!(capacity, "/sys/class/power_supply/BAT0/capacity");
}

#[test]
fn battery_paths_follow_the_name() {
    let battery = "BAT1".to_string();
    let (status, capacity) = get_status_and_percentage_path(&battery);
    assert_eq!(status, "/sys/class/power_supply/BAT1/status");
    assert_eq!(capacity, "/sys/class/power_supply/BAT1/capacity");
}
