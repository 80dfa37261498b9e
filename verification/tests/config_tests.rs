use saw::config::{
    action_text, config_path_in, format_duration_secs, merge_on_stuck_action, merge_timeout_secs,
    parse_action, parse_duration_secs, read_config, render_config, update_config, ConfigArgs,
    SawConfig, TimeoutSetting,
};
use saw::watch::StuckAction;

fn args() -> ConfigArgs {
    ConfigArgs { list: false, timeout: None, on_stuck: None, reset: false }
}

#[test]
fn creates_default_config_file_on_first_use() {
    let outcome = update_config(SawConfig::default(), args());
    assert!(!outcome.write);
    assert!(outcome.show);

    let path = config_path_in("/home/me");
    assert_eq!(path, "/home/me/.config/saw/config.toml");
    let text = render_config(&SawConfig::default()).unwrap();
    assert_eq!(read_config(&path, &text).unwrap(), SawConfig::default());
}

#[test]
fn list_render_contains_all_values() {
    let rendered = render_config(&SawConfig::default()).unwrap();

    assert!(rendered.contains("timeout = \"130s\""));
    assert!(rendered.contains("on_stuck = \"warn\""));
    assert_eq!(rendered, "timeout = \"130s\"\non_stuck = \"warn\"\n");
}

#[test]
fn updates_individual_values() {
    let outcome = update_config(
        SawConfig::default(),
        ConfigArgs {
            list: false,
            timeout: Some(TimeoutSetting::from_secs(5 * 60)),
            on_stuck: Some(StuckAction::Kill),
            reset: false,
        },
    );
    assert!(outcome.write);
    assert!(!outcome.show);

    let text = render_config(&outcome.config).unwrap();
    let config = read_config("config.toml", &text).unwrap();
    assert_eq!(config.timeout.as_secs(), 5 * 60);
    assert_eq!(config.on_stuck, StuckAction::Kill);
}

#[test]
fn reset_restores_defaults() {
    let changed = update_config(
        SawConfig::default(),
        ConfigArgs {
            list: false,
            timeout: Some(TimeoutSetting::from_secs(5 * 60)),
            on_stuck: Some(StuckAction::Kill),
            reset: false,
        },
    );
    let outcome = update_config(changed.config, ConfigArgs { reset: true, ..args() });
    assert!(outcome.write);
    assert_eq!(outcome.config, SawConfig::default());
}

#[test]
fn serde_defaults_fill_missing_fields() {
    let config = read_config("config.toml", "on_stuck = \"kill\"\n").unwrap();
    assert_eq!(config.timeout, TimeoutSetting::default());
    assert_eq!(config.on_stuck, StuckAction::Kill);
}

#[test]
fn deserialize_saw_config_applies_defaults_for_missing_fields() {
    let config: SawConfig = read_config("", "on_stuck = \"kill\"\n").unwrap();

    assert_eq!(config.timeout, TimeoutSetting::default());
    assert_eq!(config.on_stuck, StuckAction::Kill);
}

#[test]
fn cli_values_override_file_values() {
    let config = SawConfig {
        timeout: TimeoutSetting::from_secs(5 * 60),
        on_stuck: StuckAction::Kill,
    };

    assert_eq!(merge_timeout_secs(None, &config), 5 * 60);
    assert_eq!(
        merge_timeout_secs(Some(TimeoutSetting::from_secs(45)), &config),
        45
    );
    assert_eq!(merge_on_stuck_action(None, &config), StuckAction::Kill);
    assert_eq!(
        merge_on_stuck_action(Some(StuckAction::Warn), &config),
        StuckAction::Warn
    );
}

#[test]
fn timeout_setting_parses_human_durations() {
    assert_eq!("45".parse::<TimeoutSetting>().unwrap().as_secs(), 45);
    assert_eq!("45s".parse::<TimeoutSetting>().unwrap().as_secs(), 45);
    assert_eq!("5m".parse::<TimeoutSetting>().unwrap().as_secs(), 300);
    assert_eq!("2h".parse::<TimeoutSetting>().unwrap().as_secs(), 7_200);
}

#[test]
fn durations_report_what_is_wrong_with_them() {
    let fault = |text| parse_duration_secs(text).unwrap_err();
    assert_eq!(fault("  "), "duration cannot be empty");
    assert_eq!(fault("abc"), "duration must start with digits: abc");
    assert_eq!(
        fault("99999999999999999999"),
        "invalid duration value: 99999999999999999999"
    );
    assert_eq!(fault(" 5 days "), "unsupported duration unit: 5 days");
    assert_eq!(
        fault("18446744073709551615h"),
        "duration is too large: 18446744073709551615h"
    );
    assert_eq!(parse_duration_secs(" 3 Hours "), Ok(10_800));
}

#[test]
fn durations_are_written_in_their_largest_unit_and_read_back() {
    for (secs, text) in [
        (0, "0s"),
        (59, "59s"),
        (60, "1m"),
        (61, "61s"),
        (3_600, "1h"),
        (5_400, "90m"),
        (u64::MAX, "18446744073709551615s"),
    ] {
        assert_eq!(format_duration_secs(secs), text);
        assert_eq!(parse_duration_secs(text), Ok(secs));
    }
}

#[test]
fn action_names_are_read_back() {
    for action in [
        StuckAction::Warn,
        StuckAction::Bell,
        StuckAction::Kill,
        StuckAction::CheckpointKill,
    ] {
        assert_eq!(parse_action(action_text(action)), Some(action));
    }
    assert_eq!(parse_action("Warn"), None);
}

#[test]
fn configuration_values_of_the_wrong_type_are_errors() {
    let fault = |text| read_config("/c.toml", text).unwrap_err();
    assert_eq!(fault("= broken"), "failed to parse saw config at /c.toml");
    assert_eq!(fault("timeout = -5"), "failed to parse saw config timeout");
    assert_eq!(fault("timeout = true"), "failed to parse saw config timeout");
    assert_eq!(fault("timeout = \"soon\""), "failed to parse saw config timeout");
    assert_eq!(fault("on_stuck = \"explode\""), "failed to parse saw config on_stuck");
    assert_eq!(fault("on_stuck = 3"), "failed to parse saw config on_stuck");
    assert_eq!(read_config("", "timeout = 77").unwrap().timeout.as_secs(), 77);
    assert_eq!(
        read_config("", "on_stuck = { checkpoint-kill = {} }").unwrap().on_stuck,
        StuckAction::CheckpointKill
    );
}
