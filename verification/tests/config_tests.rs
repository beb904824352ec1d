use linear_motion::config::{
    AppConfig, ScheduleOverride, SyncRules, SyncSource, TimeEstimateStrategy,
};
use linear_motion::error::Error;
use linear_motion::strutil::{parse_u32, u64_to_dec};

fn strategy() -> TimeEstimateStrategy {
    TimeEstimateStrategy {
        fibonacci: Some(vec![
            (String::from("1"), 30u32),
            (String::from("2"), 60u32),
            (String::from("3"), 120u32),
        ]),
        tshirt: Some(vec![(String::from("3"), 999u32), (String::from("M"), 120u32)]),
        linear: None,
        points: None,
        default_duration_mins: Some(60),
    }
}

fn base_rules() -> SyncRules {
    SyncRules {
        default_task_duration_mins: 60,
        completed_linear_tag: String::from("motioned"),
        time_estimate_strategy: strategy(),
    }
}

fn source(name: &str) -> SyncSource {
    SyncSource {
        name: String::from(name),
        linear_api_key: String::from("lin_key"),
        projects: None,
        webhook_base_url: None,
        sync_rules: None,
    }
}

fn valid_config() -> AppConfig {
    AppConfig {
        motion_api_key: String::from("mo_key"),
        sync_sources: vec![source("acme")],
        global_sync_rules: base_rules(),
        database_path: None,
        polling_interval_seconds: 300,
        schedule_overrides: None,
    }
}

fn expect_validation_message(c: &AppConfig, wanted: &str) {
    match c.validate() {
        Err(Error::Validation(m)) => assert_eq!(m, wanted),
        _ => panic!("expected the configuration to be rejected"),
    }
}

#[test]
fn valid_config_passes() {
    assert!(valid_config().validate().is_ok());
}

#[test]
fn missing_motion_key_rejected() {
    let mut c = valid_config();
    c.motion_api_key = String::from("   ");
    expect_validation_message(&c, "Motion API key is required");
    c.motion_api_key = String::from("your_motion_api_key_here");
    expect_validation_message(&c, "Motion API key is required");
}

#[test]
fn empty_sources_rejected() {
    let mut c = valid_config();
    c.sync_sources = Vec::new();
    expect_validation_message(&c, "At least one sync source is required");
}

#[test]
fn missing_linear_key_rejected_with_index_and_name() {
    let mut c = valid_config();
    c.sync_sources.push(source("second"));
    c.sync_sources[1].linear_api_key = String::from("");
    expect_validation_message(&c, "Linear API key is required for sync source 1 (second)");
}

#[test]
fn empty_project_filter_rejected() {
    let mut c = valid_config();
    c.sync_sources[0].projects = Some(Vec::new());
    expect_validation_message(
        &c,
        "At least one project is required for source projects filter 0 (acme)",
    );
}

#[test]
fn blank_source_name_rejected() {
    let mut c = valid_config();
    c.sync_sources[0].name = String::from(" ");
    expect_validation_message(&c, "Name is required for sync source 0");
}

#[test]
fn blank_database_path_rejected() {
    let mut c = valid_config();
    c.database_path = Some(String::from("  "));
    expect_validation_message(&c, "Database path is required");
}

fn override_window() -> ScheduleOverride {
    ScheduleOverride {
        name: String::from("work_hours"),
        interval_seconds: 60,
        start_time: String::from("09:00"),
        end_time: String::from("17:00"),
        days: vec![String::from("mon"), String::from("fri")],
    }
}

#[test]
fn schedule_override_times_checked() {
    let mut c = valid_config();
    let mut o = override_window();
    o.start_time = String::from("25:00");
    c.schedule_overrides = Some(vec![o]);
    expect_validation_message(
        &c,
        "Invalid start_time format for schedule override 0: expected HH:MM",
    );

    let mut o2 = override_window();
    o2.end_time = String::from("17:60");
    c.schedule_overrides = Some(vec![override_window(), o2]);
    expect_validation_message(
        &c,
        "Invalid end_time format for schedule override 1: expected HH:MM",
    );
}

#[test]
fn schedule_override_days_checked() {
    let mut c = valid_config();
    let mut o = override_window();
    o.days.push(String::from("monday"));
    c.schedule_overrides = Some(vec![o]);
    expect_validation_message(
        &c,
        "Invalid day 'monday' in schedule override 0. Valid days: mon, tue, wed, thu, fri, sat, sun",
    );

    c.schedule_overrides = Some(vec![override_window()]);
    assert!(c.validate().is_ok());
}

#[test]
fn time_format_accepts_what_the_standard_parser_accepts() {
    let c = valid_config();
    assert!(c.is_valid_time_format("09:00"));
    assert!(c.is_valid_time_format("9:5"));
    assert!(c.is_valid_time_format("23:59"));
    assert!(c.is_valid_time_format("+09:00"));
    assert!(!c.is_valid_time_format("24:00"));
    assert!(!c.is_valid_time_format("12:60"));
    assert!(!c.is_valid_time_format("1200"));
    assert!(!c.is_valid_time_format("12:00:00"));
    assert!(!c.is_valid_time_format("a:b"));
    assert!(!c.is_valid_time_format(":"));
    assert!(!c.is_valid_time_format(""));
}

#[test]
fn effective_rules_prefer_the_source_override() {
    let mut s = source("acme");
    let mut own = base_rules();
    own.default_task_duration_mins = 15;
    s.sync_rules = Some(own);
    let global = base_rules();
    assert_eq!(s.effective_sync_rules(&global).default_task_duration_mins, 15);

    let plain = source("acme");
    assert_eq!(plain.effective_sync_rules(&global).default_task_duration_mins, 60);
}

#[test]
fn convert_estimate_by_named_table() {
    let st = strategy();
    assert_eq!(st.convert_estimate(&String::from("3"), "fibonacci"), Some(120));
    assert_eq!(st.convert_estimate(&String::from("3"), "FIBONACCI"), Some(120));
    assert_eq!(st.convert_estimate(&String::from("3"), "tshirt"), Some(999));
    assert_eq!(st.convert_estimate(&String::from("M"), "t-shirt"), Some(120));
    assert_eq!(st.convert_estimate(&String::from("3"), "linear"), None);
    assert_eq!(st.convert_estimate(&String::from("3"), "unknown"), None);
}

#[test]
fn convert_estimate_precedence_order() {
    let st = strategy();
    assert_eq!(st.convert_estimate_by_value(&String::from("3")), Some(120));
    assert_eq!(st.convert_estimate_by_value(&String::from("M")), Some(120));
    assert_eq!(st.convert_estimate_by_value(&String::from("9")), Some(60));
}

#[test]
fn database_path_falls_back_to_default() {
    let mut c = valid_config();
    assert_eq!(c.database_path("/tmp/default.db"), "/tmp/default.db");
    c.database_path = Some(String::from("/var/data/sync.db"));
    assert_eq!(c.database_path("/tmp/default.db"), "/var/data/sync.db");
}

#[test]
fn decimal_rendering() {
    assert_eq!(u64_to_dec(0), "0");
    assert_eq!(u64_to_dec(7), "7");
    assert_eq!(u64_to_dec(42), "42");
    assert_eq!(u64_to_dec(1203), "1203");
    assert_eq!(u64_to_dec(u64::MAX), "18446744073709551615");
}

#[test]
fn number_parsing_matches_the_standard_parser() {
    for s in ["0", "42", "+7", "009", "4294967295", "4294967296", "", "+", "-1", "1 2", "12a"] {
        assert_eq!(parse_u32(s), s.parse::<u32>().ok(), "case {:?}", s);
    }
}
