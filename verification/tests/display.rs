use falcon::app_config::app_config;
use falcon::falcon_duration::FalconDuration;
use falcon::helpers::ellipse_text;
use falcon::helpers::format_duration;
use falcon::helpers::page_title;
use falcon::helpers::u64_string;
use falcon::http_method::HttpMethod;
use falcon::sync_sched::SyncSchedule;
use falcon::tabs::Tabs;

#[test]
fn page_title_prefixes_the_application_name() {
    assert_eq!(page_title("Home"), "Falcon | Home");
    assert_eq!(page_title(""), "Falcon | ");
}

#[test]
fn durations_format_per_magnitude() {
    assert_eq!(format_duration(0), "0.00ms");
    assert_eq!(format_duration(123_450), "123.45ms");
    assert_eq!(format_duration(999_994), "999.99ms");
    assert_eq!(format_duration(1_500_000), "1.5s");
    assert_eq!(format_duration(59_940_000), "59.9s");
    assert_eq!(format_duration(90_000_000), "1.5m");
    assert_eq!(format_duration(5_400_000_000), "1.5h");
}

#[test]
fn duration_wrapper_formats_its_micros() {
    let d = FalconDuration::from_micros(2_000_000);
    assert_eq!(d.micros, 2_000_000);
    assert_eq!(d.text(), "2.0s");
}

#[test]
fn decimal_printer_matches_expected_digits() {
    assert_eq!(u64_string(0), "0");
    assert_eq!(u64_string(7), "7");
    assert_eq!(u64_string(12034), "12034");
}

#[test]
fn long_text_is_ellipsed() {
    assert_eq!(ellipse_text("hello world", 5), "hello...");
    assert_eq!(ellipse_text("hi", 5), "hi");
    assert_eq!(ellipse_text("exact", 5), "exact");
}

#[test]
fn method_names_parse_case_insensitively() {
    assert_eq!(HttpMethod::from_name("get"), HttpMethod::Get);
    assert_eq!(HttpMethod::from_name("PoSt"), HttpMethod::Post);
    assert_eq!(HttpMethod::from_name("PUT"), HttpMethod::Put);
    assert_eq!(HttpMethod::from_name("patch"), HttpMethod::Patch);
    assert_eq!(HttpMethod::from_name("DELETE"), HttpMethod::Delete);
    assert_eq!(HttpMethod::from_name("options"), HttpMethod::Get);
    assert_eq!(HttpMethod::default(), HttpMethod::Get);
}

#[test]
fn method_names_and_labels() {
    assert_eq!(HttpMethod::Post.as_str(), "POST");
    assert_eq!(HttpMethod::Post.label(), "Post");
    assert_eq!(HttpMethod::Delete.label(), "Delete");
}

#[test]
fn tabs_track_one_active_label() {
    let mut tabs = Tabs::new(vec!["Params", "Headers", "Body"], "Headers");
    assert!(tabs.is_active());
    assert_eq!(tabs.get_active().expect("one tab is active").label, "Headers");
    tabs.set_active("Body");
    assert_eq!(tabs.get_active().expect("one tab is active").label, "Body");
    tabs.deactivate();
    assert!(!tabs.is_active());
    assert!(tabs.get_active().is_none());
    tabs.toggle_activation();
    assert!(tabs.is_active());
    assert_eq!(tabs.vec().len(), 3);
}

#[test]
fn sync_schedule_fires_only_after_the_delay() {
    let mut sched = SyncSchedule::new();
    sched.schedule(600);
    assert!(!sched.due(1000, 500));
    assert!(sched.due(1100, 500));
    assert!(sched.due(1200, 500));
    sched.schedule(1150);
    assert!(!sched.due(1200, 500));
}

#[test]
fn app_config_keeps_its_directories() {
    let c = app_config("/c".to_string(), "/d".to_string(), "/k".to_string());
    assert_eq!(c.CONFIG_DIR, "/c");
    assert_eq!(c.DATA_DIR, "/d");
    assert_eq!(c.CACHE_DIR, "/k");
    assert_eq!(c.projects_file(), "/d/falcon_projects.toml");
}
