use wallpaper_picker::config::{RunConfig, Settings};
use wallpaper_picker::guard::{
    check_single_instance, contains_text, ProcessRecord, Verdict, PROCESS_NAME, STARTUP_GRACE,
};

const NOW: u64 = 1_700_000_000;
const SELF_PID: u32 = 4242;

fn nothing() -> Settings {
    Settings {
        image_paths: None,
        allowed_extensions: None,
        command: None,
        command_args: None,
        sleep_interval: None,
        max_retries: None,
        rotate_once: None,
        force_duplicate: None,
        print_only: None,
    }
}

fn config() -> RunConfig {
    RunConfig::resolve(nothing(), nothing())
}

fn instance(pid: u32, parent_pid: Option<u32>, age: u64) -> ProcessRecord {
    ProcessRecord { pid, parent_pid, start_time: NOW - age, name: String::from("wallpaper-picke") }
}

fn other(pid: u32, name: &str) -> ProcessRecord {
    ProcessRecord { pid, parent_pid: Some(1), start_time: NOW - 1000, name: String::from(name) }
}

#[test]
fn process_name_and_grace_period() {
    assert_eq!(PROCESS_NAME, "wallpaper-pick");
    assert_eq!(STARTUP_GRACE, 3);
}

#[test]
fn turned_away_process_leaves_with_status_zero() {
    assert_eq!(Verdict::Allow.exit_status(), None);
    assert_eq!(Verdict::Abort { pid: 77, count: 1, age: 10 }.exit_status(), Some(0));
}

#[test]
fn empty_table_is_allowed() {
    assert_eq!(check_single_instance(&config(), &Vec::new(), Some(SELF_PID), NOW), Verdict::Allow);
}

#[test]
fn table_without_a_matching_name_is_allowed() {
    let table = vec![other(1, "init"), other(20, "wallpaper"), other(21, "picker"), other(22, "")];
    assert_eq!(check_single_instance(&config(), &table, Some(SELF_PID), NOW), Verdict::Allow);
}

#[test]
fn own_child_is_not_a_duplicate() {
    let table = vec![instance(5000, Some(SELF_PID), 1)];
    assert_eq!(check_single_instance(&config(), &table, Some(SELF_PID), NOW), Verdict::Allow);
}

#[test]
fn old_own_children_are_not_duplicates() {
    let table = vec![instance(5000, Some(SELF_PID), 100), instance(5001, Some(SELF_PID), 200)];
    assert_eq!(check_single_instance(&config(), &table, Some(SELF_PID), NOW), Verdict::Allow);
}

#[test]
fn old_instance_of_another_parent_aborts() {
    let table = vec![instance(77, Some(1), 10)];
    assert_eq!(
        check_single_instance(&config(), &table, Some(SELF_PID), NOW),
        Verdict::Abort { pid: 77, count: 1, age: 10 }
    );
}

#[test]
fn two_young_instances_abort() {
    let table = vec![instance(77, Some(1), 0), instance(78, Some(2), 0)];
    assert_eq!(
        check_single_instance(&config(), &table, Some(SELF_PID), NOW),
        Verdict::Abort { pid: 78, count: 2, age: 0 }
    );
}

#[test]
fn forced_duplicate_is_always_allowed() {
    let mut forced = nothing();
    forced.force_duplicate = Some(true);
    let config = RunConfig::resolve(forced, nothing());
    let table = vec![instance(77, Some(1), 10), instance(78, Some(2), 0), instance(79, None, 500)];
    assert_eq!(check_single_instance(&config, &table, Some(SELF_PID), NOW), Verdict::Allow);
    assert_eq!(check_single_instance(&config, &Vec::new(), None, 0), Verdict::Allow);
}

#[test]
fn single_rotation_is_always_allowed() {
    let mut once = nothing();
    once.rotate_once = Some(true);
    let config = RunConfig::resolve(once, nothing());
    let table = vec![instance(77, Some(1), 10), instance(78, Some(2), 0)];
    assert_eq!(check_single_instance(&config, &table, Some(SELF_PID), NOW), Verdict::Allow);
}

#[test]
fn printing_only_does_not_switch_the_guard_off() {
    let mut print = nothing();
    print.print_only = Some(true);
    let config = RunConfig::resolve(print, nothing());
    let table = vec![instance(77, Some(1), 10)];
    assert_eq!(
        check_single_instance(&config, &table, Some(SELF_PID), NOW),
        Verdict::Abort { pid: 77, count: 1, age: 10 }
    );
}

#[test]
fn single_young_instance_is_taken_for_oneself() {
    for age in 0..=3 {
        let table = vec![other(1, "init"), instance(SELF_PID, Some(1), age)];
        assert_eq!(check_single_instance(&config(), &table, Some(SELF_PID), NOW), Verdict::Allow);
    }
}

#[test]
fn instance_just_past_the_grace_period_aborts() {
    let table = vec![instance(77, Some(1), 4)];
    assert_eq!(
        check_single_instance(&config(), &table, Some(SELF_PID), NOW),
        Verdict::Abort { pid: 77, count: 1, age: 4 }
    );
}

#[test]
fn start_in_the_future_counts_as_age_zero() {
    let table = vec![ProcessRecord {
        pid: 77,
        parent_pid: Some(1),
        start_time: NOW + 500,
        name: String::from("wallpaper-picke"),
    }];
    assert_eq!(check_single_instance(&config(), &table, Some(SELF_PID), NOW), Verdict::Allow);
    let table = vec![
        instance(76, Some(1), 2),
        ProcessRecord {
            pid: 77,
            parent_pid: Some(1),
            start_time: u64::MAX,
            name: String::from("wallpaper-picke"),
        },
    ];
    assert_eq!(
        check_single_instance(&config(), &table, Some(SELF_PID), 0),
        Verdict::Abort { pid: 77, count: 2, age: 0 }
    );
}

#[test]
fn first_old_instance_settles_the_verdict() {
    let table = vec![
        other(1, "init"),
        instance(77, Some(1), 50),
        instance(78, Some(1), 60),
        instance(79, Some(1), 70),
    ];
    assert_eq!(
        check_single_instance(&config(), &table, Some(SELF_PID), NOW),
        Verdict::Abort { pid: 77, count: 1, age: 50 }
    );
}

#[test]
fn second_instance_settles_the_verdict_after_a_young_one() {
    let table = vec![
        instance(77, Some(1), 2),
        other(2, "bash"),
        instance(5000, Some(SELF_PID), 900),
        instance(78, Some(1), 900),
        instance(79, Some(1), 1),
    ];
    assert_eq!(
        check_single_instance(&config(), &table, Some(SELF_PID), NOW),
        Verdict::Abort { pid: 78, count: 2, age: 900 }
    );
}

#[test]
fn children_between_instances_are_not_counted() {
    let table = vec![
        instance(5000, Some(SELF_PID), 900),
        instance(77, Some(1), 3),
        instance(5001, Some(SELF_PID), 900),
    ];
    assert_eq!(check_single_instance(&config(), &table, Some(SELF_PID), NOW), Verdict::Allow);
}

#[test]
fn instance_without_known_parent_counts() {
    let table = vec![instance(77, None, 10)];
    assert_eq!(
        check_single_instance(&config(), &table, Some(SELF_PID), NOW),
        Verdict::Abort { pid: 77, count: 1, age: 10 }
    );
}

#[test]
fn unknown_own_pid_matches_an_unknown_parent() {
    let table = vec![instance(77, None, 10)];
    assert_eq!(check_single_instance(&config(), &table, None, NOW), Verdict::Allow);
    let table = vec![instance(77, Some(1), 10)];
    assert_eq!(
        check_single_instance(&config(), &table, None, NOW),
        Verdict::Abort { pid: 77, count: 1, age: 10 }
    );
}

#[test]
fn name_matches_where_it_contains_the_program_name() {
    for name in ["wallpaper-pick", "wallpaper-picker", "my-wallpaper-pick", "xwallpaper-pickerx"] {
        let table = vec![ProcessRecord {
            pid: 77,
            parent_pid: Some(1),
            start_time: NOW - 10,
            name: String::from(name),
        }];
        assert_eq!(
            check_single_instance(&config(), &table, Some(SELF_PID), NOW),
            Verdict::Abort { pid: 77, count: 1, age: 10 }
        );
    }
    for name in ["wallpaper-pic", "Wallpaper-Pick", "wallpaper_pick", "wallpaper", "allpaper-pick"] {
        let table = vec![ProcessRecord {
            pid: 77,
            parent_pid: Some(1),
            start_time: NOW - 10,
            name: String::from(name),
        }];
        assert_eq!(check_single_instance(&config(), &table, Some(SELF_PID), NOW), Verdict::Allow);
    }
}

#[test]
fn contains_text_finds_a_pattern_anywhere() {
    assert!(contains_text("wallpaper", "wall"));
    assert!(contains_text("wallpaper", "paper"));
    assert!(contains_text("wallpaper", "lpap"));
    assert!(contains_text("wallpaper", "wallpaper"));
    assert!(contains_text("aab", "ab"));
    assert!(contains_text("grüße", "üß"));
}

#[test]
fn contains_text_rejects_what_is_not_there() {
    assert!(!contains_text("wallpaper", "walls"));
    assert!(!contains_text("wallpaper", "wallpapers"));
    assert!(!contains_text("wallpaper", "wlp"));
    assert!(!contains_text("", "a"));
    assert!(!contains_text("grüße", "u"));
}

#[test]
fn contains_text_finds_the_empty_pattern() {
    assert!(contains_text("wallpaper", ""));
    assert!(contains_text("", ""));
}
