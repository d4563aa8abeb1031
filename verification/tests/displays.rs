use kaiser::display::{
    contains_display_id, copy_vec, list_with_known_inactive, DisplayId, DisplayInfo, Layout,
    OutputConfig,
};
use kaiser::topology::{
    all_disabled_error, contains_id, currently_active_targets, layout_has_enabled_output,
    needs_to_enable_inactive, persisted_snapshot, ModeInfo, PathInfo, RawTopologySnapshot,
    TopologySnapshot, PATH_ACTIVE,
};
use kaiser::display::ManagerError;

fn id(luid: u64, target: u32) -> DisplayId {
    DisplayId { adapter_luid: luid, target_id: target }
}

fn display(luid: u64, target: u32, name: &str, active: bool) -> DisplayInfo {
    DisplayInfo { id: id(luid, target), name: name.to_string(), is_active: active }
}

fn output(luid: u64, target: u32, enabled: bool) -> OutputConfig {
    OutputConfig { display_id: id(luid, target), enabled }
}

fn path(flags: u32, luid: u64, target: u32) -> PathInfo {
    PathInfo { flags, adapter_luid: luid, source_id: 0, target_id: target }
}

#[test]
fn listing_appends_remembered_inactive_displays() {
    let active = vec![display(1, 10, "Main", true)];
    let remembered = vec![
        display(1, 10, "Main", true),
        display(1, 11, "Side", true),
        display(2, 10, "TV", false),
    ];
    let listed = list_with_known_inactive(active, Some(remembered));
    assert_eq!(
        listed,
        vec![
            display(1, 10, "Main", true),
            display(1, 11, "Side", false),
            display(2, 10, "TV", false),
        ]
    );
}

#[test]
fn listing_without_remembered_list_shows_active_only() {
    let active = vec![display(1, 10, "Main", true), display(1, 11, "Side", true)];
    let listed = list_with_known_inactive(active.clone(), None);
    assert_eq!(listed, active);
}

#[test]
fn listing_keeps_duplicate_remembered_entries() {
    let active = vec![display(1, 10, "Main", true)];
    let remembered = vec![display(3, 1, "Old", true), display(3, 1, "Old", true)];
    let listed = list_with_known_inactive(active, Some(remembered));
    assert_eq!(listed.len(), 3);
    assert!(!listed[1].is_active && !listed[2].is_active);
}

#[test]
fn listing_with_empty_active_marks_all_remembered_off() {
    let remembered = vec![display(3, 1, "A", true), display(3, 2, "B", true)];
    let listed = list_with_known_inactive(Vec::new(), Some(remembered));
    assert_eq!(listed, vec![display(3, 1, "A", false), display(3, 2, "B", false)]);
}

#[test]
fn display_id_lookup() {
    let displays = vec![display(1, 10, "Main", true)];
    assert!(contains_display_id(&displays, id(1, 10)));
    assert!(!contains_display_id(&displays, id(1, 11)));
    assert!(!contains_display_id(&displays, id(2, 10)));
}

#[test]
fn active_targets_follow_the_active_flag() {
    let paths = vec![path(PATH_ACTIVE, 1, 10), path(0, 1, 11), path(0x3, 2, 5), path(0x2, 2, 6), path(1, 1, 10)];
    let active = currently_active_targets(&paths);
    assert!(contains_id(&active, id(1, 10)));
    assert!(!contains_id(&active, id(1, 11)));
    assert!(contains_id(&active, id(2, 5)));
    assert!(!contains_id(&active, id(2, 6)));
    assert_eq!(active.len(), 2);
}

#[test]
fn enabled_output_detection() {
    let none = Layout { outputs: vec![output(1, 10, false), output(1, 11, false)] };
    let some = Layout { outputs: vec![output(1, 10, false), output(1, 11, true)] };
    let empty = Layout { outputs: Vec::new() };
    assert!(!layout_has_enabled_output(&none));
    assert!(layout_has_enabled_output(&some));
    assert!(!layout_has_enabled_output(&empty));
}

#[test]
fn enabling_an_undriven_target_needs_rediscovery() {
    let active = vec![id(1, 10)];
    let same = Layout { outputs: vec![output(1, 10, true), output(1, 11, false)] };
    let new_one = Layout { outputs: vec![output(1, 10, true), output(1, 11, true)] };
    assert!(!needs_to_enable_inactive(&same, &active));
    assert!(needs_to_enable_inactive(&new_one, &active));
}

#[test]
fn refusal_message() {
    assert_eq!(
        all_disabled_error(),
        ManagerError::Backend("refusing to apply layout with all displays disabled".to_string())
    );
}

#[test]
fn persisted_record_holds_displays_and_layout() {
    let snapshot = TopologySnapshot {
        raw: RawTopologySnapshot {
            paths: vec![path(1, 1, 10)],
            modes: vec![ModeInfo { info_type: 1, adapter_luid: 1, id: 0 }],
        },
        layout: Layout { outputs: vec![output(1, 10, true)] },
        displays: vec![display(1, 10, "Main", true)],
    };
    let record = persisted_snapshot(&snapshot);
    assert_eq!(record.displays, snapshot.displays);
    assert_eq!(record.layout, snapshot.layout);
    assert_eq!(snapshot.duplicate(), snapshot);
}

#[test]
fn copies_are_equal() {
    let v = vec![1u16, 2, 3];
    assert_eq!(copy_vec(&v), v);
    let d = display(1, 2, "X", true);
    assert_eq!(d.duplicate(), d);
}

#[test]
fn error_message_is_the_backend_text() {
    let e = ManagerError::Backend("no displays".to_string());
    assert_eq!(e.message(), "no displays");
}
