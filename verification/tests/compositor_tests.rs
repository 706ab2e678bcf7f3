use wisteria::compositor::{
    add_created_workspace, compositor_for_session, contains_workspace, maybe_set_display,
    remove_workspace, set_active_workspace, text_eq, visible_workspaces, CompositorKind,
    Workspace,
};

fn ws(display: &str, id: u64, name: &str, active: bool) -> Workspace {
    Workspace { display: display.to_string(), id, name: name.to_string(), active }
}

fn summary(list: &[Workspace]) -> Vec<(String, u64, String, bool)> {
    list.iter().map(|w| (w.display.clone(), w.id, w.name.clone(), w.active)).collect()
}

#[test]
fn activation_marks_only_the_focused_workspace() {
    let mut list = vec![ws("DP-1", 1, "1", true), ws("", 2, "2", false), ws("HDMI-A-1", 3, "3", false)];
    set_active_workspace(&mut list, "DP-1", 2);
    assert_eq!(
        summary(&list),
        vec![
            ("DP-1".into(), 1, "1".into(), false),
            ("DP-1".into(), 2, "2".into(), true),
            ("HDMI-A-1".into(), 3, "3".into(), false),
        ]
    );
}

#[test]
fn activation_keeps_a_known_display() {
    let mut list = vec![ws("HDMI-A-1", 3, "3", false)];
    set_active_workspace(&mut list, "DP-1", 3);
    assert_eq!(summary(&list), vec![("HDMI-A-1".into(), 3, "3".into(), true)]);
}

#[test]
fn activation_of_unlisted_workspace_clears_all() {
    let mut list = vec![ws("DP-1", 1, "1", true), ws("DP-1", 2, "2", true)];
    set_active_workspace(&mut list, "DP-1", 9);
    assert!(list.iter().all(|w| !w.active));
}

#[test]
fn activation_twice_is_activation_once() {
    let mut once = vec![ws("", 1, "1", false), ws("DP-2", 2, "2", true)];
    set_active_workspace(&mut once, "DP-1", 1);
    let mut twice = once.clone();
    set_active_workspace(&mut twice, "DP-1", 1);
    assert_eq!(summary(&once), summary(&twice));
}

#[test]
fn placing_sets_the_display_once() {
    let mut list = vec![ws("", 4, "4", false), ws("DP-1", 5, "5", false)];
    maybe_set_display(&mut list, "DP-2", Some(4));
    assert_eq!(list[0].display, "DP-2");
    maybe_set_display(&mut list, "DP-3", Some(4));
    assert_eq!(list[0].display, "DP-2");
    maybe_set_display(&mut list, "DP-3", Some(5));
    assert_eq!(list[1].display, "DP-1");
    maybe_set_display(&mut list, "DP-3", None);
    assert_eq!(summary(&list)[0].0, "DP-2");
}

#[test]
fn create_then_destroy_restores_the_list() {
    let mut list = vec![ws("DP-1", 1, "1", true)];
    let before = summary(&list);
    add_created_workspace(&mut list, 7, "seven".to_string());
    assert_eq!(summary(&list)[1], ("".into(), 7, "seven".into(), false));
    assert!(contains_workspace(&list, 7));
    remove_workspace(&mut list, 7);
    assert_eq!(summary(&list), before);
    assert!(!contains_workspace(&list, 7));
}

#[test]
fn removal_takes_the_first_match_only() {
    let mut list = vec![ws("a", 1, "x", false), ws("b", 1, "y", false), ws("c", 2, "z", false)];
    remove_workspace(&mut list, 1);
    assert_eq!(summary(&list), vec![("b".into(), 1, "y".into(), false), ("c".into(), 2, "z".into(), false)]);
    remove_workspace(&mut list, 42);
    assert_eq!(list.len(), 2);
}

#[test]
fn visible_workspaces_are_filtered_and_sorted() {
    let list = vec![
        ws("DP-1", 3, "three", false),
        ws("DP-2", 1, "one", false),
        ws("DP-1", 2, "two", true),
        ws("DP-1", 3, "three-b", false),
        ws("DP-1", 1, "uno", false),
    ];
    let shown = visible_workspaces(&list, "DP-1");
    assert_eq!(
        shown.iter().map(|w| (w.id, w.name.as_str())).collect::<Vec<_>>(),
        vec![(1, "uno"), (2, "two"), (3, "three"), (3, "three-b")]
    );
    assert!(visible_workspaces(&list, "HDMI-A-1").is_empty());
}

#[test]
fn compositor_follows_the_session_desktop() {
    assert_eq!(compositor_for_session(Some("Hyprland".into()), None), Some(CompositorKind::Hyprland));
    assert_eq!(compositor_for_session(None, Some("Hyprland".into())), Some(CompositorKind::Hyprland));
    assert_eq!(compositor_for_session(Some("GNOME".into()), Some("Hyprland".into())), None);
    assert_eq!(compositor_for_session(None, None), None);
    assert_eq!(compositor_for_session(Some("hyprland".into()), None), None);
}

#[test]
fn text_equality() {
    assert!(text_eq("DP-1", "DP-1"));
    assert!(!text_eq("DP-1", "DP-10"));
    assert!(!text_eq("DP-1", "DP-2"));
    assert!(text_eq("", ""));
}
