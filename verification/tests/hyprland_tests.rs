use wisteria::compositor::Workspace;
use wisteria::hyprland::{
    event_socket_path, focus_workspace_request, load_active_workspace, load_workspaces,
    parse_event, request_socket_path, EventError, EventTracker, HyprlandEvent, QueryError,
};

fn summary(list: &[Workspace]) -> Vec<(String, u64, String, bool)> {
    list.iter().map(|w| (w.display.clone(), w.id, w.name.clone(), w.active)).collect()
}

#[test]
fn socket_paths() {
    assert_eq!(request_socket_path("/run/user/1000", "abc_123"), "/run/user/1000/hypr/abc_123/.socket.sock");
    assert_eq!(event_socket_path("/run/user/1000", "abc_123"), "/run/user/1000/hypr/abc_123/.socket2.sock");
}

#[test]
fn focus_request() {
    assert_eq!(focus_workspace_request(4), "dispatch hl.dsp.focus({ workspace = 4 })");
    assert_eq!(focus_workspace_request(12), "dispatch hl.dsp.focus({ workspace = 12 })");
}

#[test]
fn parse_focused_monitor() {
    match parse_event("focusedmonv2>>DP-1,3\n") {
        Ok(HyprlandEvent::FocusedMonitor { display, workspace }) => {
            assert_eq!(display, "DP-1");
            assert_eq!(workspace, 3);
        }
        other => panic!("{:?}", other),
    }
}

#[test]
fn parse_workspace_events() {
    assert!(matches!(parse_event("workspacev2>>5,5"), Ok(HyprlandEvent::WorkspaceActivated { workspace: 5 })));
    match parse_event("createworkspacev2>>6,web") {
        Ok(HyprlandEvent::WorkspaceCreated { workspace, name }) => {
            assert_eq!(workspace, 6);
            assert_eq!(name, "web");
        }
        other => panic!("{:?}", other),
    }
    assert!(matches!(parse_event("destroyworkspacev2>>6,web"), Ok(HyprlandEvent::WorkspaceDestroyed { workspace: 6 })));
}

#[test]
fn parse_other_event() {
    match parse_event("activewindowv2>>5a1b2c") {
        Ok(HyprlandEvent::Other { parts }) => assert_eq!(parts, vec!["activewindowv2", "5a1b2c"]),
        other => panic!("{:?}", other),
    }
    match parse_event("") {
        Ok(HyprlandEvent::Other { parts }) => assert_eq!(parts, vec![""]),
        other => panic!("{:?}", other),
    }
}

#[test]
fn parse_errors() {
    assert_eq!(parse_event("focusedmonv2").err(), Some(EventError::MissingField));
    assert_eq!(parse_event("focusedmonv2>>DP-1").err(), Some(EventError::MissingField));
    assert_eq!(parse_event("focusedmonv2>>DP-1,x").err(), Some(EventError::BadNumber));
    assert_eq!(parse_event("workspacev2>>").err(), Some(EventError::BadNumber));
    assert_eq!(parse_event("workspacev2").err(), Some(EventError::MissingField));
    assert_eq!(parse_event("createworkspacev2>>7").err(), Some(EventError::MissingField));
    assert_eq!(parse_event("createworkspacev2>>x").err(), Some(EventError::BadNumber));
    assert_eq!(parse_event("destroyworkspacev2>>-1,a").err(), Some(EventError::BadNumber));
}

#[test]
fn tracker_follows_events() {
    let mut list: Vec<Workspace> = Vec::new();
    let mut tracker = EventTracker::new();
    for line in [
        "createworkspacev2>>1,1",
        "focusedmonv2>>DP-1,1",
        "createworkspacev2>>2,2",
        "workspacev2>>2,2",
        "focusedmonv2>>DP-2,2",
        "activewindowv2>>abc",
    ] {
        let event = parse_event(line).unwrap();
        assert!(tracker.can_apply(&list, &event));
        tracker.apply(&mut list, event);
    }
    assert_eq!(
        summary(&list),
        vec![("DP-1".into(), 1, "1".into(), false), ("DP-2".into(), 2, "2".into(), true)]
    );
    assert_eq!(tracker.created_workspace_id, None);
    let event = parse_event("destroyworkspacev2>>1,1").unwrap();
    tracker.apply(&mut list, event);
    assert_eq!(summary(&list), vec![("DP-2".into(), 2, "2".into(), true)]);
}

#[test]
fn tracker_refuses_focus_after_vanished_creation() {
    let mut list: Vec<Workspace> = Vec::new();
    let mut tracker = EventTracker::new();
    tracker.apply(&mut list, parse_event("createworkspacev2>>3,3").unwrap());
    assert_eq!(tracker.created_workspace_id, Some(3));
    tracker.apply(&mut list, parse_event("destroyworkspacev2>>3,3").unwrap());
    let focus = parse_event("focusedmonv2>>DP-1,1").unwrap();
    assert!(!tracker.can_apply(&list, &focus));
    assert!(tracker.can_apply(&list, &parse_event("workspacev2>>1,1").unwrap()));
}

#[test]
fn listing_is_read() {
    let mut list = Vec::new();
    let text = r#"[{"id":1,"name":"1","monitor":"DP-1","windows":2},{"id":4,"name":"web","monitor":"HDMI-A-1"}]"#;
    assert_eq!(load_workspaces(&mut list, text), Some(Ok(())));
    assert_eq!(
        summary(&list),
        vec![("DP-1".into(), 1, "1".into(), false), ("HDMI-A-1".into(), 4, "web".into(), false)]
    );
}

#[test]
fn listing_errors() {
    let mut list = Vec::new();
    assert_eq!(load_workspaces(&mut list, "not json"), Some(Err(QueryError::InvalidJson)));
    assert_eq!(load_workspaces(&mut list, r#"{"id":1}"#), Some(Err(QueryError::NotAnArray)));
    assert_eq!(load_workspaces(&mut list, r#"[{"id":1,"name":"1"}]"#), None);
    assert_eq!(load_workspaces(&mut list, r#"[{"id":-1,"name":"1","monitor":"DP-1"}]"#), None);
    assert!(list.is_empty());
    assert_eq!(load_workspaces(&mut list, "[]"), Some(Ok(())));
    assert!(list.is_empty());
}

#[test]
fn active_reply_is_applied() {
    let mut list = Vec::new();
    load_workspaces(&mut list, r#"[{"id":1,"name":"1","monitor":"DP-1"},{"id":2,"name":"2","monitor":"DP-1"}]"#);
    assert_eq!(load_active_workspace(&mut list, r#"{"id":2,"name":"2","monitor":"DP-1"}"#), Some(Ok(())));
    assert_eq!(list.iter().map(|w| w.active).collect::<Vec<_>>(), vec![false, true]);
    assert_eq!(load_active_workspace(&mut list, "{"), Some(Err(QueryError::InvalidJson)));
    assert_eq!(load_active_workspace(&mut list, r#"{"id":2}"#), None);
    assert_eq!(load_active_workspace(&mut list, "[]"), None);
    assert_eq!(list.iter().map(|w| w.active).collect::<Vec<_>>(), vec![false, true]);
}

#[test]
fn events_keep_ids_unique() {
    let mut list: Vec<Workspace> = Vec::new();
    let mut tracker = EventTracker::new();
    for line in [
        "createworkspacev2>>1,1",
        "createworkspacev2>>2,2",
        "focusedmonv2>>DP-1,2",
        "destroyworkspacev2>>1,1",
        "createworkspacev2>>1,again",
        "workspacev2>>1,again",
    ] {
        let event = parse_event(line).unwrap();
        assert!(tracker.can_apply(&list, &event));
        tracker.apply(&mut list, event);
    }
    let mut ids: Vec<u64> = list.iter().map(|w| w.id).collect();
    ids.sort();
    ids.dedup();
    assert_eq!(ids.len(), list.len());
    assert_eq!(list.iter().filter(|w| w.active).count(), 1);
}

#[test]
fn focus_request_id_reads_back() {
    for id in [0u64, 7, 10, 123456789] {
        let request = focus_workspace_request(id);
        let digits = request
            .strip_prefix("dispatch hl.dsp.focus({ workspace = ")
            .and_then(|r| r.strip_suffix(" })"))
            .unwrap();
        assert_eq!(wisteria::text::parse_u64(digits), Some(id));
    }
}

#[test]
fn display_once_assigned_is_kept() {
    let mut list: Vec<Workspace> = Vec::new();
    let mut tracker = EventTracker::new();
    for line in [
        "createworkspacev2>>5,5",
        "workspacev2>>5,5",
        "focusedmonv2>>DP-1,5",
        "focusedmonv2>>DP-3,5",
        "createworkspacev2>>6,6",
        "destroyworkspacev2>>6,6",
        "workspacev2>>5,5",
    ] {
        let event = parse_event(line).unwrap();
        assert!(tracker.can_apply(&list, &event));
        tracker.apply(&mut list, event);
        if let Some(w) = list.iter().find(|w| w.id == 5) {
            assert!(w.display.is_empty() || w.display == "DP-1");
            assert_eq!(w.name, "5");
        }
    }
    assert_eq!(summary(&list), vec![("DP-1".into(), 5, "5".into(), true)]);
}
