//! Following Hyprland: the requests the shell sends it, the events it reports
//! on its event socket, and the JSON replies to the workspace queries.
use vstd::prelude::*;

use crate::compositor::{
    activated, add_created_workspace, created, has_id, lemma_activation_marks_focused,
    find_id, lemma_changes_keep_unique_ids, lemma_create_then_destroy, lemma_find_id,
    maybe_set_display, placed,
    remove_workspace, removed, set_active_workspace, text_eq, unique_ids, Workspace,
    WorkspaceView,
};
use crate::text::{
    format_u64, decimal, lemma_split_nonempty, parse_decimal, parse_u64, split_on, split_text,
    trim, trim_text,
};

verus! {

/// The request that lists every workspace.
pub const WORKSPACES_QUERY: &'static str = "j/workspaces";

/// The request that names the focused workspace.
pub const ACTIVE_WORKSPACE_QUERY: &'static str = "j/activeworkspace";

/// The path of Hyprland's request socket for the instance `signature` under
/// the runtime directory `runtime_dir`.
pub fn request_socket_path(runtime_dir: &str, signature: &str) -> (r: String)
    ensures
        r@ == runtime_dir@ + "/hypr/"@ + signature@ + "/.socket.sock"@,
{
    let mut r = runtime_dir.to_owned();
    r.append("/hypr/");
    r.append(signature);
    r.append("/.socket.sock");
    r
}

/// The path of Hyprland's event socket for the instance `signature` under the
/// runtime directory `runtime_dir`.
pub fn event_socket_path(runtime_dir: &str, signature: &str) -> (r: String)
    ensures
        r@ == runtime_dir@ + "/hypr/"@ + signature@ + "/.socket2.sock"@,
{
    let mut r = runtime_dir.to_owned();
    r.append("/hypr/");
    r.append(signature);
    r.append("/.socket2.sock");
    r
}

/// The request that focuses workspace `id`.
pub fn focus_workspace_request(id: u64) -> (r: String)
    ensures
        r@ == "dispatch hl.dsp.focus({ workspace = "@ + decimal(id as nat) + " })"@,
{
    let mut r = "dispatch hl.dsp.focus({ workspace = ".to_owned();
    let n = format_u64(id);
    r.append(n.as_str());
    r.append(" })");
    r
}


/// An event from Hyprland's event socket.
#[derive(Clone, Debug)]
pub enum HyprlandEvent {
    /// `focusedmonv2>>MONITOR,WORKSPACEID`: a monitor took the focus, showing
    /// the workspace.
    FocusedMonitor { display: String, workspace: u64 },
    /// `workspacev2>>WORKSPACEID,NAME`: the workspace became the active one.
    WorkspaceActivated { workspace: u64 },
    /// `createworkspacev2>>WORKSPACEID,NAME`: the workspace was created.
    WorkspaceCreated { workspace: u64, name: String },
    /// `destroyworkspacev2>>WORKSPACEID,NAME`: the workspace was destroyed.
    WorkspaceDestroyed { workspace: u64 },
    /// Any other event, with the fields of its line.
    Other { parts: Vec<String> },
}

/// A `HyprlandEvent` with its texts as character sequences.
pub enum HyprlandEventView {
    FocusedMonitor { display: Seq<char>, workspace: u64 },
    WorkspaceActivated { workspace: u64 },
    WorkspaceCreated { workspace: u64, name: Seq<char> },
    WorkspaceDestroyed { workspace: u64 },
    Other { parts: Seq<Seq<char>> },
}

impl View for HyprlandEvent {
    type V = HyprlandEventView;

    open spec fn view(&self) -> HyprlandEventView {
        match self {
            HyprlandEvent::FocusedMonitor { display, workspace } => HyprlandEventView::FocusedMonitor {
                display: display@,
                workspace: *workspace,
            },
            HyprlandEvent::WorkspaceActivated { workspace } => HyprlandEventView::WorkspaceActivated {
                workspace: *workspace,
            },
            HyprlandEvent::WorkspaceCreated { workspace, name } => HyprlandEventView::WorkspaceCreated {
                workspace: *workspace,
                name: name@,
            },
            HyprlandEvent::WorkspaceDestroyed { workspace } => HyprlandEventView::WorkspaceDestroyed {
                workspace: *workspace,
            },
            HyprlandEvent::Other { parts } => HyprlandEventView::Other { parts: parts.deep_view() },
        }
    }
}

/// Why an event line could not be read.
#[derive(Clone, Copy, Debug, PartialEq, Eq, Structural)]
pub enum EventError {
    /// A field that the event needs is not in the line.
    MissingField,
    /// A workspace id is not a decimal `u64`.
    BadNumber,
}

/// The view of a parse result.
pub open spec fn event_result_view(r: Result<HyprlandEvent, EventError>) -> Result<
    HyprlandEventView,
    EventError,
> {
    match r {
        Ok(e) => Ok(e@),
        Err(e) => Err(e),
    }
}

/// The comma-separated data of an event.
pub open spec fn event_data(s: Seq<char>) -> Seq<Seq<char>> {
    split_on(s, ","@)
}

/// The event that a line of the event socket reports: the trimmed line is cut
/// at each `>>`; the first field names the event and the second holds its
/// comma-separated data.
pub open spec fn event_of_line(line: Seq<char>) -> Result<HyprlandEventView, EventError> {
    let parts = split_on(trim(line), ">>"@);
    let name = parts[0];
    if name == "focusedmonv2"@ {
        if parts.len() < 2 {
            Err(EventError::MissingField)
        } else {
            let data = event_data(parts[1]);
            if data.len() < 2 {
                Err(EventError::MissingField)
            } else {
                match parse_decimal(data[1]) {
                    Some(id) => Ok(HyprlandEventView::FocusedMonitor { display: data[0], workspace: id }),
                    None => Err(EventError::BadNumber),
                }
            }
        }
    } else if name == "workspacev2"@ {
        if parts.len() < 2 {
            Err(EventError::MissingField)
        } else {
            match parse_decimal(event_data(parts[1])[0]) {
                Some(id) => Ok(HyprlandEventView::WorkspaceActivated { workspace: id }),
                None => Err(EventError::BadNumber),
            }
        }
    } else if name == "createworkspacev2"@ {
        if parts.len() < 2 {
            Err(EventError::MissingField)
        } else {
            let data = event_data(parts[1]);
            match parse_decimal(data[0]) {
                None => Err(EventError::BadNumber),
                Some(id) => if data.len() < 2 {
                    Err(EventError::MissingField)
                } else {
                    Ok(HyprlandEventView::WorkspaceCreated { workspace: id, name: data[1] })
                },
            }
        }
    } else if name == "destroyworkspacev2"@ {
        if parts.len() < 2 {
            Err(EventError::MissingField)
        } else {
            match parse_decimal(event_data(parts[1])[0]) {
                Some(id) => Ok(HyprlandEventView::WorkspaceDestroyed { workspace: id }),
                None => Err(EventError::BadNumber),
            }
        }
    } else {
        Ok(HyprlandEventView::Other { parts })
    }
}

/// Reads one line of the event socket.
pub fn parse_event(line: &str) -> (r: Result<HyprlandEvent, EventError>)
    ensures
        event_result_view(r) == event_of_line(line@),
{
    proof {
        reveal_strlit(">>");
        reveal_strlit(",");
    }
    let t = trim_text(line);
    let parts = split_text(t.as_str(), ">>");
    proof {
        lemma_split_nonempty(t@, ">>"@);
    }
    let name = parts[0].as_str();
    if text_eq(name, "focusedmonv2") {
        if parts.len() < 2 {
            return Err(EventError::MissingField);
        }
        let data = split_text(parts[1].as_str(), ",");
        if data.len() < 2 {
            return Err(EventError::MissingField);
        }
        match parse_u64(data[1].as_str()) {
            Some(id) => Ok(HyprlandEvent::FocusedMonitor { display: data[0].clone(), workspace: id }),
            None => Err(EventError::BadNumber),
        }
    } else if text_eq(name, "workspacev2") {
        if parts.len() < 2 {
            return Err(EventError::MissingField);
        }
        let data = split_text(parts[1].as_str(), ",");
        proof {
            lemma_split_nonempty(parts@[1]@, ","@);
        }
        match parse_u64(data[0].as_str()) {
            Some(id) => Ok(HyprlandEvent::WorkspaceActivated { workspace: id }),
            None => Err(EventError::BadNumber),
        }
    } else if text_eq(name, "createworkspacev2") {
        if parts.len() < 2 {
            return Err(EventError::MissingField);
        }
        let data = split_text(parts[1].as_str(), ",");
        proof {
            lemma_split_nonempty(parts@[1]@, ","@);
        }
        match parse_u64(data[0].as_str()) {
            None => Err(EventError::BadNumber),
            Some(id) => {
                if data.len() < 2 {
                    Err(EventError::MissingField)
                } else {
                    Ok(HyprlandEvent::WorkspaceCreated { workspace: id, name: data[1].clone() })
                }
            },
        }
    } else if text_eq(name, "destroyworkspacev2") {
        if parts.len() < 2 {
            return Err(EventError::MissingField);
        }
        let data = split_text(parts[1].as_str(), ",");
        proof {
            lemma_split_nonempty(parts@[1]@, ","@);
        }
        match parse_u64(data[0].as_str()) {
            Some(id) => Ok(HyprlandEvent::WorkspaceDestroyed { workspace: id }),
            None => Err(EventError::BadNumber),
        }
    } else {
        Ok(HyprlandEvent::Other { parts })
    }
}


/// The workspace list and the workspace created last and not yet placed on a
/// display, after `event`.
pub open spec fn after_event(
    pending: Option<u64>,
    ws: Seq<WorkspaceView>,
    event: HyprlandEventView,
) -> (Option<u64>, Seq<WorkspaceView>) {
    match event {
        HyprlandEventView::FocusedMonitor { display, workspace } => (
            None,
            placed(activated(ws, display, workspace), display, pending),
        ),
        HyprlandEventView::WorkspaceActivated { workspace } => (
            pending,
            activated(ws, Seq::empty(), workspace),
        ),
        HyprlandEventView::WorkspaceCreated { workspace, name } => (
            Some(workspace),
            ws.push(created(workspace, name)),
        ),
        HyprlandEventView::WorkspaceDestroyed { workspace } => (pending, removed(ws, workspace)),
        HyprlandEventView::Other { .. } => (pending, ws),
    }
}

/// What the event loop remembers between events: the workspace created last,
/// whose display the next monitor focus gives it.
#[derive(Clone, Copy, Debug)]
pub struct EventTracker {
    pub created_workspace_id: Option<u64>,
}

impl EventTracker {
    /// A tracker that remembers no workspace.
    pub fn new() -> (r: EventTracker)
        ensures
            r.created_workspace_id is None,
    {
        EventTracker { created_workspace_id: None }
    }

    /// `event` can be applied: a monitor focus needs the workspace created last,
    /// if any, to be listed.
    pub open spec fn accepts(self, ws: Seq<WorkspaceView>, event: HyprlandEventView) -> bool {
        event is FocusedMonitor && self.created_workspace_id is Some ==> has_id(
            ws,
            self.created_workspace_id->0,
        )
    }

    /// Whether `event` can be applied to `ws`.
    pub fn can_apply(&self, ws: &Vec<Workspace>, event: &HyprlandEvent) -> (r: bool)
        ensures
            r == self.accepts(ws.deep_view(), event@),
    {
        match (event, self.created_workspace_id) {
            (HyprlandEvent::FocusedMonitor { .. }, Some(id)) => crate::compositor::contains_workspace(
                ws,
                id,
            ),
            _ => true,
        }
    }

    /// Applies `event` to the workspace list `ws`.
    pub fn apply(&mut self, ws: &mut Vec<Workspace>, event: HyprlandEvent)
        requires
            old(self).accepts(old(ws).deep_view(), event@),
        ensures
            (final(self).created_workspace_id, final(ws).deep_view()) == after_event(
                old(self).created_workspace_id,
                old(ws).deep_view(),
                event@,
            ),
            event matches HyprlandEvent::WorkspaceActivated { workspace } ==> {
                &&& final(self).created_workspace_id == old(self).created_workspace_id
                &&& final(ws).len() == old(ws).len()
                &&& forall|i: int|
                    0 <= i < old(ws).len() ==> (#[trigger] final(ws).deep_view()[i]).active == (
                    old(ws).deep_view()[i].id == workspace)
            },
    {
        match event {
            HyprlandEvent::FocusedMonitor { display, workspace } => {
                proof {
                    lemma_activation_marks_focused(ws.deep_view(), display@, workspace);
                    if let Some(p) = self.created_workspace_id {
                        let i = choose|i: int| 0 <= i < ws.deep_view().len() && ws.deep_view()[i].id == p;
                        assert(activated(ws.deep_view(), display@, workspace)[i].id == p);
                    }
                }
                set_active_workspace(ws, display.as_str(), workspace);
                maybe_set_display(ws, display.as_str(), self.created_workspace_id);
                self.created_workspace_id = None;
            },
            HyprlandEvent::WorkspaceActivated { workspace } => {
                proof {
                    reveal_strlit("");
                    assert(""@ =~= Seq::<char>::empty());
                }
                set_active_workspace(ws, "", workspace);
                proof {
                    lemma_activated_event_marks(self.created_workspace_id, old(ws).deep_view(), workspace);
                }
            },
            HyprlandEvent::WorkspaceCreated { workspace, name } => {
                self.created_workspace_id = Some(workspace);
                add_created_workspace(ws, workspace, name);
            },
            HyprlandEvent::WorkspaceDestroyed { workspace } => {
                remove_workspace(ws, workspace);
            },
            HyprlandEvent::Other { .. } => {},
        }
    }
}


/// A workspace that is created while not listed and then destroyed leaves the
/// list as it was.
pub proof fn lemma_create_destroy_events(
    pending: Option<u64>,
    ws: Seq<WorkspaceView>,
    id: u64,
    name: Seq<char>,
)
    requires
        !has_id(ws, id),
    ensures
        ({
            let (p1, w1) = after_event(
                pending,
                ws,
                HyprlandEventView::WorkspaceCreated { workspace: id, name },
            );
            after_event(p1, w1, HyprlandEventView::WorkspaceDestroyed { workspace: id }).1 == ws
        }),
{
    lemma_create_then_destroy(ws, id, name);
}

/// Every event keeps the workspace ids unique, provided that a created
/// workspace is not listed yet.
pub proof fn lemma_events_keep_unique_ids(
    pending: Option<u64>,
    ws: Seq<WorkspaceView>,
    event: HyprlandEventView,
)
    requires
        unique_ids(ws),
        event matches HyprlandEventView::WorkspaceCreated { workspace, .. } ==> !has_id(
            ws,
            workspace,
        ),
    ensures
        unique_ids(after_event(pending, ws, event).1),
{
    match event {
        HyprlandEventView::FocusedMonitor { display, workspace } => {
            lemma_changes_keep_unique_ids(ws, display, workspace, Seq::empty(), pending);
            lemma_changes_keep_unique_ids(
                activated(ws, display, workspace),
                display,
                workspace,
                Seq::empty(),
                pending,
            );
        },
        HyprlandEventView::WorkspaceActivated { workspace } => {
            lemma_changes_keep_unique_ids(ws, Seq::empty(), workspace, Seq::empty(), pending);
        },
        HyprlandEventView::WorkspaceCreated { workspace, name } => {
            lemma_changes_keep_unique_ids(ws, Seq::empty(), workspace, name, pending);
        },
        HyprlandEventView::WorkspaceDestroyed { workspace } => {
            lemma_changes_keep_unique_ids(ws, Seq::empty(), workspace, Seq::empty(), pending);
        },
        HyprlandEventView::Other { .. } => {},
    }
}

/// After a monitor focus, the workspaces that are active are exactly those with
/// the focused id, and no created workspace waits for a display.
pub proof fn lemma_focus_event_marks_focused(
    pending: Option<u64>,
    ws: Seq<WorkspaceView>,
    display: Seq<char>,
    id: u64,
)
    ensures
        ({
            let (p, w) = after_event(
                pending,
                ws,
                HyprlandEventView::FocusedMonitor { display, workspace: id },
            );
            &&& p is None
            &&& w.len() == ws.len()
            &&& forall|i: int|
                0 <= i < w.len() ==> (#[trigger] w[i]).active == (ws[i].id == id) && w[i].id
                    == ws[i].id
        }),
{
    lemma_activation_marks_focused(ws, display, id);
    let a = activated(ws, display, id);
    let w = placed(a, display, pending);
    assert forall|i: int| 0 <= i < w.len() implies (#[trigger] w[i]).active == (ws[i].id == id)
        && w[i].id == ws[i].id by {
        assert(a[i].active == (ws[i].id == id));
    }
}

/// A workspace switch keeps the list and the pending creation, and leaves
/// active exactly the workspaces with the switched-to id; nothing else changes.
pub proof fn lemma_activated_event_marks(
    pending: Option<u64>,
    ws: Seq<WorkspaceView>,
    id: u64,
)
    ensures
        ({
            let (p, w) = after_event(
                pending,
                ws,
                HyprlandEventView::WorkspaceActivated { workspace: id },
            );
            &&& p == pending
            &&& w.len() == ws.len()
            &&& forall|i: int|
                0 <= i < ws.len() ==> {
                    &&& (#[trigger] w[i]).active == (ws[i].id == id)
                    &&& w[i].id == ws[i].id
                    &&& w[i].name == ws[i].name
                    &&& w[i].display == ws[i].display
                }
        }),
{
    crate::compositor::lemma_activation_touches_only_focused(ws, Seq::empty(), id);
}

/// The kind of event that a line yields is set by the exact name before its
/// first `>>`: each of the four handled names gives its own kind, and any
/// other name gives `Other` with the line's `>>`-separated fields.
pub proof fn lemma_event_kind_by_name(line: Seq<char>)
    ensures
        ({
            let parts = split_on(trim(line), ">>"@);
            let r = event_of_line(line);
            &&& r matches Ok(HyprlandEventView::FocusedMonitor { .. }) ==> parts[0]
                == "focusedmonv2"@
            &&& r matches Ok(HyprlandEventView::WorkspaceActivated { .. }) ==> parts[0]
                == "workspacev2"@
            &&& r matches Ok(HyprlandEventView::WorkspaceCreated { .. }) ==> parts[0]
                == "createworkspacev2"@
            &&& r matches Ok(HyprlandEventView::WorkspaceDestroyed { .. }) ==> parts[0]
                == "destroyworkspacev2"@
            &&& r matches Ok(HyprlandEventView::Other { parts: p }) ==> p == parts
            &&& r is Err ==> parts.len() >= 1 && (parts[0] == "focusedmonv2"@ || parts[0]
                == "workspacev2"@ || parts[0] == "createworkspacev2"@ || parts[0]
                == "destroyworkspacev2"@)
            &&& (parts[0] != "focusedmonv2"@ && parts[0] != "workspacev2"@ && parts[0]
                != "createworkspacev2"@ && parts[0] != "destroyworkspacev2"@) ==> r
                == Ok::<HyprlandEventView, EventError>(HyprlandEventView::Other { parts })
        }),
{
    lemma_split_nonempty(trim(line), ">>"@);
}

/// The index, in the list before `event`, of the workspace found at index `j`
/// after it; -1 for the workspace that the event created.
pub open spec fn origin(ws: Seq<WorkspaceView>, event: HyprlandEventView, j: int) -> int {
    match event {
        HyprlandEventView::WorkspaceCreated { .. } => if j < ws.len() {
            j
        } else {
            -1
        },
        HyprlandEventView::WorkspaceDestroyed { workspace } => {
            let k = find_id(ws, workspace);
            if 0 <= k < ws.len() && j >= k {
                j + 1
            } else {
                j
            }
        },
        _ => j,
    }
}

/// Across any event, each workspace keeps its id and name, and a display once
/// assigned is never overwritten: a workspace without a display gets one only
/// from a monitor focus, and then the focused monitor. The one workspace that
/// comes from nowhere is the one a creation event adds, without a display.
pub proof fn lemma_event_keeps_identity_and_display(
    pending: Option<u64>,
    ws: Seq<WorkspaceView>,
    event: HyprlandEventView,
)
    ensures
        ({
            let w = after_event(pending, ws, event).1;
            forall|j: int|
                0 <= j < w.len() ==> {
                    let i = origin(ws, event, j);
                    if 0 <= i {
                        &&& i < ws.len()
                        &&& (#[trigger] w[j]).id == ws[i].id
                        &&& w[j].name == ws[i].name
                        &&& ws[i].display.len() > 0 ==> w[j].display == ws[i].display
                        &&& ws[i].display.len() == 0 && w[j].display.len() > 0 ==> (
                        event matches HyprlandEventView::FocusedMonitor { display, .. }
                            && w[j].display == display)
                    } else {
                        event matches HyprlandEventView::WorkspaceCreated { workspace, name }
                            && w[j] == created(workspace, name)
                    }
                }
        }),
{
    let w = after_event(pending, ws, event).1;
    match event {
        HyprlandEventView::FocusedMonitor { display, workspace } => {
            let a = activated(ws, display, workspace);
            assert forall|j: int| 0 <= j < w.len() implies {
                let i = origin(ws, event, j);
                &&& 0 <= i < ws.len()
                &&& (#[trigger] w[j]).id == ws[i].id
                &&& w[j].name == ws[i].name
                &&& ws[i].display.len() > 0 ==> w[j].display == ws[i].display
                &&& ws[i].display.len() == 0 && w[j].display.len() > 0 ==> w[j].display == display
            } by {
                assert(a[j].id == ws[j].id);
            }
        },
        HyprlandEventView::WorkspaceActivated { workspace } => {
            assert forall|j: int| 0 <= j < w.len() implies {
                &&& (#[trigger] w[j]).id == ws[j].id
                &&& w[j].name == ws[j].name
                &&& ws[j].display.len() > 0 ==> w[j].display == ws[j].display
                &&& w[j].display.len() == 0
                    || ws[j].display.len() > 0
            } by {}
        },
        HyprlandEventView::WorkspaceCreated { workspace, name } => {},
        HyprlandEventView::WorkspaceDestroyed { workspace } => {
            lemma_find_id(ws, workspace);
        },
        HyprlandEventView::Other { .. } => {},
    }
}

/// At most one workspace in `ws` is active.
pub open spec fn at_most_one_active(ws: Seq<WorkspaceView>) -> bool {
    forall|i: int, j: int|
        0 <= i < ws.len() && 0 <= j < ws.len() && ws[i].active && ws[j].active ==> i == j
}

/// With unique ids, at most one workspace is active after every event, given
/// that at most one was before and that a created workspace is not listed yet.
pub proof fn lemma_events_keep_single_active(
    pending: Option<u64>,
    ws: Seq<WorkspaceView>,
    event: HyprlandEventView,
)
    requires
        unique_ids(ws),
        at_most_one_active(ws),
        event matches HyprlandEventView::WorkspaceCreated { workspace, .. } ==> !has_id(
            ws,
            workspace,
        ),
    ensures
        at_most_one_active(after_event(pending, ws, event).1),
{
    let w = after_event(pending, ws, event).1;
    match event {
        HyprlandEventView::FocusedMonitor { display, workspace } => {
            lemma_activation_marks_focused(ws, display, workspace);
            let a = activated(ws, display, workspace);
            assert forall|i: int, j: int|
                0 <= i < w.len() && 0 <= j < w.len() && w[i].active && w[j].active implies i
                == j by {
                assert(a[i].active && a[j].active);
            }
        },
        HyprlandEventView::WorkspaceActivated { workspace } => {
            lemma_activation_marks_focused(ws, Seq::empty(), workspace);
        },
        HyprlandEventView::WorkspaceCreated { workspace, name } => {
            assert forall|i: int, j: int|
                0 <= i < w.len() && 0 <= j < w.len() && w[i].active && w[j].active implies i
                == j by {
                if i < ws.len() && j < ws.len() {
                    assert(w[i] == ws[i] && w[j] == ws[j]);
                }
            }
        },
        HyprlandEventView::WorkspaceDestroyed { workspace } => {
            lemma_find_id(ws, workspace);
            let k = find_id(ws, workspace);
            assert forall|i: int, j: int|
                0 <= i < w.len() && 0 <= j < w.len() && w[i].active && w[j].active implies i
                == j by {
                if 0 <= k < ws.len() {
                    let i2 = if i < k { i } else { i + 1 };
                    let j2 = if j < k { j } else { j + 1 };
                    assert(w[i] == ws[i2] && w[j] == ws[j2]);
                }
            }
        },
        HyprlandEventView::Other { .. } => {},
    }
}

/// The members of one JSON value that the shell reads: `"monitor"` and
/// `"name"` as strings, `"id"` as an unsigned integer; `None` where the member
/// is missing or of another kind.
#[derive(Clone, Debug)]
pub struct JsonRecord {
    pub monitor: Option<String>,
    pub id: Option<u64>,
    pub name: Option<String>,
}

/// A `JsonRecord` with its texts as character sequences.
pub struct JsonRecordView {
    pub monitor: Option<Seq<char>>,
    pub id: Option<u64>,
    pub name: Option<Seq<char>>,
}

impl View for JsonRecord {
    type V = JsonRecordView;

    open spec fn view(&self) -> JsonRecordView {
        JsonRecordView {
            monitor: crate::text::opt_text(self.monitor),
            id: self.id,
            name: crate::text::opt_text(self.name),
        }
    }
}

impl DeepView for JsonRecord {
    type V = JsonRecordView;

    open spec fn deep_view(&self) -> JsonRecordView {
        self@
    }
}

/// A reply of Hyprland to a JSON query, as far as the shell reads it.
#[derive(Clone, Debug)]
pub enum JsonReply {
    /// The reply is not JSON.
    Malformed,
    /// The reply is an array; the members of each element.
    List(Vec<JsonRecord>),
    /// The reply is another value; its members.
    Record(JsonRecord),
}

/// A `JsonReply` with its texts as character sequences.
pub enum JsonReplyView {
    Malformed,
    List(Seq<JsonRecordView>),
    Record(JsonRecordView),
}

impl View for JsonReply {
    type V = JsonReplyView;

    open spec fn view(&self) -> JsonReplyView {
        match self {
            JsonReply::Malformed => JsonReplyView::Malformed,
            JsonReply::List(items) => JsonReplyView::List(items.deep_view()),
            JsonReply::Record(r) => JsonReplyView::Record(r@),
        }
    }
}

/// What `decode_reply` reads from the text of a reply.
pub uninterp spec fn hyprland_reply(text: Seq<char>) -> JsonReplyView;

/// Reads a reply with serde_json: `serde_json::from_str::<serde_json::Value>`;
/// where that fails, `Malformed`. Otherwise, when the value is an array
/// (`Value::as_array`), each element, else the value itself, is read through
/// `Value`'s `Index` by `&str` (which gives `Null` for a missing member or a
/// value that is no object): `"monitor"` and `"name"` with `Value::as_str`,
/// `"id"` with `Value::as_u64`. The contract claims only that the result is a
/// function of `text`, named `hyprland_reply`; it leaves unsaid which value a
/// given text yields, for that is serde_json's JSON grammar.
#[verifier::external_body]
fn decode_reply(text: &str) -> (r: JsonReply)
    ensures
        r@ == hyprland_reply(text@),
{
    let record = |v: &serde_json::Value| JsonRecord {
        monitor: v["monitor"].as_str().map(str::to_owned),
        id: v["id"].as_u64(),
        name: v["name"].as_str().map(str::to_owned),
    };
    match serde_json::from_str::<serde_json::Value>(text) {
        Err(_) => JsonReply::Malformed,
        Ok(v) => match v.as_array() {
            Some(items) => JsonReply::List(items.iter().map(record).collect()),
            None => JsonReply::Record(record(&v)),
        },
    }
}

/// Why a reply to a workspace query was refused.
#[derive(Clone, Copy, Debug, PartialEq, Eq, Structural)]
pub enum QueryError {
    /// The reply is not JSON.
    InvalidJson,
    /// The workspace listing is not an array.
    NotAnArray,
}

/// The record has a monitor, an id and a name.
pub open spec fn record_complete(r: JsonRecordView) -> bool {
    r.monitor is Some && r.id is Some && r.name is Some
}

/// Every element of a listing has a monitor, an id and a name.
pub open spec fn listing_complete(reply: JsonReplyView) -> bool {
    match reply {
        JsonReplyView::List(items) => all_complete(items),
        _ => true,
    }
}

/// Every record has a monitor, an id and a name.
pub open spec fn all_complete(items: Seq<JsonRecordView>) -> bool {
    forall|i: int| 0 <= i < items.len() ==> record_complete(#[trigger] items[i])
}

/// The workspace that a complete record lists: on its monitor, inactive.
pub open spec fn listed_workspace(r: JsonRecordView) -> WorkspaceView {
    WorkspaceView { display: r.monitor->0, id: r.id->0, name: r.name->0, active: false }
}

/// The workspaces that a listing lists, in its order.
pub open spec fn listed(items: Seq<JsonRecordView>) -> Seq<WorkspaceView> {
    Seq::new(items.len(), |i: int| listed_workspace(items[i]))
}

/// How the workspace listing is answered.
pub open spec fn listing_result(reply: JsonReplyView) -> Result<(), QueryError> {
    match reply {
        JsonReplyView::Malformed => Err(QueryError::InvalidJson),
        JsonReplyView::Record(_) => Err(QueryError::NotAnArray),
        JsonReplyView::List(_) => Ok(()),
    }
}

/// The workspace list after the listing `reply` was read into `ws`.
pub open spec fn after_listing(ws: Seq<WorkspaceView>, reply: JsonReplyView) -> Seq<WorkspaceView> {
    match reply {
        JsonReplyView::List(items) => ws + listed(items),
        _ => ws,
    }
}

/// Appends the workspaces of the listing `reply` to `ws`.
pub fn append_listed_workspaces(ws: &mut Vec<Workspace>, reply: &JsonReply) -> (r: Result<(), QueryError>)
    requires
        listing_complete(reply@),
    ensures
        r == listing_result(reply@),
        final(ws).deep_view() == after_listing(old(ws).deep_view(), reply@),
{
    match reply {
        JsonReply::Malformed => Err(QueryError::InvalidJson),
        JsonReply::Record(_) => Err(QueryError::NotAnArray),
        JsonReply::List(items) => {
            let ghost start = ws.deep_view();
            let ghost iv = items.deep_view();
            proof {
                assert(reply@ == JsonReplyView::List(iv));
                assert(all_complete(iv));
            }
            for i in 0..items.len()
                invariant
                    iv == items.deep_view(),
                    forall|k: int| 0 <= k < iv.len() ==> record_complete(#[trigger] iv[k]),
                    ws.deep_view() == start + listed(iv).take(i as int),
            {
                let item = &items[i];
                proof {
                    assert(record_complete(iv[i as int]));
                    assert(iv[i as int] == item@);
                }
                let w = Workspace {
                    display: item.monitor.as_ref().unwrap().clone(),
                    id: *item.id.as_ref().unwrap(),
                    name: item.name.as_ref().unwrap().clone(),
                    active: false,
                };
                let ghost before = ws.deep_view();
                ws.push(w);
                proof {
                    assert(w@ == listed(iv)[i as int]);
                    assert(ws.deep_view() =~= before.push(w@));
                    assert(listed(iv).take(i + 1) =~= listed(iv).take(i as int).push(w@));
                    assert(start + listed(iv).take(i + 1) =~= (start + listed(iv).take(i as int)).push(w@));
                }
            }
            proof {
                assert(listed(iv).take(iv.len() as int) =~= listed(iv));
            }
            Ok(())
        },
    }
}

/// Whether every element of the listing `reply` is complete.
fn listing_is_complete(reply: &JsonReply) -> (r: bool)
    ensures
        r == listing_complete(reply@),
{
    match reply {
        JsonReply::List(items) => {
            let ghost iv = items.deep_view();
            proof {
                assert(reply@ == JsonReplyView::List(iv));
            }
            for i in 0..items.len()
                invariant
                    iv == items.deep_view(),
                    reply@ == JsonReplyView::List(iv),
                    forall|k: int| 0 <= k < i ==> record_complete(#[trigger] iv[k]),
            {
                let item = &items[i];
                if item.monitor.is_none() || item.id.is_none() || item.name.is_none() {
                    proof {
                        assert(iv[i as int] == item@);
                        assert(reply@ == JsonReplyView::List(iv));
                        assert(!record_complete(iv[i as int]));
                    }
                    return false;
                }
            }
            proof {
                assert(reply@ == JsonReplyView::List(iv));
            }
            true
        },
        _ => true,
    }
}

/// Reads the reply `text` to the workspace listing into `ws`. `None`, with `ws`
/// unchanged, where an element lacks its monitor, id or name.
pub fn load_workspaces(ws: &mut Vec<Workspace>, text: &str) -> (r: Option<Result<(), QueryError>>)
    ensures
        r is None <==> !listing_complete(hyprland_reply(text@)),
        r matches Some(res) ==> res == listing_result(hyprland_reply(text@)),
        final(ws).deep_view() == (if r is Some {
            after_listing(old(ws).deep_view(), hyprland_reply(text@))
        } else {
            old(ws).deep_view()
        }),
{
    let reply = decode_reply(text);
    if !listing_is_complete(&reply) {
        return None;
    }
    Some(append_listed_workspaces(ws, &reply))
}

/// The reply to the focused-workspace query names a monitor and a workspace id
/// (or is no JSON at all).
pub open spec fn active_complete(reply: JsonReplyView) -> bool {
    match reply {
        JsonReplyView::Malformed => true,
        JsonReplyView::Record(rec) => rec.monitor is Some && rec.id is Some,
        JsonReplyView::List(_) => false,
    }
}

/// How the focused-workspace query is answered.
pub open spec fn active_result(reply: JsonReplyView) -> Result<(), QueryError> {
    match reply {
        JsonReplyView::Malformed => Err(QueryError::InvalidJson),
        _ => Ok(()),
    }
}

/// The workspace list after the focused-workspace reply was applied.
pub open spec fn after_active(ws: Seq<WorkspaceView>, reply: JsonReplyView) -> Seq<WorkspaceView> {
    match reply {
        JsonReplyView::Record(rec) => activated(ws, rec.monitor->0, rec.id->0),
        _ => ws,
    }
}

/// Marks the workspace that the reply names as the focused one.
pub fn apply_active_reply(ws: &mut Vec<Workspace>, reply: &JsonReply) -> (r: Result<(), QueryError>)
    requires
        active_complete(reply@),
    ensures
        r == active_result(reply@),
        final(ws).deep_view() == after_active(old(ws).deep_view(), reply@),
{
    match reply {
        JsonReply::Malformed => Err(QueryError::InvalidJson),
        JsonReply::Record(rec) => {
            let display = rec.monitor.as_ref().unwrap();
            let id = *rec.id.as_ref().unwrap();
            set_active_workspace(ws, display.as_str(), id);
            Ok(())
        },
        JsonReply::List(_) => Ok(()),
    }
}

/// Whether the focused-workspace reply is complete.
fn active_is_complete(reply: &JsonReply) -> (r: bool)
    ensures
        r == active_complete(reply@),
{
    match reply {
        JsonReply::Malformed => true,
        JsonReply::Record(rec) => rec.monitor.is_some() && rec.id.is_some(),
        JsonReply::List(_) => false,
    }
}

/// Reads the reply `text` to the focused-workspace query into `ws`. `None`,
/// with `ws` unchanged, where the reply names no monitor or no id.
pub fn load_active_workspace(ws: &mut Vec<Workspace>, text: &str) -> (r: Option<Result<(), QueryError>>)
    ensures
        r is None <==> !active_complete(hyprland_reply(text@)),
        r matches Some(res) ==> res == active_result(hyprland_reply(text@)),
        final(ws).deep_view() == (if r is Some {
            after_active(old(ws).deep_view(), hyprland_reply(text@))
        } else {
            old(ws).deep_view()
        }),
{
    let reply = decode_reply(text);
    if !active_is_complete(&reply) {
        return None;
    }
    Some(apply_active_reply(ws, &reply))
}

} // verus!
