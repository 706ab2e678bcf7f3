//! The workspace list that a compositor reports, and the operations that keep
//! it in step with the compositor.
use vstd::prelude::*;

use crate::text::{chars_of, opt_text};

verus! {

/// A workspace as the compositor reports it.
#[derive(Clone, Debug)]
pub struct Workspace {
    pub display: String,
    pub id: u64,
    pub name: String,
    pub active: bool,
}

/// A `Workspace` with its texts as character sequences.
pub struct WorkspaceView {
    pub display: Seq<char>,
    pub id: u64,
    pub name: Seq<char>,
    pub active: bool,
}

impl View for Workspace {
    type V = WorkspaceView;

    open spec fn view(&self) -> WorkspaceView {
        WorkspaceView { display: self.display@, id: self.id, name: self.name@, active: self.active }
    }
}

impl DeepView for Workspace {
    type V = WorkspaceView;

    open spec fn deep_view(&self) -> WorkspaceView {
        self@
    }
}

/// A copy of `w`.
fn copy_workspace(w: &Workspace) -> (r: Workspace)
    ensures
        r@ == w@,
{
    Workspace { display: w.display.clone(), id: w.id, name: w.name.clone(), active: w.active }
}

/// The first index at or after `k` that holds workspace `id`, or -1.
pub open spec fn find_id_from(ws: Seq<WorkspaceView>, id: u64, k: int) -> int
    decreases ws.len() - k,
{
    if k < 0 || k >= ws.len() {
        -1
    } else if ws[k].id == id {
        k
    } else {
        find_id_from(ws, id, k + 1)
    }
}

/// The first index that holds workspace `id`, or -1.
pub open spec fn find_id(ws: Seq<WorkspaceView>, id: u64) -> int {
    find_id_from(ws, id, 0)
}

/// Some workspace in `ws` has the id `id`.
pub open spec fn has_id(ws: Seq<WorkspaceView>, id: u64) -> bool {
    exists|i: int| 0 <= i < ws.len() && ws[i].id == id
}

proof fn lemma_find_id_from(ws: Seq<WorkspaceView>, id: u64, k: int)
    requires
        0 <= k <= ws.len(),
    ensures
        ({
            let r = find_id_from(ws, id, k);
            &&& -1 <= r < ws.len()
            &&& r >= 0 ==> k <= r && ws[r].id == id
            &&& forall|j: int| k <= j < ws.len() && (r < 0 || j < r) ==> ws[j].id != id
        }),
    decreases ws.len() - k,
{
    if k < ws.len() && ws[k].id != id {
        lemma_find_id_from(ws, id, k + 1);
    }
}

/// `find_id` gives the first index holding `id`, and -1 exactly when none does.
pub proof fn lemma_find_id(ws: Seq<WorkspaceView>, id: u64)
    ensures
        -1 <= find_id(ws, id) < ws.len(),
        find_id(ws, id) >= 0 <==> has_id(ws, id),
        find_id(ws, id) >= 0 ==> ws[find_id(ws, id)].id == id,
        forall|j: int| 0 <= j < find_id(ws, id) ==> ws[j].id != id,
{
    lemma_find_id_from(ws, id, 0);
    if find_id(ws, id) < 0 {
        assert forall|i: int| 0 <= i < ws.len() implies ws[i].id != id by {}
    }
}

/// Whether some workspace in `ws` has the id `id`.
pub fn contains_workspace(ws: &Vec<Workspace>, id: u64) -> (r: bool)
    ensures
        r == has_id(ws.deep_view(), id),
{
    proof {
        lemma_find_id(ws.deep_view(), id);
    }
    index_of_workspace(ws, id).is_some()
}

/// The first index holding workspace `id`.
fn index_of_workspace(ws: &Vec<Workspace>, id: u64) -> (r: Option<usize>)
    ensures
        match r {
            Some(i) => i == find_id(ws.deep_view(), id),
            None => find_id(ws.deep_view(), id) < 0,
        },
{
    let ghost v = ws.deep_view();
    let mut i: usize = 0;
    while i < ws.len()
        invariant
            i <= ws.len(),
            v == ws.deep_view(),
            find_id(v, id) == find_id_from(v, id, i as int),
        decreases ws.len() - i,
    {
        if ws[i].id == id {
            return Some(i);
        }
        i = i + 1;
    }
    None
}

/// `w` after workspace `id` was focused on `display`: it is active exactly when
/// it is that workspace, which also takes `display` if it had none.
pub open spec fn activate_one(w: WorkspaceView, display: Seq<char>, id: u64) -> WorkspaceView {
    if w.id == id {
        WorkspaceView {
            display: if w.display.len() == 0 {
                display
            } else {
                w.display
            },
            active: true,
            ..w
        }
    } else {
        WorkspaceView { active: false, ..w }
    }
}

/// `ws` after workspace `id` was focused on `display`.
pub open spec fn activated(ws: Seq<WorkspaceView>, display: Seq<char>, id: u64) -> Seq<
    WorkspaceView,
> {
    Seq::new(ws.len(), |i: int| activate_one(ws[i], display, id))
}

/// Marks workspace `id` active and every other inactive; the workspace `id`
/// takes `display_name` as its display if it had none.
pub fn set_active_workspace(ws: &mut Vec<Workspace>, display_name: &str, id: u64)
    ensures
        final(ws).deep_view() == activated(old(ws).deep_view(), display_name@, id),
        final(ws).len() == old(ws).len(),
        forall|i: int|
            0 <= i < old(ws).len() ==> {
                let (a, b) = (#[trigger] final(ws).deep_view()[i], old(ws).deep_view()[i]);
                &&& a.id == b.id
                &&& a.name == b.name
                &&& a.active == (b.id == id)
                &&& b.id != id ==> a.display == b.display
                &&& b.id == id && b.display.len() > 0 ==> a.display == b.display
                &&& b.id == id && b.display.len() == 0 ==> a.display == display_name@
            },
{
    let ghost v = old(ws).deep_view();
    let mut out: Vec<Workspace> = Vec::new();
    for i in 0..ws.len()
        invariant
            v == ws.deep_view(),
            out.deep_view() == activated(v, display_name@, id).take(i as int),
    {
        let w = &ws[i];
        let display = if w.id == id && w.display.as_str().is_empty() {
            display_name.to_owned()
        } else {
            w.display.clone()
        };
        let next = Workspace { display, id: w.id, name: w.name.clone(), active: w.id == id };
        proof {
            assert(next@ == activate_one(v[i as int], display_name@, id));
        }
        let ghost before = out.deep_view();
        out.push(next);
        proof {
            assert(out.deep_view() =~= before.push(next@));
            assert(activated(v, display_name@, id).take(i + 1) =~= activated(
                v,
                display_name@,
                id,
            ).take(i as int).push(next@));
        }
    }
    proof {
        assert(activated(v, display_name@, id).take(v.len() as int) =~= activated(
            v,
            display_name@,
            id,
        ));
    }
    *ws = out;
    proof {
        lemma_activation_touches_only_focused(v, display_name@, id);
    }
}

/// `ws` after the workspace created last, `pending`, was placed on `display`:
/// the first workspace with that id takes `display` if it had none.
pub open spec fn placed(ws: Seq<WorkspaceView>, display: Seq<char>, pending: Option<u64>) -> Seq<
    WorkspaceView,
> {
    match pending {
        None => ws,
        Some(id) => {
            let i = find_id(ws, id);
            if 0 <= i < ws.len() && ws[i].display.len() == 0 {
                ws.update(i, WorkspaceView { display, ..ws[i] })
            } else {
                ws
            }
        },
    }
}

/// Gives the workspace `pending`, if any, the display `display_name` when it
/// has none yet.  The workspace must be in the list.
pub fn maybe_set_display(ws: &mut Vec<Workspace>, display_name: &str, pending: Option<u64>)
    requires
        pending matches Some(id) ==> has_id(old(ws).deep_view(), id),
    ensures
        final(ws).deep_view() == placed(old(ws).deep_view(), display_name@, pending),
{
    let id = match pending {
        None => return ,
        Some(id) => id,
    };
    proof {
        lemma_find_id(ws.deep_view(), id);
    }
    let i = match index_of_workspace(ws, id) {
        Some(i) => i,
        None => return ,
    };
    if ws[i].display.as_str().is_empty() {
        let w = Workspace {
            display: display_name.to_owned(),
            id: ws[i].id,
            name: ws[i].name.clone(),
            active: ws[i].active,
        };
        let ghost before = ws.deep_view();
        ws.set(i, w);
        proof {
            assert(ws.deep_view() =~= before.update(i as int, w@));
        }
    }
}

/// The workspace that a creation event adds: no display yet, inactive.
pub open spec fn created(id: u64, name: Seq<char>) -> WorkspaceView {
    WorkspaceView { display: Seq::empty(), id, name, active: false }
}

/// Appends the newly created workspace `id` named `name`.
pub fn add_created_workspace(ws: &mut Vec<Workspace>, id: u64, name: String)
    ensures
        final(ws).deep_view() == old(ws).deep_view().push(created(id, name@)),
{
    let w = Workspace { display: String::new(), id, name, active: false };
    let ghost before = ws.deep_view();
    ws.push(w);
    proof {
        assert(ws.deep_view() =~= before.push(w@));
    }
}

/// `ws` without the first workspace that has the id `id`.
pub open spec fn removed(ws: Seq<WorkspaceView>, id: u64) -> Seq<WorkspaceView> {
    let i = find_id(ws, id);
    if 0 <= i < ws.len() {
        ws.remove(i)
    } else {
        ws
    }
}

/// Removes the first workspace with the id `id`, if there is one.
pub fn remove_workspace(ws: &mut Vec<Workspace>, id: u64)
    ensures
        final(ws).deep_view() == removed(old(ws).deep_view(), id),
{
    proof {
        lemma_find_id(ws.deep_view(), id);
    }
    match index_of_workspace(ws, id) {
        Some(i) => {
            let ghost before = ws.deep_view();
            ws.remove(i);
            proof {
                assert(ws.deep_view() =~= before.remove(i as int));
            }
        },
        None => {},
    }
}


/// The predicate "is on display `display`".
pub open spec fn on_display(display: Seq<char>) -> spec_fn(WorkspaceView) -> bool {
    |w: WorkspaceView| w.display == display
}

/// The predicate "has the id `id`".
pub open spec fn with_id(id: u64) -> spec_fn(WorkspaceView) -> bool {
    |w: WorkspaceView| w.id == id
}

/// Ids never decrease along `s`.
pub open spec fn sorted_by_id(s: Seq<WorkspaceView>) -> bool {
    forall|i: int, j: int| 0 <= i < j < s.len() ==> s[i].id <= s[j].id
}

/// `r` is `s` sorted by id with equal ids kept in their order in `s`, as a
/// stable sort by id leaves it: sorted, and for each id the same workspaces in
/// the same order.
pub open spec fn stably_sorted_from(r: Seq<WorkspaceView>, s: Seq<WorkspaceView>) -> bool {
    &&& sorted_by_id(r)
    &&& forall|id: u64| #[trigger] r.filter(with_id(id)) == s.filter(with_id(id))
}

/// The workspaces on `display`, sorted by id: what the workspace bar shows.
pub open spec fn is_display_listing(
    r: Seq<WorkspaceView>,
    ws: Seq<WorkspaceView>,
    display: Seq<char>,
) -> bool {
    stably_sorted_from(r, ws.filter(on_display(display)))
}

/// The position at which a workspace with id `id` goes into the sorted `r`:
/// after every workspace whose id is not above `id`.
fn insertion_point(r: &Vec<Workspace>, id: u64) -> (p: usize)
    requires
        sorted_by_id(r.deep_view()),
    ensures
        p <= r.len(),
        forall|j: int| 0 <= j < p ==> r.deep_view()[j].id <= id,
        forall|j: int| p <= j < r.len() ==> r.deep_view()[j].id > id,
{
    let mut p: usize = 0;
    while p < r.len() && r[p].id <= id
        invariant
            p <= r.len(),
            sorted_by_id(r.deep_view()),
            forall|j: int| 0 <= j < p ==> r.deep_view()[j].id <= id,
        decreases r.len() - p,
    {
        p = p + 1;
    }
    proof {
        if p < r.len() {
            assert forall|j: int| p <= j < r.len() implies r.deep_view()[j].id > id by {
                assert(r.deep_view()[p as int].id <= r.deep_view()[j].id);
            }
        }
    }
    p
}

proof fn lemma_insert_keeps_stable(
    r: Seq<WorkspaceView>,
    p: int,
    x: WorkspaceView,
    s: Seq<WorkspaceView>,
)
    requires
        0 <= p <= r.len(),
        stably_sorted_from(r, s),
        forall|j: int| 0 <= j < p ==> r[j].id <= x.id,
        forall|j: int| p <= j < r.len() ==> r[j].id > x.id,
    ensures
        stably_sorted_from(r.insert(p, x), s.push(x)),
{
    broadcast use Seq::filter_distributes_over_add, Seq::lemma_filter_push;

    let r2 = r.insert(p, x);
    let a = r.take(p);
    let b = r.skip(p);
    assert(r =~= a + b);
    assert(r2 =~= a + seq![x] + b);
    assert(sorted_by_id(r2)) by {
        assert forall|i: int, j: int| 0 <= i < j < r2.len() implies r2[i].id <= r2[j].id by {
            if j < p {
                assert(r2[i] == r[i] && r2[j] == r[j]);
            } else if j == p {
                assert(r2[i] == r[i]);
            } else if i < p {
                assert(r2[i] == r[i] && r2[j] == r[j - 1]);
            } else if i == p {
                assert(r2[j] == r[j - 1]);
            } else {
                assert(r2[i] == r[i - 1] && r2[j] == r[j - 1]);
            }
        }
    }
    assert forall|id: u64| #[trigger] r2.filter(with_id(id)) == s.push(x).filter(with_id(id)) by {
        assert(r.filter(with_id(id)) == a.filter(with_id(id)) + b.filter(with_id(id)));
        assert(r2.filter(with_id(id)) == (a + seq![x]).filter(with_id(id)) + b.filter(
            with_id(id),
        ));
        assert(a.push(x) =~= a + seq![x]);
        assert((a + seq![x]).filter(with_id(id)) == a.push(x).filter(with_id(id)));
        if id == x.id {
            assert(b.filter(with_id(id)) =~= Seq::<WorkspaceView>::empty()) by {
                if b.filter(with_id(id)).len() > 0 {
                    b.lemma_filter_contains_rev(with_id(id), b.filter(with_id(id))[0]);
                    b.lemma_filter_pred(with_id(id), 0);
                }
            }
            assert(r2.filter(with_id(id)) =~= r.filter(with_id(id)).push(x));
        } else {
            assert(r2.filter(with_id(id)) =~= r.filter(with_id(id)));
        }
    }
}

/// The workspaces on the display `display`, sorted by id (a stable sort).
pub fn visible_workspaces(ws: &Vec<Workspace>, display: &str) -> (r: Vec<Workspace>)
    ensures
        is_display_listing(r.deep_view(), ws.deep_view(), display@),
{
    broadcast use Seq::lemma_filter_push;

    let ghost v = ws.deep_view();
    let d = display.to_owned();
    let mut r: Vec<Workspace> = Vec::new();
    proof {
        assert(v.take(0).filter(on_display(display@)) =~= Seq::<WorkspaceView>::empty()) by {
            assert(v.take(0) =~= Seq::<WorkspaceView>::empty());
        }
        assert forall|id: u64| #[trigger] r.deep_view().filter(with_id(id)) == v.take(0).filter(
            on_display(display@),
        ).filter(with_id(id)) by {
            assert(r.deep_view() =~= Seq::<WorkspaceView>::empty());
        }
    }
    for i in 0..ws.len()
        invariant
            v == ws.deep_view(),
            d@ == display@,
            stably_sorted_from(r.deep_view(), v.take(i as int).filter(on_display(display@))),
    {
        let ghost f = v.take(i as int).filter(on_display(display@));
        proof {
            assert(v.take(i + 1) =~= v.take(i as int).push(v[i as int]));
            v.take(i as int).lemma_filter_push(v[i as int], on_display(display@));
        }
        if ws[i].display == d {
            proof {
                assert(v.take(i + 1).filter(on_display(display@)) == f.push(v[i as int]));
            }
            let x = copy_workspace(&ws[i]);
            let p = insertion_point(&r, x.id);
            proof {
                lemma_insert_keeps_stable(r.deep_view(), p as int, x@, f);
            }
            let ghost before = r.deep_view();
            r.insert(p, x);
            proof {
                assert(r.deep_view() =~= before.insert(p as int, x@));
            }
        } else {
            proof {
                assert(v.take(i + 1).filter(on_display(display@)) == f);
            }
        }
    }
    proof {
        assert(v.take(ws.len() as int) =~= v);
    }
    r
}


/// No two workspaces in `ws` share an id.
pub open spec fn unique_ids(ws: Seq<WorkspaceView>) -> bool {
    forall|i: int, j: int| 0 <= i < ws.len() && 0 <= j < ws.len() && i != j ==> ws[i].id != ws[j].id
}

/// Focusing the same workspace again changes nothing more.
pub proof fn lemma_activation_idempotent(ws: Seq<WorkspaceView>, display: Seq<char>, id: u64)
    ensures
        activated(activated(ws, display, id), display, id) == activated(ws, display, id),
{
    assert(activated(activated(ws, display, id), display, id) =~= activated(ws, display, id));
}

/// Focusing keeps the list, its ids and names; afterwards exactly the
/// workspaces with the focused id are active, so with unique ids at most one is,
/// and exactly one when the focused workspace is listed.
pub proof fn lemma_activation_marks_focused(ws: Seq<WorkspaceView>, display: Seq<char>, id: u64)
    ensures
        activated(ws, display, id).len() == ws.len(),
        forall|i: int|
            0 <= i < ws.len() ==> {
                let a = #[trigger] activated(ws, display, id)[i];
                &&& a.id == ws[i].id
                &&& a.name == ws[i].name
                &&& a.active == (ws[i].id == id)
            },
        unique_ids(ws) ==> forall|i: int, j: int|
            0 <= i < ws.len() && 0 <= j < ws.len() && activated(ws, display, id)[i].active
                && activated(ws, display, id)[j].active ==> i == j,
        has_id(ws, id) ==> exists|i: int|
            0 <= i < ws.len() && #[trigger] activated(ws, display, id)[i].active,
{
    if has_id(ws, id) {
        let i = choose|i: int| 0 <= i < ws.len() && ws[i].id == id;
        assert(activated(ws, display, id)[i].active);
    }
}

/// Creating a workspace whose id is not listed and then destroying it gives
/// back the list as it was.
pub proof fn lemma_create_then_destroy(ws: Seq<WorkspaceView>, id: u64, name: Seq<char>)
    requires
        !has_id(ws, id),
    ensures
        removed(ws.push(created(id, name)), id) == ws,
{
    let w = ws.push(created(id, name));
    lemma_find_id(ws, id);
    lemma_find_id(w, id);
    assert(has_id(w, id)) by {
        assert(w[ws.len() as int].id == id);
    }
    assert forall|j: int| 0 <= j < ws.len() implies w[j].id != id by {
        assert(w[j] == ws[j]);
    }
    assert(find_id(w, id) == ws.len());
    assert(w.remove(ws.len() as int) =~= ws);
}

/// Each change to the list keeps ids unique: focusing, placing, removing, and
/// adding a workspace whose id is not yet listed.
pub proof fn lemma_changes_keep_unique_ids(
    ws: Seq<WorkspaceView>,
    display: Seq<char>,
    id: u64,
    name: Seq<char>,
    pending: Option<u64>,
)
    requires
        unique_ids(ws),
    ensures
        unique_ids(activated(ws, display, id)),
        unique_ids(placed(ws, display, pending)),
        unique_ids(removed(ws, id)),
        !has_id(ws, id) ==> unique_ids(ws.push(created(id, name))),
{
    let a = activated(ws, display, id);
    assert forall|i: int, j: int| 0 <= i < a.len() && 0 <= j < a.len() && i != j implies a[i].id
        != a[j].id by {
        assert(a[i].id == ws[i].id && a[j].id == ws[j].id);
    }
    if let Some(p) = pending {
        lemma_find_id(ws, p);
        let k = find_id(ws, p);
        let q = placed(ws, display, pending);
        assert forall|i: int, j: int| 0 <= i < q.len() && 0 <= j < q.len() && i != j implies q[i].id
            != q[j].id by {
            assert(q[i].id == ws[i].id && q[j].id == ws[j].id);
        }
    }
    lemma_find_id(ws, id);
    let r = removed(ws, id);
    let k = find_id(ws, id);
    assert forall|i: int, j: int| 0 <= i < r.len() && 0 <= j < r.len() && i != j implies r[i].id
        != r[j].id by {
        if 0 <= k < ws.len() {
            let i2 = if i < k { i } else { i + 1 };
            let j2 = if j < k { j } else { j + 1 };
            assert(r[i] == ws[i2] && r[j] == ws[j2]);
        }
    }
    if !has_id(ws, id) {
        let w = ws.push(created(id, name));
        assert forall|i: int, j: int| 0 <= i < w.len() && 0 <= j < w.len() && i != j implies w[i].id
            != w[j].id by {
            if i < ws.len() && j < ws.len() {
                assert(w[i] == ws[i] && w[j] == ws[j]);
            } else if i < ws.len() {
                assert(w[i] == ws[i]);
            } else if j < ws.len() {
                assert(w[j] == ws[j]);
            }
        }
    }
}

/// A workspace that has a display keeps it: focusing and placing only fill in
/// a display that is empty.
pub proof fn lemma_known_display_kept(
    ws: Seq<WorkspaceView>,
    display: Seq<char>,
    id: u64,
    pending: Option<u64>,
)
    ensures
        forall|i: int|
            0 <= i < ws.len() && ws[i].display.len() > 0 ==> #[trigger] activated(
                ws,
                display,
                id,
            )[i].display == ws[i].display,
        forall|i: int|
            0 <= i < ws.len() && ws[i].display.len() > 0 ==> #[trigger] placed(
                ws,
                display,
                pending,
            )[i].display == ws[i].display,
{
}

/// Focusing workspace `id` touches no other workspace but to clear its active
/// mark: its display, id and name stay; the focused workspace keeps a display it
/// has and otherwise takes `display`.
pub proof fn lemma_activation_touches_only_focused(
    ws: Seq<WorkspaceView>,
    display: Seq<char>,
    id: u64,
)
    ensures
        forall|i: int|
            0 <= i < ws.len() && ws[i].id != id ==> {
                let a = #[trigger] activated(ws, display, id)[i];
                &&& a.display == ws[i].display
                &&& a.id == ws[i].id
                &&& a.name == ws[i].name
                &&& !a.active
            },
        forall|i: int|
            0 <= i < ws.len() && ws[i].id == id ==> {
                let a = #[trigger] activated(ws, display, id)[i];
                &&& a.active
                &&& a.display == (if ws[i].display.len() == 0 {
                    display
                } else {
                    ws[i].display
                })
            },
{
}

/// The compositors the shell can follow.
#[derive(Clone, Copy, Debug, PartialEq, Eq, Structural)]
pub enum CompositorKind {
    Hyprland,
}

/// Whether the texts `a` and `b` are equal.
pub fn text_eq(a: &str, b: &str) -> (r: bool)
    ensures
        r == (a@ == b@),
{
    let x = chars_of(a);
    let y = chars_of(b);
    if x.len() != y.len() {
        return false;
    }
    let mut i: usize = 0;
    while i < x.len()
        invariant
            i <= x.len() == y.len(),
            x@ == a@,
            y@ == b@,
            forall|k: int| 0 <= k < i ==> x@[k] == y@[k],
        decreases x.len() - i,
    {
        if x[i] != y[i] {
            assert(a@[i as int] != b@[i as int]);
            return false;
        }
        i = i + 1;
    }
    assert(x@ =~= y@);
    true
}

/// The desktop that the session names: `XDG_CURRENT_DESKTOP` where it is set,
/// else `DESKTOP_SESSION`.
pub open spec fn session_desktop(current_desktop: Option<Seq<char>>, desktop_session: Option<Seq<char>>) -> Option<Seq<char>> {
    match current_desktop {
        Some(d) => Some(d),
        None => desktop_session,
    }
}

/// `XDG_CURRENT_DESKTOP`, where it is set, decides alone: `DESKTOP_SESSION` is
/// read only when it is unset.
pub proof fn lemma_current_desktop_decides(
    desktop: Seq<char>,
    session_a: Option<Seq<char>>,
    session_b: Option<Seq<char>>,
)
    ensures
        session_desktop(Some(desktop), session_a) == Some(desktop),
        session_desktop(Some(desktop), session_a) == session_desktop(Some(desktop), session_b),
        session_desktop(None, session_a) == session_a,
{
}

/// The compositor to follow for the session's desktop: Hyprland when the desktop
/// is `Hyprland`, none otherwise.
pub fn compositor_for_session(current_desktop: Option<String>, desktop_session: Option<String>) -> (r: Option<CompositorKind>)
    ensures
        r == (if session_desktop(opt_text(current_desktop), opt_text(desktop_session)) == Some("Hyprland"@) {
            Some(CompositorKind::Hyprland)
        } else {
            None
        }),
        current_desktop matches Some(d) ==> (r == Some(CompositorKind::Hyprland) <==> d@
            == "Hyprland"@),
        current_desktop is None ==> (r == Some(CompositorKind::Hyprland) <==> opt_text(
            desktop_session,
        ) == Some("Hyprland"@)),
        r is None || r == Some(CompositorKind::Hyprland),
{
    let desktop = match current_desktop {
        Some(d) => Some(d),
        None => desktop_session,
    };
    match desktop {
        Some(d) => {
            if text_eq(d.as_str(), "Hyprland") {
                Some(CompositorKind::Hyprland)
            } else {
                None
            }
        },
        None => None,
    }
}

} // verus!
