//! Workspace snapshots: the window records the window manager reports,
//! the staleness-tolerant retry policy for reading them, and the grouping
//! of windows into per-workspace render entries.
//!
//! The queries themselves are process I/O and live outside the library;
//! they hand the records here and this module does the rest.

use vstd::prelude::*;
use vstd::string::StrSliceExecFns;
use vstd::string::StringExecFns;

use crate::text;

verus! {

/// One window as the window manager reports it.
pub struct WindowInfo {
    /// Application name of the window.
    pub app_name: String,
    /// Workspace id the window sits on.
    pub workspace: String,
    /// Whether that workspace is the focused one.
    pub workspace_is_focused: bool,
    /// Whether that workspace is visible.
    pub workspace_is_visible: bool,
    /// Renderer display id of the workspace's monitor.
    pub display_id: u32,
}

/// The focused workspace as queried directly, used as a fallback when no
/// window carries the focus flag.
pub struct FocusedWorkspaceInfo {
    /// Workspace id.
    pub workspace: String,
    /// Whether the workspace is focused.
    pub workspace_is_focused: bool,
    /// Whether the workspace is visible.
    pub workspace_is_visible: bool,
    /// Renderer display id of the workspace's monitor.
    pub display_id: u32,
}

/// One workspace of the current snapshot, ready to render.
pub struct WorkspaceInfo {
    /// Workspace id.
    pub id: String,
    /// Application names of the windows on the workspace, in window order.
    pub apps: Vec<String>,
    /// The icon string derived from the applications.
    pub icons: String,
    /// Whether this workspace is the focused one.
    pub is_focused: bool,
    /// Renderer display id the workspace renders on.
    pub display_id: u32,
}

impl Default for WorkspaceInfo {
    /// An empty, unfocused workspace entry.
    fn default() -> (r: Self)
        ensures
            r.id@ == Seq::<char>::empty(),
            r.apps@ == Seq::<String>::empty(),
            r.icons@ == Seq::<char>::empty(),
            !r.is_focused,
            r.display_id == 0,
    {
        WorkspaceInfo {
            id: String::new(),
            apps: Vec::new(),
            icons: String::new(),
            is_focused: false,
            display_id: 0,
        }
    }
}

// ------------------------------------------------------------------
// Retry policy
// ------------------------------------------------------------------

/// Whether any window of `ws` sits on the focused workspace.
pub open spec fn any_focused(ws: Seq<WindowInfo>) -> bool
    decreases ws.len(),
{
    if ws.len() == 0 {
        false
    } else {
        any_focused(ws.drop_last()) || ws.last().workspace_is_focused
    }
}

/// `any_focused` holds exactly when some window carries the focus flag.
pub proof fn lemma_any_focused_iff(ws: Seq<WindowInfo>)
    ensures
        any_focused(ws) <==> exists|i: int|
            0 <= i < ws.len() && ws[i].workspace_is_focused,
    decreases ws.len(),
{
    if ws.len() > 0 {
        lemma_any_focused_iff(ws.drop_last());
        if any_focused(ws.drop_last()) {
            let i = choose|i: int|
                0 <= i < ws.drop_last().len() && ws.drop_last()[i].workspace_is_focused;
            assert(ws[i].workspace_is_focused);
        }
        if exists|i: int| 0 <= i < ws.len() && ws[i].workspace_is_focused {
            let i = choose|i: int| 0 <= i < ws.len() && ws[i].workspace_is_focused;
            if i < ws.len() - 1 {
                assert(ws.drop_last()[i].workspace_is_focused);
            }
        }
    }
}

/// Whether some window of `ws` carries the focus flag.
pub fn any_window_focused(windows: &Vec<WindowInfo>) -> (r: bool)
    ensures
        r == any_focused(windows@),
{
    proof {
        lemma_any_focused_iff(windows@);
    }
    let n = windows.len();
    let mut i: usize = 0;
    while i < n
        invariant
            n == windows@.len(),
            i <= n,
            forall|j: int| 0 <= j < i ==> !windows@[j].workspace_is_focused,
        decreases n - i,
    {
        if windows[i].workspace_is_focused {
            proof {
                lemma_any_focused_iff(windows@);
            }
            return true;
        }
        i += 1;
    }
    proof {
        lemma_any_focused_iff(windows@);
    }
    false
}

/// Whether a snapshot read looks stale and is read again: the windows
/// vanished although the immediately preceding read in this call saw
/// some, or windows exist but none is focused.
pub open spec fn retry_needed(prev_count: int, ws: Seq<WindowInfo>) -> bool {
    if prev_count > 0 && ws.len() == 0 {
        true
    } else if any_focused(ws) {
        false
    } else {
        ws.len() > 0
    }
}

/// Decides whether the read is retried; `prev_count` is how many windows
/// the immediately preceding read in this call returned (0 when this is
/// the first read, which has no predecessor).
pub fn needs_retry(prev_count: usize, windows: &Vec<WindowInfo>) -> (r: bool)
    ensures
        r == retry_needed(prev_count as int, windows@),
{
    if prev_count > 0 && windows.len() == 0 {
        true
    } else if any_window_focused(windows) {
        false
    } else {
        windows.len() > 0
    }
}

/// The backoff before retry number `retry_count + 1`: 20ms, then 40ms.
pub fn retry_delay_ms(retry_count: u32) -> (r: u64)
    requires
        retry_count <= 8,
    ensures
        r == 20 * (retry_count + 1),
{
    20 * ((retry_count + 1) as u64)
}

/// Whether a direct focused-workspace query came back empty and is
/// queried again: no record at all, or one with an empty workspace id.
pub open spec fn focused_query_empty(fb: Option<FocusedWorkspaceInfo>) -> bool {
    match fb {
        None => true,
        Some(f) => f.workspace@.len() == 0,
    }
}

/// Decides whether the direct focused-workspace query is retried.
pub fn focused_query_stale(fb: &Option<FocusedWorkspaceInfo>) -> (r: bool)
    ensures
        r == focused_query_empty(*fb),
{
    match fb {
        None => true,
        Some(f) => f.workspace.as_str().is_empty(),
    }
}

/// A read of zero windows immediately following a read that saw some
/// triggers exactly one retry: the empty read is retried, and when the
/// retry also comes back empty its own predecessor saw nothing, so that
/// read is accepted.
pub proof fn lemma_stale_empty_retries_once(prev_count: int, ws: Seq<WindowInfo>)
    requires
        prev_count > 0,
        ws.len() == 0,
    ensures
        retry_needed(prev_count, ws),
        !retry_needed(0, ws),
{
}

// ------------------------------------------------------------------
// Icon lookup
// ------------------------------------------------------------------

/// The icon fragment for an application, trailing space included.
pub open spec fn icon_of(app: Seq<char>) -> Seq<char> {
    if app == "Safari"@ {
        ":safari: "@
    } else if app == "Cursor"@ {
        ":cursor: "@
    } else if app == "Finder"@ {
        ":finder: "@
    } else if app == "Mail"@ {
        ":mail: "@
    } else if app == "Music"@ {
        ":music: "@
    } else if app == "Terminal"@ {
        ":terminal: "@
    } else if app == "Teams"@ {
        ":teams: "@
    } else {
        ":default: "@
    }
}

/// Looks up the icon fragment for an application name.
pub fn get_icon(app: &str) -> (r: &'static str)
    ensures
        r@ == icon_of(app@),
{
    if text::str_eq(app, "Safari") {
        ":safari: "
    } else if text::str_eq(app, "Cursor") {
        ":cursor: "
    } else if text::str_eq(app, "Finder") {
        ":finder: "
    } else if text::str_eq(app, "Mail") {
        ":mail: "
    } else if text::str_eq(app, "Music") {
        ":music: "
    } else if text::str_eq(app, "Terminal") {
        ":terminal: "
    } else if text::str_eq(app, "Teams") {
        ":teams: "
    } else {
        ":default: "
    }
}

// ------------------------------------------------------------------
// Grouping windows by workspace
// ------------------------------------------------------------------

/// Whether some window of `ws` sits on workspace `id`.
pub open spec fn has_ws(ws: Seq<WindowInfo>, id: Seq<char>) -> bool
    decreases ws.len(),
{
    if ws.len() == 0 {
        false
    } else {
        has_ws(ws.drop_last(), id) || ws.last().workspace@ == id
    }
}

/// The application names of the windows on workspace `id`, in window
/// order.
pub open spec fn apps_of(ws: Seq<WindowInfo>, id: Seq<char>) -> Seq<Seq<char>>
    decreases ws.len(),
{
    if ws.len() == 0 {
        Seq::<Seq<char>>::empty()
    } else {
        apps_of(ws.drop_last(), id) + if ws.last().workspace@ == id {
            seq![ws.last().app_name@]
        } else {
            Seq::<Seq<char>>::empty()
        }
    }
}

/// Whether workspace `id` carries the focus flag on any of its windows.
pub open spec fn ws_focused(ws: Seq<WindowInfo>, id: Seq<char>) -> bool
    decreases ws.len(),
{
    if ws.len() == 0 {
        false
    } else {
        ws_focused(ws.drop_last(), id) || (ws.last().workspace@ == id
            && ws.last().workspace_is_focused)
    }
}

/// The display id of the first window on workspace `id` (0 when none).
pub open spec fn first_display(ws: Seq<WindowInfo>, id: Seq<char>) -> u32
    decreases ws.len(),
{
    if ws.len() == 0 {
        0
    } else if has_ws(ws.drop_last(), id) {
        first_display(ws.drop_last(), id)
    } else if ws.last().workspace@ == id {
        ws.last().display_id
    } else {
        0
    }
}

/// A workspace no window sits on has no applications and no focus.
pub proof fn lemma_absent_ws(ws: Seq<WindowInfo>, id: Seq<char>)
    requires
        !has_ws(ws, id),
    ensures
        apps_of(ws, id) == Seq::<Seq<char>>::empty(),
        !ws_focused(ws, id),
    decreases ws.len(),
{
    if ws.len() > 0 {
        lemma_absent_ws(ws.drop_last(), id);
        assert(apps_of(ws, id) =~= Seq::<Seq<char>>::empty());
    }
}

// ------------------------------------------------------------------
// Icon strings
// ------------------------------------------------------------------

/// The concatenation of the icon fragments of `apps`.
pub open spec fn concat_icons(apps: Seq<Seq<char>>) -> Seq<char>
    decreases apps.len(),
{
    if apps.len() == 0 {
        Seq::<char>::empty()
    } else {
        concat_icons(apps.drop_last()) + icon_of(apps.last())
    }
}

/// `s` with `x` inserted at its ordered position; an `x` already
/// present stays single.
pub open spec fn insert_unique(s: Seq<Seq<char>>, x: Seq<char>) -> Seq<Seq<char>>
    decreases s.len(),
{
    if s.len() == 0 {
        seq![x]
    } else if x == s[0] {
        s
    } else if text::lex_lt(x, s[0]) {
        seq![x] + s
    } else {
        seq![s[0]] + insert_unique(s.drop_first(), x)
    }
}

/// The application names sorted and deduplicated.
pub open spec fn sorted_unique(apps: Seq<Seq<char>>) -> Seq<Seq<char>>
    decreases apps.len(),
{
    if apps.len() == 0 {
        Seq::<Seq<char>>::empty()
    } else {
        insert_unique(sorted_unique(apps.drop_last()), apps.last())
    }
}

/// Scanning to the first position whose element does not come before
/// `x` computes the ordered insertion: an equal element there leaves the
/// sequence unchanged, anything else takes `x` at that position.
pub proof fn lemma_insert_unique_at(s: Seq<Seq<char>>, x: Seq<char>, j: int)
    requires
        0 <= j <= s.len(),
        forall|i: int| 0 <= i < j ==> text::lex_lt(#[trigger] s[i], x),
        j < s.len() ==> !text::lex_lt(s[j], x),
    ensures
        j < s.len() && s[j] == x ==> insert_unique(s, x) == s,
        !(j < s.len() && s[j] == x) ==> insert_unique(s, x) =~= s.take(j) + seq![x] + s.skip(j),
    decreases s.len(),
{
    if s.len() == 0 {
        assert(insert_unique(s, x) =~= s.take(0) + seq![x] + s.skip(0));
    } else if j == 0 {
        if x == s[0] {
        } else {
            text::lemma_lex_connex(x, s[0]);
            assert(text::lex_lt(x, s[0]));
            assert(insert_unique(s, x) =~= s.take(0) + seq![x] + s.skip(0));
        }
    } else {
        assert(text::lex_lt(s[0], x));
        text::lemma_lex_irrefl(s[0]);
        assert(x != s[0]);
        text::lemma_lex_asym(s[0], x);
        assert(!text::lex_lt(x, s[0]));
        assert forall|i: int| 0 <= i < j - 1 implies text::lex_lt(
            #[trigger] s.drop_first()[i],
            x,
        ) by {
            assert(s.drop_first()[i] == s[i + 1]);
        }
        if j - 1 < s.drop_first().len() {
            assert(s.drop_first()[j - 1] == s[j]);
        }
        lemma_insert_unique_at(s.drop_first(), x, j - 1);
        if j < s.len() && s[j] == x {
            assert(s.drop_first()[j - 1] == x);
            assert(insert_unique(s, x) =~= seq![s[0]] + s.drop_first());
            assert(insert_unique(s, x) =~= s);
        } else {
            assert(insert_unique(s.drop_first(), x) =~= s.drop_first().take(j - 1) + seq![x]
                + s.drop_first().skip(j - 1));
            assert(seq![s[0]] + s.drop_first().take(j - 1) =~= s.take(j));
            assert(s.drop_first().skip(j - 1) =~= s.skip(j));
            assert(insert_unique(s, x) =~= s.take(j) + seq![x] + s.skip(j));
        }
    }
}

/// The icon string of an application list: one fragment per window in
/// window order, or one per distinct application in sorted order,
/// trailing whitespace trimmed.
pub open spec fn icons_spec(apps: Seq<Seq<char>>, show_all_windows: bool) -> Seq<char> {
    if show_all_windows {
        text::trim_back(concat_icons(apps))
    } else {
        text::trim_back(concat_icons(sorted_unique(apps)))
    }
}

// ------------------------------------------------------------------
// The snapshot contract
// ------------------------------------------------------------------

/// The workspace ids of the entries, in order.
pub open spec fn entries_ids(es: Seq<WorkspaceInfo>) -> Seq<Seq<char>> {
    es.map_values(|e: WorkspaceInfo| e.id@)
}

/// Neighboring ids strictly ascend: the entries are sorted by id.
pub open spec fn ids_ordered(ids: Seq<Seq<char>>) -> bool {
    forall|i: int| 0 <= i < ids.len() - 1 ==> lex_lt_at(ids, i)
}

/// Helper for triggering: the id at `i` comes before the one at `i + 1`.
pub open spec fn lex_lt_at(ids: Seq<Seq<char>>, i: int) -> bool {
    text::lex_lt(ids[i], ids[i + 1])
}

/// No two entries share an id: each workspace maps to exactly one entry.
pub open spec fn ids_distinct(ids: Seq<Seq<char>>) -> bool {
    forall|i: int, j: int| 0 <= i < j < ids.len() ==> ids[i] != ids[j]
}

/// One entry renders exactly what the windows of its workspace say.
pub open spec fn entry_matches(e: WorkspaceInfo, ws: Seq<WindowInfo>, show_all: bool) -> bool {
    &&& text::views_of(e.apps@) == apps_of(ws, e.id@)
    &&& e.is_focused == ws_focused(ws, e.id@)
    &&& e.display_id == first_display(ws, e.id@)
    &&& e.icons@ == icons_spec(apps_of(ws, e.id@), show_all)
}

/// The synthesized entry for a focused workspace without windows.
pub open spec fn fallback_entry(e: WorkspaceInfo, f: FocusedWorkspaceInfo) -> bool {
    &&& e.id@ == f.workspace@
    &&& e.apps@.len() == 0
    &&& e.icons@ == Seq::<char>::empty()
    &&& e.is_focused
    &&& e.display_id == f.display_id
}

/// The snapshot without a fallback: one sorted entry per workspace that
/// has a window, each matching its windows.
pub open spec fn snapshot_plain(
    es: Seq<WorkspaceInfo>,
    ws: Seq<WindowInfo>,
    show_all: bool,
) -> bool {
    &&& ids_ordered(entries_ids(es))
    &&& ids_distinct(entries_ids(es))
    &&& forall|i: int|
        0 <= i < es.len() ==> entry_matches(#[trigger] es[i], ws, show_all) && has_ws(
            ws,
            es[i].id@,
        )
    &&& forall|id: Seq<char>| #[trigger] has_ws(ws, id) ==> entries_ids(es).contains(id)
}

/// The snapshot with the focused-workspace fallback applied: the focused
/// workspace appears as an empty focused entry (replacing any windows it
/// had), every other workspace as usual.
pub open spec fn snapshot_with_fallback(
    es: Seq<WorkspaceInfo>,
    ws: Seq<WindowInfo>,
    show_all: bool,
    f: FocusedWorkspaceInfo,
) -> bool {
    &&& ids_ordered(entries_ids(es))
    &&& ids_distinct(entries_ids(es))
    &&& forall|i: int|
        0 <= i < es.len() ==> (if (#[trigger] es[i]).id@ == f.workspace@ {
            fallback_entry(es[i], f)
        } else {
            entry_matches(es[i], ws, show_all) && has_ws(ws, es[i].id@)
        })
    &&& forall|id: Seq<char>| #[trigger] has_ws(ws, id) ==> entries_ids(es).contains(id)
    &&& entries_ids(es).contains(f.workspace@)
}

/// What `build_workspace_infos` returns: when no window carries the focus
/// flag and a separately queried focused workspace is at hand, it is
/// synthesized into the snapshot, so the render step always sees exactly
/// one focused workspace when the window manager reports one.
pub open spec fn snapshot_ok(
    es: Seq<WorkspaceInfo>,
    ws: Seq<WindowInfo>,
    show_all: bool,
    fb: Option<FocusedWorkspaceInfo>,
) -> bool {
    match fb {
        Some(f) => if any_focused(ws) {
            snapshot_plain(es, ws, show_all)
        } else {
            snapshot_with_fallback(es, ws, show_all, f)
        },
        None => snapshot_plain(es, ws, show_all),
    }
}

/// `has_ws` holds exactly when some window names the workspace.
pub proof fn lemma_has_ws_iff(ws: Seq<WindowInfo>, id: Seq<char>)
    ensures
        has_ws(ws, id) <==> exists|i: int| 0 <= i < ws.len() && ws[i].workspace@ == id,
    decreases ws.len(),
{
    if ws.len() > 0 {
        lemma_has_ws_iff(ws.drop_last(), id);
        if has_ws(ws.drop_last(), id) {
            let i = choose|i: int|
                0 <= i < ws.drop_last().len() && ws.drop_last()[i].workspace@ == id;
            assert(ws[i].workspace@ == id);
        }
        if exists|i: int| 0 <= i < ws.len() && ws[i].workspace@ == id {
            let i = choose|i: int| 0 <= i < ws.len() && ws[i].workspace@ == id;
            if i < ws.len() - 1 {
                assert(ws.drop_last()[i].workspace@ == id);
            }
        }
    }
}

/// `ws_focused` holds exactly when some window of the workspace carries
/// the focus flag.
pub proof fn lemma_ws_focused_iff(ws: Seq<WindowInfo>, id: Seq<char>)
    ensures
        ws_focused(ws, id) <==> exists|i: int|
            0 <= i < ws.len() && ws[i].workspace@ == id && ws[i].workspace_is_focused,
    decreases ws.len(),
{
    if ws.len() > 0 {
        lemma_ws_focused_iff(ws.drop_last(), id);
        if ws_focused(ws.drop_last(), id) {
            let i = choose|i: int|
                0 <= i < ws.drop_last().len() && ws.drop_last()[i].workspace@ == id
                    && ws.drop_last()[i].workspace_is_focused;
            assert(ws[i].workspace@ == id && ws[i].workspace_is_focused);
        }
        if exists|i: int|
            0 <= i < ws.len() && ws[i].workspace@ == id && ws[i].workspace_is_focused {
            let i = choose|i: int|
                0 <= i < ws.len() && ws[i].workspace@ == id && ws[i].workspace_is_focused;
            if i < ws.len() - 1 {
                assert(ws.drop_last()[i].workspace@ == id && ws.drop_last()[
                    i
                ].workspace_is_focused);
            }
        }
    }
}

/// Inserts `x` at its ordered position in `v`, once.
fn insert_unique_exec(v: &mut Vec<String>, x: &str)
    ensures
        text::views_of(final(v)@) == insert_unique(text::views_of(old(v)@), x@),
{
    let ghost vv = text::views_of(v@);
    let n = v.len();
    let mut j: usize = 0;
    while j < n && text::str_lt(v[j].as_str(), x)
        invariant
            n == v@.len(),
            v@ == old(v)@,
            vv == text::views_of(v@),
            j <= n,
            forall|i: int| 0 <= i < j ==> text::lex_lt(#[trigger] vv[i], x@),
        decreases n - j,
    {
        proof {
            assert(vv[j as int] == v@[j as int]@);
        }
        j += 1;
    }
    proof {
        if j < n {
            assert(vv[j as int] == v@[j as int]@);
        }
        lemma_insert_unique_at(vv, x@, j as int);
    }
    if j < n && text::str_eq(v[j].as_str(), x) {
        proof {
            assert(vv[j as int] == x@);
        }
        return ;
    }
    v.insert(j, x.to_owned());
    proof {
        assert(text::views_of(v@) =~= vv.take(j as int) + seq![x@] + vv.skip(j as int));
    }
}

/// Builds the icon string for the applications of one workspace.
pub fn build_icons(apps: &Vec<String>, show_all_windows: bool) -> (r: String)
    ensures
        r@ == icons_spec(text::views_of(apps@), show_all_windows),
{
    let ghost all = text::views_of(apps@);
    let n = apps.len();
    let mut line = String::new();
    if show_all_windows {
        let mut i: usize = 0;
        while i < n
            invariant
                n == apps@.len(),
                i <= n,
                all == text::views_of(apps@),
                line@ == concat_icons(all.take(i as int)),
            decreases n - i,
        {
            line.append(get_icon(apps[i].as_str()));
            proof {
                assert(all.take(i + 1).drop_last() =~= all.take(i as int));
                assert(all.take(i + 1).last() == apps@[i as int]@);
            }
            i += 1;
        }
        proof {
            assert(all.take(n as int) =~= all);
        }
    } else {
        let mut unique: Vec<String> = Vec::new();
        let mut i: usize = 0;
        proof {
            assert(text::views_of(unique@) =~= Seq::<Seq<char>>::empty());
        }
        while i < n
            invariant
                n == apps@.len(),
                i <= n,
                all == text::views_of(apps@),
                text::views_of(unique@) == sorted_unique(all.take(i as int)),
            decreases n - i,
        {
            proof {
                assert(all.take(i + 1).drop_last() =~= all.take(i as int));
                assert(all.take(i + 1).last() == apps@[i as int]@);
            }
            insert_unique_exec(&mut unique, apps[i].as_str());
            i += 1;
        }
        proof {
            assert(all.take(n as int) =~= all);
        }
        let m = unique.len();
        let ghost uv = text::views_of(unique@);
        let mut j: usize = 0;
        while j < m
            invariant
                m == unique@.len(),
                j <= m,
                uv == text::views_of(unique@),
                line@ == concat_icons(uv.take(j as int)),
            decreases m - j,
        {
            line.append(get_icon(unique[j].as_str()));
            proof {
                assert(uv.take(j + 1).drop_last() =~= uv.take(j as int));
                assert(uv.take(j + 1).last() == unique@[j as int]@);
            }
            j += 1;
        }
        proof {
            assert(uv.take(m as int) =~= uv);
        }
    }
    let trimmed = text::trim_end_str(line.as_str());
    trimmed.to_owned()
}

// ------------------------------------------------------------------
// Grouping
// ------------------------------------------------------------------

/// A workspace entry while it is being grouped, before its icon string
/// exists.
struct Group {
    id: String,
    apps: Vec<String>,
    is_focused: bool,
    display_id: u32,
}

/// The workspace ids of the groups, in order.
spec fn group_ids(gs: Seq<Group>) -> Seq<Seq<char>> {
    gs.map_values(|g: Group| g.id@)
}

/// One group holds exactly what the windows of its workspace say.
spec fn group_matches(g: Group, ws: Seq<WindowInfo>) -> bool {
    &&& text::views_of(g.apps@) == apps_of(ws, g.id@)
    &&& g.is_focused == ws_focused(ws, g.id@)
    &&& g.display_id == first_display(ws, g.id@)
}

/// The grouping invariant over a prefix of the windows.
spec fn groups_inv(gs: Seq<Group>, ws: Seq<WindowInfo>) -> bool {
    &&& ids_ordered(group_ids(gs))
    &&& ids_distinct(group_ids(gs))
    &&& forall|i: int|
        0 <= i < gs.len() ==> group_matches(#[trigger] gs[i], ws) && has_ws(ws, gs[i].id@)
    &&& forall|id: Seq<char>| #[trigger] has_ws(ws, id) ==> group_ids(gs).contains(id)
}

/// The group that stands for the synthesized focused workspace.
spec fn group_is_fallback(g: Group, f: FocusedWorkspaceInfo) -> bool {
    &&& g.id@ == f.workspace@
    &&& g.apps@.len() == 0
    &&& g.is_focused
    &&& g.display_id == f.display_id
}

/// The grouping invariant after the focused fallback was synthesized.
spec fn groups_fb_inv(gs: Seq<Group>, ws: Seq<WindowInfo>, f: FocusedWorkspaceInfo) -> bool {
    &&& ids_ordered(group_ids(gs))
    &&& ids_distinct(group_ids(gs))
    &&& forall|i: int|
        0 <= i < gs.len() ==> (if (#[trigger] gs[i]).id@ == f.workspace@ {
            group_is_fallback(gs[i], f)
        } else {
            group_matches(gs[i], ws) && has_ws(ws, gs[i].id@)
        })
    &&& forall|id: Seq<char>| #[trigger] has_ws(ws, id) ==> group_ids(gs).contains(id)
    &&& group_ids(gs).contains(f.workspace@)
}

/// The index of the group with id `x`, if any.
fn find_group(gs: &Vec<Group>, x: &str) -> (r: Option<usize>)
    ensures
        match r {
            Some(i) => i < gs@.len() && gs@[i as int].id@ == x@,
            None => forall|i: int| 0 <= i < gs@.len() ==> gs@[i].id@ != x@,
        },
{
    let n = gs.len();
    let mut i: usize = 0;
    while i < n
        invariant
            n == gs@.len(),
            i <= n,
            forall|j: int| 0 <= j < i ==> gs@[j].id@ != x@,
        decreases n - i,
    {
        if text::str_eq(gs[i].id.as_str(), x) {
            return Some(i);
        }
        i += 1;
    }
    None
}

/// The position where a group with the fresh id `x` keeps the order.
fn find_position(gs: &Vec<Group>, x: &str) -> (r: usize)
    requires
        ids_ordered(group_ids(gs@)),
        forall|i: int| 0 <= i < gs@.len() ==> gs@[i].id@ != x@,
    ensures
        r <= gs@.len(),
        forall|i: int| 0 <= i < r ==> text::lex_lt(gs@[i].id@, x@),
        r < gs@.len() ==> text::lex_lt(x@, gs@[r as int].id@),
{
    let n = gs.len();
    let mut j: usize = 0;
    while j < n && text::str_lt(gs[j].id.as_str(), x)
        invariant
            n == gs@.len(),
            j <= n,
            forall|i: int| 0 <= i < j ==> text::lex_lt(gs@[i].id@, x@),
        decreases n - j,
    {
        j += 1;
    }
    proof {
        if j < gs@.len() {
            text::lemma_lex_connex(x@, gs@[j as int].id@);
        }
    }
    j
}

/// Inserting at position `p` (fresh id, ordered position) keeps the
/// group order and distinctness.
proof fn lemma_insert_group(gs: Seq<Group>, g: Group, p: int)
    requires
        ids_ordered(group_ids(gs)),
        ids_distinct(group_ids(gs)),
        0 <= p <= gs.len(),
        forall|i: int| 0 <= i < gs.len() ==> gs[i].id@ != g.id@,
        forall|i: int| 0 <= i < p ==> text::lex_lt(gs[i].id@, g.id@),
        p < gs.len() ==> text::lex_lt(g.id@, gs[p].id@),
    ensures
        ids_ordered(group_ids(gs.insert(p, g))),
        ids_distinct(group_ids(gs.insert(p, g))),
{
    let ids = group_ids(gs);
    let ids2 = group_ids(gs.insert(p, g));
    assert forall|i: int| 0 <= i < ids2.len() implies ids2[i] == (if i < p {
        ids[i]
    } else if i == p {
        g.id@
    } else {
        ids[i - 1]
    }) by {
        if i < p {
            assert(gs.insert(p, g)[i] == gs[i]);
        } else if i > p {
            assert(gs.insert(p, g)[i] == gs[i - 1]);
        }
    }
    assert forall|i: int| 0 <= i < ids2.len() - 1 implies lex_lt_at(ids2, i) by {
        if i + 1 < p {
            assert(lex_lt_at(ids, i));
        } else if i + 1 == p {
            // ids2[i] == ids[i], ids2[p] == g.id@
        } else if i == p {
            // ids2[p] == g.id@, ids2[p + 1] == ids[p]
        } else {
            assert(lex_lt_at(ids, i - 1));
        }
    }
}

/// Groups the windows by workspace, synthesizing the focused fallback
/// workspace when no window carries the focus flag, and derives each
/// workspace's icon string.  The entries come back sorted by id, one per
/// workspace.
#[verifier::loop_isolation(false)]
#[verifier::rlimit(100)]
pub fn build_workspace_infos(
    windows: &Vec<WindowInfo>,
    show_all_windows: bool,
    focused_fallback: &Option<FocusedWorkspaceInfo>,
) -> (r: Vec<WorkspaceInfo>)
    ensures
        snapshot_ok(r@, windows@, show_all_windows, *focused_fallback),
{
    let n = windows.len();
    let mut gs: Vec<Group> = Vec::new();
    let mut k: usize = 0;
    proof {
        assert(windows@.take(0) =~= Seq::<WindowInfo>::empty());
    }
    while k < n
        invariant
            n == windows@.len(),
            k <= n,
            groups_inv(gs@, windows@.take(k as int)),
        decreases n - k,
    {
        let ghost pre = windows@.take(k as int);
        let ghost next = windows@.take(k + 1);
        let ghost x = windows@[k as int].workspace@;
        proof {
            assert(next.drop_last() =~= pre);
            assert(next.last() == windows@[k as int]);
        }
        match find_group(&gs, windows[k].workspace.as_str()) {
            Some(idx) => {
                let ghost gs0 = gs@;
                let mut e = gs.remove(idx);
                e.apps.push(windows[k].app_name.clone());
                e.is_focused = e.is_focused || windows[k].workspace_is_focused;
                let ghost e2 = e;
                gs.insert(idx, e);
                proof {
                    assert(gs@ =~= gs0.update(idx as int, e2));
                    assert(group_ids(gs@) =~= group_ids(gs0));
                    assert(text::views_of(e2.apps@) =~= text::views_of(gs0[idx as int].apps@)
                        + seq![windows@[k as int].app_name@]);
                    assert forall|i: int|
                        0 <= i < gs@.len() implies group_matches(#[trigger] gs@[i], next)
                        && has_ws(next, gs@[i].id@) by {
                        if i == idx {
                            assert(apps_of(next, x) =~= apps_of(pre, x) + seq![
                                windows@[k as int].app_name@,
                            ]);
                        } else {
                            assert(gs@[i] == gs0[i]);
                            assert(group_ids(gs0)[i] == gs0[i].id@);
                            assert(group_ids(gs0)[idx as int] == x);
                            assert(gs0[i].id@ != x);
                            assert(apps_of(next, gs@[i].id@) =~= apps_of(pre, gs@[i].id@));
                        }
                    }
                    assert forall|id: Seq<char>| #[trigger] has_ws(next, id) implies group_ids(
                        gs@,
                    ).contains(id) by {
                        if has_ws(pre, id) {
                            let w = choose|w: int|
                                0 <= w < group_ids(gs0).len() && group_ids(gs0)[w] == id;
                            assert(group_ids(gs@)[w] == id);
                        } else {
                            assert(id == x);
                            assert(group_ids(gs@)[idx as int] == id);
                        }
                    }
                }
            },
            None => {
                let p = find_position(&gs, windows[k].workspace.as_str());
                let ghost gs0 = gs@;
                let mut apps: Vec<String> = Vec::new();
                apps.push(windows[k].app_name.clone());
                let g = Group {
                    id: windows[k].workspace.clone(),
                    apps,
                    is_focused: windows[k].workspace_is_focused,
                    display_id: windows[k].display_id,
                };
                let ghost g2 = g;
                gs.insert(p, g);
                proof {
                    lemma_insert_group(gs0, g2, p as int);
                    assert(gs@ == gs0.insert(p as int, g2));
                    assert forall|i: int| 0 <= i < gs0.len() implies gs0[i].id@ != x by {}
                    assert(!has_ws(pre, x)) by {
                        if has_ws(pre, x) {
                            let w = choose|w: int|
                                0 <= w < group_ids(gs0).len() && group_ids(gs0)[w] == x;
                        }
                    }
                    lemma_absent_ws(pre, x);
                    assert(text::views_of(g2.apps@) =~= seq![windows@[k as int].app_name@]);
                    assert(apps_of(next, x) =~= seq![windows@[k as int].app_name@]);
                    assert forall|i: int|
                        0 <= i < gs@.len() implies group_matches(#[trigger] gs@[i], next)
                        && has_ws(next, gs@[i].id@) by {
                        if i < p {
                            assert(gs@[i] == gs0[i]);
                            assert(gs0[i].id@ != x);
                            assert(apps_of(next, gs@[i].id@) =~= apps_of(pre, gs@[i].id@));
                        } else if i == p {
                            assert(gs@[i] == g2);
                        } else {
                            assert(gs@[i] == gs0[i - 1]);
                            assert(gs0[i - 1].id@ != x);
                            assert(apps_of(next, gs@[i].id@) =~= apps_of(pre, gs@[i].id@));
                        }
                    }
                    assert forall|id: Seq<char>| #[trigger] has_ws(next, id) implies group_ids(
                        gs@,
                    ).contains(id) by {
                        if has_ws(pre, id) {
                            let w = choose|w: int|
                                0 <= w < group_ids(gs0).len() && group_ids(gs0)[w] == id;
                            if w < p {
                                assert(group_ids(gs@)[w] == id);
                            } else {
                                assert(group_ids(gs@)[w + 1] == id);
                            }
                        } else {
                            assert(id == x);
                            assert(group_ids(gs@)[p as int] == id);
                        }
                    }
                }
            },
        }
        k += 1;
    }
    let ghost all = windows@;
    proof {
        assert(windows@.take(n as int) =~= all);
    }
    // Synthesize the focused workspace when no window carries the flag.
    let mut grouped_focused = false;
    let glen = gs.len();
    let mut gi: usize = 0;
    while gi < glen
        invariant
            glen == gs@.len(),
            gi <= glen,
            groups_inv(gs@, all),
            grouped_focused ==> any_focused(all),
            !grouped_focused ==> forall|i: int| 0 <= i < gi ==> !gs@[i].is_focused,
        decreases glen - gi,
    {
        if gs[gi].is_focused {
            proof {
                lemma_ws_focused_iff(all, gs@[gi as int].id@);
                lemma_any_focused_iff(all);
            }
            grouped_focused = true;
        }
        gi += 1;
    }
    proof {
        if !grouped_focused && any_focused(all) {
            lemma_any_focused_iff(all);
            let w = choose|i: int| 0 <= i < all.len() && all[i].workspace_is_focused;
            lemma_has_ws_iff(all, all[w].workspace@);
            assert(has_ws(all, all[w].workspace@));
            let gidx = choose|i: int|
                0 <= i < group_ids(gs@).len() && group_ids(gs@)[i] == all[w].workspace@;
            lemma_ws_focused_iff(all, all[w].workspace@);
            assert(gs@[gidx].is_focused);
        }
        assert(grouped_focused == any_focused(all));
    }
    let ghost fbv = *focused_fallback;
    if !grouped_focused {
        match focused_fallback {
            Some(fb) => {
                let fresh = Group {
                    id: fb.workspace.clone(),
                    apps: Vec::new(),
                    is_focused: true,
                    display_id: fb.display_id,
                };
                let ghost fresh2 = fresh;
                let ghost gs0 = gs@;
                match find_group(&gs, fb.workspace.as_str()) {
                    Some(idx) => {
                        let _replaced = gs.remove(idx);
                        gs.insert(idx, fresh);
                        proof {
                            assert(gs@ =~= gs0.update(idx as int, fresh2));
                            assert(group_ids(gs@) =~= group_ids(gs0));
                            assert(group_ids(gs@)[idx as int] == fb.workspace@);
                            assert forall|i: int|
                                0 <= i < gs@.len() && i != idx implies gs@[i] == gs0[i]
                                && gs@[i].id@ != fb.workspace@ by {
                                assert(group_ids(gs0)[i] == gs0[i].id@);
                                assert(group_ids(gs0)[idx as int] == fb.workspace@);
                            }
                            assert(groups_fb_inv(gs@, all, *fb));
                        }
                    },
                    None => {
                        let p = find_position(&gs, fb.workspace.as_str());
                        gs.insert(p, fresh);
                        proof {
                            lemma_insert_group(gs0, fresh2, p as int);
                            assert(gs@ == gs0.insert(p as int, fresh2));
                            assert(group_ids(gs@)[p as int] == fb.workspace@);
                            assert(group_ids(gs@).contains(fb.workspace@));
                            assert forall|i: int|
                                0 <= i < gs@.len() implies (if (#[trigger] gs@[i]).id@
                                    == fb.workspace@ {
                                    group_is_fallback(gs@[i], *fb)
                                } else {
                                    group_matches(gs@[i], all) && has_ws(all, gs@[i].id@)
                                }) by {
                                if i < p {
                                    assert(gs@[i] == gs0[i]);
                                } else if i > p {
                                    assert(gs@[i] == gs0[i - 1]);
                                }
                            }
                            assert forall|id: Seq<char>| #[trigger] has_ws(all, id) implies
                                group_ids(gs@).contains(id) by {
                                let w = choose|w: int|
                                    0 <= w < group_ids(gs0).len() && group_ids(gs0)[w] == id;
                                if w < p {
                                    assert(group_ids(gs@)[w] == id);
                                } else {
                                    assert(group_ids(gs@)[w + 1] == id);
                                }
                            }
                            assert(groups_fb_inv(gs@, all, *fb));
                        }
                    },
                }
            },
            None => {},
        }
    }
    // Build the final entries with their icon strings.
    proof {
        match fbv {
            Some(f) => {
                if grouped_focused {
                    assert(groups_inv(gs@, all));
                } else {
                    assert(groups_fb_inv(gs@, all, f));
                }
            },
            None => {
                assert(groups_inv(gs@, all));
            },
        }
    }
    let mut out: Vec<WorkspaceInfo> = Vec::new();
    let m = gs.len();
    let ghost gsf = gs@;
    let mut i: usize = 0;
    while i < m
        invariant
            m == gs@.len(),
            gs@ == gsf,
            i <= m,
            out@.len() == i,
            forall|j: int|
                0 <= j < i ==> {
                    let e = #[trigger] out@[j];
                    &&& e.id@ == gsf[j].id@
                    &&& text::views_of(e.apps@) == text::views_of(gsf[j].apps@)
                    &&& e.is_focused == gsf[j].is_focused
                    &&& e.display_id == gsf[j].display_id
                    &&& e.icons@ == icons_spec(text::views_of(gsf[j].apps@), show_all_windows)
                },
        decreases m - i,
    {
        let g = &gs[i];
        let icons = build_icons(&g.apps, show_all_windows);
        let mut apps: Vec<String> = Vec::new();
        let alen = g.apps.len();
        let mut ai: usize = 0;
        while ai < alen
            invariant
                alen == g.apps@.len(),
                ai <= alen,
                apps@.len() == ai,
                forall|j: int| 0 <= j < ai ==> apps@[j]@ == g.apps@[j]@,
            decreases alen - ai,
        {
            apps.push(g.apps[ai].clone());
            ai += 1;
        }
        proof {
            assert(text::views_of(apps@) =~= text::views_of(g.apps@));
        }
        let e = WorkspaceInfo {
            id: g.id.clone(),
            apps,
            icons,
            is_focused: g.is_focused,
            display_id: g.display_id,
        };
        out.push(e);
        i += 1;
    }
    proof {
        assert(entries_ids(out@) =~= group_ids(gsf));
        lemma_trim_empty_icons();
        let show = show_all_windows;
        if grouped_focused || fbv is None {
            assert(groups_inv(gsf, all));
            assert forall|j: int|
                0 <= j < out@.len() implies entry_matches(#[trigger] out@[j], all, show)
                && has_ws(all, out@[j].id@) by {
                assert(group_matches(gsf[j], all));
            }
            assert(snapshot_plain(out@, all, show));
        } else {
            let f = fbv.unwrap();
            assert(groups_fb_inv(gsf, all, f));
            assert forall|j: int|
                0 <= j < out@.len() implies (if (#[trigger] out@[j]).id@ == f.workspace@ {
                fallback_entry(out@[j], f)
            } else {
                entry_matches(out@[j], all, show) && has_ws(all, out@[j].id@)
            }) by {
                if gsf[j].id@ == f.workspace@ {
                    assert(text::views_of(gsf[j].apps@) =~= Seq::<Seq<char>>::empty());
                } else {
                    assert(group_matches(gsf[j], all));
                }
            }
            assert(snapshot_with_fallback(out@, all, show, f));
        }
    }
    out
}

/// The icon string of an empty application list is empty.
proof fn lemma_trim_empty_icons()
    ensures
        forall|b: bool| #[trigger] icons_spec(Seq::<Seq<char>>::empty(), b)
            == Seq::<char>::empty(),
{
    assert(concat_icons(Seq::<Seq<char>>::empty()) == Seq::<char>::empty());
    assert(sorted_unique(Seq::<Seq<char>>::empty()) == Seq::<Seq<char>>::empty());
}

} // verus!
