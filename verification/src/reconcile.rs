//! The reconciliation engine: the daemon state with its debounce gate,
//! the diff of previously rendered workspaces against the current
//! snapshot, the classification of each workspace's visual state, and the
//! per-display update batches of one render pass.

use vstd::prelude::*;
use vstd::set::Set;
use vstd::string::StringExecFns;

use crate::batch;
use crate::batch::SketchybarBatch;
use crate::config::Config;
use crate::monitor_map::MonitorMapper;
use crate::snapshot;
use crate::snapshot::WorkspaceInfo;
use crate::text;

verus! {

// ------------------------------------------------------------------
// Daemon state and debounce gate
// ------------------------------------------------------------------

/// The shared daemon state, guarded by one lock outside the library.
pub struct DaemonState {
    /// The frontmost application, for deduplicating focus updates.
    pub front_app: String,
    /// When the last accepted workspace change happened, in milliseconds.
    pub last_workspace_change: Option<u64>,
    /// The workspace ids rendered in the previous successful pass.
    pub previous_workspaces: Vec<String>,
    /// The live configuration.
    pub config: Config,
    /// The display mapper with its cached mapping.
    pub monitor_mapper: MonitorMapper,
}

impl DaemonState {
    /// A fresh state around the given configuration.
    pub fn new(config: Config) -> (r: Self)
        ensures
            r.front_app@ == Seq::<char>::empty(),
            r.last_workspace_change is None,
            r.previous_workspaces@ == Seq::<String>::empty(),
            r.config == config,
            r.monitor_mapper.cache is None,
            r.monitor_mapper.cache_ttl_ms == 300_000,
    {
        DaemonState {
            front_app: String::new(),
            last_workspace_change: None,
            previous_workspaces: Vec::new(),
            config,
            monitor_mapper: MonitorMapper::new(),
        }
    }
}

/// Whether a change arriving at `now` passes the debounce gate given the
/// last accepted change: the first change always passes, a later one only
/// when at least the debounce window of 100ms has gone by.
pub open spec fn debounce_accepts(last: Option<u64>, now: u64) -> bool {
    match last {
        None => true,
        Some(t) => now - t >= 100,
    }
}

impl DaemonState {
    /// The debounce gate: decides whether a change notification arriving
    /// at `now_ms` starts a reconciliation pass, and records the time of
    /// an accepted change.  A debounced change leaves the state untouched.
    pub fn accept_change(&mut self, now_ms: u64) -> (r: bool)
        ensures
            r == debounce_accepts(old(self).last_workspace_change, now_ms),
            r ==> *final(self) == (DaemonState {
                last_workspace_change: Some(now_ms),
                ..*old(self)
            }),
            !r ==> *final(self) == *old(self),
    {
        let pass = match self.last_workspace_change {
            None => true,
            Some(t) => now_ms >= t && now_ms - t >= 100,
        };
        if pass {
            self.last_workspace_change = Some(now_ms);
        }
        pass
    }
}

/// Two changes inside one 100ms window start exactly one reconciliation:
/// after an accepted change at `t1`, a change at `t2` is accepted again
/// exactly when the window has elapsed.
pub proof fn lemma_debounce_window(last: Option<u64>, t1: u64, t2: u64)
    requires
        debounce_accepts(last, t1),
        t1 <= t2,
    ensures
        t2 - t1 < 100 ==> !debounce_accepts(Some(t1), t2),
        t2 - t1 >= 100 ==> debounce_accepts(Some(t1), t2),
{
}

// ------------------------------------------------------------------
// Diffing previous against current workspaces
// ------------------------------------------------------------------

/// The ids of `prev` that are absent from `cur`, in `prev` order.
pub open spec fn cleared_spec(prev: Seq<Seq<char>>, cur: Seq<Seq<char>>) -> Seq<Seq<char>>
    decreases prev.len(),
{
    if prev.len() == 0 {
        Seq::<Seq<char>>::empty()
    } else {
        cleared_spec(prev.drop_last(), cur) + if cur.contains(prev.last()) {
            Seq::<Seq<char>>::empty()
        } else {
            seq![prev.last()]
        }
    }
}

/// The set of ids a sequence holds.
pub open spec fn set_of(ids: Seq<Seq<char>>) -> Set<Seq<char>> {
    Set::new(|id: Seq<char>| ids.contains(id))
}

/// The clear-set law: for all previous sets A and current sets B of
/// workspace ids, the clear-set equals A minus B.
pub proof fn lemma_clear_set_is_difference(prev: Seq<Seq<char>>, cur: Seq<Seq<char>>)
    ensures
        set_of(cleared_spec(prev, cur)) =~= set_of(prev).difference(set_of(cur)),
    decreases prev.len(),
{
    if prev.len() > 0 {
        lemma_clear_set_is_difference(prev.drop_last(), cur);
        let pre = prev.drop_last();
        let c = cleared_spec(prev, cur);
        let cp = cleared_spec(pre, cur);
        assert forall|id: Seq<char>| set_of(c).contains(id) implies set_of(
            prev,
        ).difference(set_of(cur)).contains(id) by {
            let i = choose|i: int| 0 <= i < c.len() && c[i] == id;
            if i < cp.len() {
                assert(cp[i] == id);
                assert(cp.contains(id));
                assert(set_of(pre).difference(set_of(cur)).contains(id));
                let k = choose|k: int| 0 <= k < pre.len() && pre[k] == id;
                assert(prev[k] == id);
                assert(prev.contains(id));
            } else {
                assert(id == prev.last());
                assert(!cur.contains(id));
                assert(prev[prev.len() - 1] == id);
                assert(prev.contains(id));
            }
        }
        assert forall|id: Seq<char>| set_of(prev).difference(set_of(cur)).contains(id) implies
            set_of(c).contains(id) by {
            let i = choose|i: int| 0 <= i < prev.len() && prev[i] == id;
            if i < prev.len() - 1 {
                assert(pre[i] == id);
                assert(pre.contains(id));
                assert(set_of(cp).contains(id));
                let j = choose|j: int| 0 <= j < cp.len() && cp[j] == id;
                assert(c[j] == id);
            } else {
                assert(id == prev.last());
                assert(c.last() == id);
            }
        }
    }
}

/// The previously rendered ids that no current entry carries.
#[verifier::loop_isolation(false)]
pub fn workspaces_to_clear(prev: &Vec<String>, entries: &Vec<WorkspaceInfo>) -> (r: Vec<
    String,
>)
    ensures
        text::views_of(r@) == cleared_spec(text::views_of(prev@), snapshot::entries_ids(entries@)),
{
    let ghost pv = text::views_of(prev@);
    let ghost cur = snapshot::entries_ids(entries@);
    let mut out: Vec<String> = Vec::new();
    let n = prev.len();
    let mut i: usize = 0;
    while i < n
        invariant
            n == prev@.len(),
            i <= n,
            pv == text::views_of(prev@),
            cur == snapshot::entries_ids(entries@),
            text::views_of(out@) == cleared_spec(pv.take(i as int), cur),
        decreases n - i,
    {
        proof {
            assert(pv.take(i + 1).drop_last() =~= pv.take(i as int));
            assert(pv.take(i + 1).last() == prev@[i as int]@);
        }
        let mut present = false;
        let m = entries.len();
        let mut j: usize = 0;
        while j < m
            invariant
                m == entries@.len(),
                j <= m,
                cur == snapshot::entries_ids(entries@),
                present ==> cur.contains(prev@[i as int]@),
                !present ==> forall|l: int| 0 <= l < j ==> cur[l] != prev@[i as int]@,
            decreases m - j,
        {
            if text::str_eq(entries[j].id.as_str(), prev[i].as_str()) {
                proof {
                    assert(cur[j as int] == prev@[i as int]@);
                }
                present = true;
            }
            j += 1;
        }
        if !present {
            out.push(prev[i].clone());
            proof {
                assert(text::views_of(out@) =~= cleared_spec(pv.take(i + 1), cur));
            }
        } else {
            proof {
                assert(text::views_of(out@) =~= cleared_spec(pv.take(i + 1), cur));
            }
        }
        i += 1;
    }
    proof {
        assert(pv.take(n as int) =~= pv);
    }
    out
}

// ------------------------------------------------------------------
// Classification
// ------------------------------------------------------------------

/// The visual state of one workspace, exactly one per (has_apps,
/// is_focused) pair and monitor mode.
pub enum WorkspaceVisual {
    /// Windows and focus: label, icons, accent background.
    ActiveFocused,
    /// Windows without focus: label and icons in unfocused colors, no
    /// background.
    ActiveUnfocused,
    /// Focus without windows: placeholder glyph on the accent background.
    EmptyFocused,
    /// Neither, on a single monitor: hidden entirely.
    HiddenEmpty,
    /// Neither, on several monitors: a dim placeholder glyph.
    DimEmpty,
}

/// The classification table over (has_apps, is_focused) and the monitor
/// mode.
pub open spec fn classify_spec(
    has_apps: bool,
    is_focused: bool,
    single_monitor: bool,
) -> WorkspaceVisual {
    if has_apps && is_focused {
        WorkspaceVisual::ActiveFocused
    } else if has_apps {
        WorkspaceVisual::ActiveUnfocused
    } else if is_focused {
        WorkspaceVisual::EmptyFocused
    } else if single_monitor {
        WorkspaceVisual::HiddenEmpty
    } else {
        WorkspaceVisual::DimEmpty
    }
}

/// Classifies one workspace.
pub fn classify(has_apps: bool, is_focused: bool, single_monitor: bool) -> (r:
    WorkspaceVisual)
    ensures
        r == classify_spec(has_apps, is_focused, single_monitor),
{
    if has_apps && is_focused {
        WorkspaceVisual::ActiveFocused
    } else if has_apps {
        WorkspaceVisual::ActiveUnfocused
    } else if is_focused {
        WorkspaceVisual::EmptyFocused
    } else if single_monitor {
        WorkspaceVisual::HiddenEmpty
    } else {
        WorkspaceVisual::DimEmpty
    }
}

// ------------------------------------------------------------------
// Render directives
// ------------------------------------------------------------------

/// The renderer item that stands for a workspace.
pub open spec fn item_name(id: Seq<char>) -> Seq<char> {
    "workspace."@ + id
}

/// The workspace label: the bracketed id, with a placeholder glyph in
/// front when no icon string renders beside it.
pub open spec fn ws_label(id: Seq<char>, has_icon: bool) -> Seq<char> {
    if has_icon {
        "["@ + id + "]"@
    } else {
        "\u{f444} ["@ + id + "]"@
    }
}

/// The property list of one workspace's set-directive, by visual state.
pub open spec fn workspace_props(
    e: WorkspaceInfo,
    single: bool,
    cfg: Config,
    pos_color: Seq<char>,
) -> Seq<(Seq<char>, Seq<char>)> {
    let id = e.id@;
    let d = text::dec_str(e.display_id as nat);
    match classify_spec(e.apps@.len() > 0, e.is_focused, single) {
        WorkspaceVisual::ActiveFocused => seq![
            ("label"@, ws_label(id, true)),
            ("label.color"@, cfg.workspace_focused_label_color@),
            ("icon"@, e.icons@),
            ("icon.color"@, cfg.workspace_focused_icon_color@),
            ("icon.drawing"@, "on"@),
            ("drawing"@, "on"@),
            ("background.drawing"@, "on"@),
            ("display"@, d),
            ("background.color"@, pos_color),
        ],
        WorkspaceVisual::ActiveUnfocused => seq![
            ("label"@, ws_label(id, true)),
            ("label.color"@, cfg.workspace_unfocused_label_color@),
            ("icon"@, e.icons@),
            ("icon.color"@, cfg.workspace_unfocused_icon_color@),
            ("icon.drawing"@, "on"@),
            ("drawing"@, "on"@),
            ("background.drawing"@, "off"@),
            ("display"@, d),
        ],
        WorkspaceVisual::EmptyFocused => seq![
            ("label"@, ws_label(id, false)),
            ("label.color"@, cfg.workspace_focused_label_color@),
            ("icon"@, ""@),
            ("icon.color"@, cfg.workspace_focused_icon_color@),
            ("icon.drawing"@, "off"@),
            ("drawing"@, "on"@),
            ("background.drawing"@, "on"@),
            ("display"@, d),
            ("background.color"@, pos_color),
        ],
        WorkspaceVisual::HiddenEmpty => seq![("drawing"@, "off"@), ("display"@, d)],
        WorkspaceVisual::DimEmpty => seq![
            ("label"@, ws_label(id, false)),
            ("label.color"@, cfg.workspace_unfocused_label_color@),
            ("icon"@, ""@),
            ("icon.color"@, cfg.workspace_unfocused_icon_color@),
            ("icon.drawing"@, "off"@),
            ("drawing"@, "on"@),
            ("background.drawing"@, "off"@),
            ("display"@, d),
        ],
    }
}

/// The full set-directive of one workspace.
pub open spec fn workspace_args(
    e: WorkspaceInfo,
    single: bool,
    cfg: Config,
    pos_color: Seq<char>,
) -> Seq<Seq<char>> {
    batch::set_args(item_name(e.id@), workspace_props(e, single, cfg, pos_color))
}

/// The clear-directive for a vanished workspace on one display.
pub open spec fn clear_args(id: Seq<char>, d: u32) -> Seq<Seq<char>> {
    batch::set_args(
        item_name(id),
        seq![("drawing"@, "off"@), ("display"@, text::dec_str(d as nat))],
    )
}

/// All clear-directives of a pass, in order.
pub open spec fn clear_block(cleared: Seq<Seq<char>>, d: u32) -> Seq<Seq<char>>
    decreases cleared.len(),
{
    if cleared.len() == 0 {
        Seq::<Seq<char>>::empty()
    } else {
        clear_block(cleared.drop_last(), d) + clear_args(cleared.last(), d)
    }
}

/// The set-directives of the current workspaces that sit on display `d`,
/// in entry order; the accent color is keyed by the entry's position.
pub open spec fn ws_block(
    entries: Seq<WorkspaceInfo>,
    d: u32,
    single: bool,
    cfg: Config,
    gradient: Seq<Seq<char>>,
) -> Seq<Seq<char>>
    decreases entries.len(),
{
    if entries.len() == 0 {
        Seq::<Seq<char>>::empty()
    } else {
        ws_block(entries.drop_last(), d, single, cfg, gradient) + if entries.last().display_id
            == d {
            workspace_args(
                entries.last(),
                single,
                cfg,
                gradient[(entries.len() - 1) % (gradient.len() as int)],
            )
        } else {
            Seq::<Seq<char>>::empty()
        }
    }
}

/// A sequence of display ids with later duplicates removed.
pub open spec fn dedup_u32(s: Seq<u32>) -> Seq<u32>
    decreases s.len(),
{
    if s.len() == 0 {
        Seq::<u32>::empty()
    } else {
        dedup_u32(s.drop_last()) + if s.drop_last().contains(s.last()) {
            Seq::<u32>::empty()
        } else {
            seq![s.last()]
        }
    }
}

/// Removing duplicate display ids keeps membership unchanged.
pub proof fn lemma_dedup_u32_membership(s: Seq<u32>, x: u32)
    ensures
        dedup_u32(s).contains(x) <==> s.contains(x),
    decreases s.len(),
{
    if s.len() > 0 {
        lemma_dedup_u32_membership(s.drop_last(), x);
        let pre = s.drop_last();
        if s.contains(x) {
            let i = choose|i: int| 0 <= i < s.len() && s[i] == x;
            if i < s.len() - 1 {
                assert(pre[i] == x);
                assert(pre.contains(x));
                let j = choose|j: int| 0 <= j < dedup_u32(pre).len() && dedup_u32(pre)[j] == x;
                assert(dedup_u32(s)[j] == x);
            } else {
                if pre.contains(x) {
                    let j = choose|j: int|
                        0 <= j < dedup_u32(pre).len() && dedup_u32(pre)[j] == x;
                    assert(dedup_u32(s)[j] == x);
                } else {
                    assert(dedup_u32(s).last() == x);
                }
            }
        }
        if dedup_u32(s).contains(x) {
            let i = choose|i: int| 0 <= i < dedup_u32(s).len() && dedup_u32(s)[i] == x;
            if i < dedup_u32(pre).len() {
                assert(dedup_u32(pre)[i] == x);
                let j = choose|j: int| 0 <= j < pre.len() && pre[j] == x;
                assert(s[j] == x);
            } else {
                assert(s.last() == x);
            }
        }
    }
}

/// The display ids of the entries, in order.
pub open spec fn display_ids(entries: Seq<WorkspaceInfo>) -> Seq<u32> {
    entries.map_values(|e: WorkspaceInfo| e.display_id)
}

/// One batch per display of a pass: the given displays first, then any
/// further display a current workspace sits on, without duplicates.
pub open spec fn batch_keys(displays: Seq<u32>, entries: Seq<WorkspaceInfo>) -> Seq<u32> {
    dedup_u32(displays + display_ids(entries))
}

/// The renderer item name for a workspace id.
pub fn make_item_name(id: &str) -> (r: String)
    ensures
        r@ == item_name(id@),
{
    let mut out = String::from_str("workspace.");
    out.append(id);
    out
}

/// Builds a workspace label with bracket formatting, with a placeholder
/// glyph when no icon string renders beside it.
pub fn format_workspace_label(ws_id: &str, has_icon: bool) -> (r: String)
    ensures
        r@ == ws_label(ws_id@, has_icon),
{
    let mut out = if has_icon {
        String::from_str("[")
    } else {
        String::from_str("\u{f444} [")
    };
    out.append(ws_id);
    out.append("]");
    out
}

/// Whether `v` holds the display id `x`.
fn contains_u32(v: &Vec<u32>, x: u32) -> (r: bool)
    ensures
        r == v@.contains(x),
{
    let n = v.len();
    let mut i: usize = 0;
    while i < n
        invariant
            n == v@.len(),
            i <= n,
            forall|j: int| 0 <= j < i ==> v@[j] != x,
        decreases n - i,
    {
        if v[i] == x {
            assert(v@[i as int] == x);
            return true;
        }
        i += 1;
    }
    false
}

/// Appends the set-directive of one workspace entry to the batch.
fn append_workspace_set(
    b: &mut SketchybarBatch,
    e: &WorkspaceInfo,
    single: bool,
    config: &Config,
    pos_color: &str,
)
    ensures
        final(b)@ == old(b)@ + workspace_args(*e, single, *config, pos_color@),
{
    let item = make_item_name(e.id.as_str());
    let display_str = text::decimal_string(e.display_id as u64);
    let has_apps = e.apps.len() > 0;
    let mut props: Vec<(&str, &str)> = Vec::new();
    let label: String;
    match classify(has_apps, e.is_focused, single) {
        WorkspaceVisual::ActiveFocused => {
            label = format_workspace_label(e.id.as_str(), true);
            props.push(("label", label.as_str()));
            props.push(("label.color", config.workspace_focused_label_color.as_str()));
            props.push(("icon", e.icons.as_str()));
            props.push(("icon.color", config.workspace_focused_icon_color.as_str()));
            props.push(("icon.drawing", "on"));
            props.push(("drawing", "on"));
            props.push(("background.drawing", "on"));
            props.push(("display", display_str.as_str()));
            props.push(("background.color", pos_color));
        },
        WorkspaceVisual::ActiveUnfocused => {
            label = format_workspace_label(e.id.as_str(), true);
            props.push(("label", label.as_str()));
            props.push(("label.color", config.workspace_unfocused_label_color.as_str()));
            props.push(("icon", e.icons.as_str()));
            props.push(("icon.color", config.workspace_unfocused_icon_color.as_str()));
            props.push(("icon.drawing", "on"));
            props.push(("drawing", "on"));
            props.push(("background.drawing", "off"));
            props.push(("display", display_str.as_str()));
        },
        WorkspaceVisual::EmptyFocused => {
            label = format_workspace_label(e.id.as_str(), false);
            props.push(("label", label.as_str()));
            props.push(("label.color", config.workspace_focused_label_color.as_str()));
            props.push(("icon", ""));
            props.push(("icon.color", config.workspace_focused_icon_color.as_str()));
            props.push(("icon.drawing", "off"));
            props.push(("drawing", "on"));
            props.push(("background.drawing", "on"));
            props.push(("display", display_str.as_str()));
            props.push(("background.color", pos_color));
        },
        WorkspaceVisual::HiddenEmpty => {
            props.push(("drawing", "off"));
            props.push(("display", display_str.as_str()));
        },
        WorkspaceVisual::DimEmpty => {
            label = format_workspace_label(e.id.as_str(), false);
            props.push(("label", label.as_str()));
            props.push(("label.color", config.workspace_unfocused_label_color.as_str()));
            props.push(("icon", ""));
            props.push(("icon.color", config.workspace_unfocused_icon_color.as_str()));
            props.push(("icon.drawing", "off"));
            props.push(("drawing", "on"));
            props.push(("background.drawing", "off"));
            props.push(("display", display_str.as_str()));
        },
    }
    proof {
        assert(batch::props_view(props@) =~= workspace_props(*e, single, *config, pos_color@));
    }
    b.set(item.as_str(), props.as_slice());
}

/// Builds the per-display batches of one pass: for every display first
/// the clear-directives of the vanished workspaces, then the
/// set-directives of the current workspaces that sit on it.
#[verifier::loop_isolation(false)]
#[verifier::rlimit(60)]
pub fn render_workspaces(
    prev: &Vec<String>,
    entries: &Vec<WorkspaceInfo>,
    displays: &Vec<u32>,
    single_monitor: bool,
    config: &Config,
    gradient_colors: &Vec<String>,
) -> (r: Vec<(u32, SketchybarBatch)>)
    requires
        gradient_colors@.len() > 0,
    ensures
        ({
            let cleared = cleared_spec(
                text::views_of(prev@),
                snapshot::entries_ids(entries@),
            );
            let keys = batch_keys(displays@, entries@);
            let gradient = text::views_of(gradient_colors@);
            &&& r@.len() == keys.len()
            &&& forall|j: int|
                0 <= j < r@.len() ==> (#[trigger] r@[j]).0 == keys[j] && r@[j].1@
                    == clear_block(cleared, keys[j]) + ws_block(
                    entries@,
                    keys[j],
                    single_monitor,
                    *config,
                    gradient,
                )
        }),
{
    let ghost cleared_v = cleared_spec(text::views_of(prev@), snapshot::entries_ids(entries@));
    let ghost gradient_v = text::views_of(gradient_colors@);
    let cleared = workspaces_to_clear(prev, entries);
    // One batch key per display, given displays first.
    let ghost comb = displays@ + display_ids(entries@);
    let mut keys: Vec<u32> = Vec::new();
    let dn = displays.len();
    let mut i: usize = 0;
    proof {
        assert(comb.take(0) =~= Seq::<u32>::empty());
    }
    while i < dn
        invariant
            i <= dn,
            keys@ == dedup_u32(comb.take(i as int)),
        decreases dn - i,
    {
        proof {
            assert(comb.take(i + 1).drop_last() =~= comb.take(i as int));
            assert(comb.take(i + 1).last() == displays@[i as int]);
            lemma_dedup_u32_membership(comb.take(i as int), displays@[i as int]);
        }
        let d = displays[i];
        if !contains_u32(&keys, d) {
            keys.push(d);
            proof {
                assert(keys@ =~= dedup_u32(comb.take(i + 1)));
            }
        } else {
            proof {
                assert(keys@ =~= dedup_u32(comb.take(i + 1)));
            }
        }
        i += 1;
    }
    let en = entries.len();
    let mut t: usize = 0;
    while t < en
        invariant
            t <= en,
            keys@ == dedup_u32(comb.take(dn + t)),
        decreases en - t,
    {
        proof {
            assert(comb.take(dn + t + 1).drop_last() =~= comb.take(dn + t));
            assert(comb.take(dn + t + 1).last() == entries@[t as int].display_id);
            lemma_dedup_u32_membership(comb.take(dn + t), entries@[t as int].display_id);
        }
        let d = entries[t].display_id;
        if !contains_u32(&keys, d) {
            keys.push(d);
            proof {
                assert(keys@ =~= dedup_u32(comb.take(dn + t + 1)));
            }
        } else {
            proof {
                assert(keys@ =~= dedup_u32(comb.take(dn + t + 1)));
            }
        }
        t += 1;
    }
    proof {
        assert(comb.take(dn + en) =~= comb);
        assert(keys@ == batch_keys(displays@, entries@));
    }
    // Build one batch per key.
    let mut out: Vec<(u32, SketchybarBatch)> = Vec::new();
    let kn = keys.len();
    let mut ki: usize = 0;
    while ki < kn
        invariant
            ki <= kn,
            kn == keys@.len(),
            out@.len() == ki,
            forall|j: int|
                0 <= j < ki ==> (#[trigger] out@[j]).0 == keys@[j] && out@[j].1@
                    == clear_block(cleared_v, keys@[j]) + ws_block(
                    entries@,
                    keys@[j],
                    single_monitor,
                    *config,
                    gradient_v,
                ),
        decreases kn - ki,
    {
        let d = keys[ki];
        let display_str = text::decimal_string(d as u64);
        let mut b = SketchybarBatch::new();
        // Clear-directives first.
        let cn = cleared.len();
        let mut ci: usize = 0;
        while ci < cn
            invariant
                ci <= cn,
                cn == cleared@.len(),
                b@ == clear_block(text::views_of(cleared@).take(ci as int), d),
                display_str@ == text::dec_str(d as nat),
            decreases cn - ci,
        {
            let ghost cv = text::views_of(cleared@);
            proof {
                assert(cv.take(ci + 1).drop_last() =~= cv.take(ci as int));
                assert(cv.take(ci + 1).last() == cleared@[ci as int]@);
            }
            let item = make_item_name(cleared[ci].as_str());
            let mut props: Vec<(&str, &str)> = Vec::new();
            props.push(("drawing", "off"));
            props.push(("display", display_str.as_str()));
            proof {
                assert(batch::props_view(props@) =~= seq![
                    ("drawing"@, "off"@),
                    ("display"@, text::dec_str(d as nat)),
                ]);
            }
            b.set(item.as_str(), props.as_slice());
            ci += 1;
        }
        proof {
            assert(text::views_of(cleared@).take(cn as int) =~= text::views_of(cleared@));
            assert(b@ == clear_block(cleared_v, d));
            assert(ws_block(entries@.take(0), d, single_monitor, *config, gradient_v)
                =~= Seq::<Seq<char>>::empty());
            assert(entries@.take(0) =~= Seq::<WorkspaceInfo>::empty());
        }
        // Then the current workspaces of this display.
        let mut ei: usize = 0;
        while ei < en
            invariant
                ei <= en,
                en == entries@.len(),
                b@ == clear_block(cleared_v, d) + ws_block(
                    entries@.take(ei as int),
                    d,
                    single_monitor,
                    *config,
                    gradient_v,
                ),
            decreases en - ei,
        {
            proof {
                assert(entries@.take(ei + 1).drop_last() =~= entries@.take(ei as int));
                assert(entries@.take(ei + 1).last() == entries@[ei as int]);
            }
            if entries[ei].display_id == d {
                let glen = gradient_colors.len();
                let pos = ei % glen;
                append_workspace_set(
                    &mut b,
                    &entries[ei],
                    single_monitor,
                    config,
                    gradient_colors[pos].as_str(),
                );
                proof {
                    assert(gradient_v[pos as int] == gradient_colors@[pos as int]@);
                }
            }
            ei += 1;
        }
        proof {
            assert(entries@.take(en as int) =~= entries@);
        }
        out.push((d, b));
        ki += 1;
    }
    out
}

/// The accent color list the render pass keys by bar position: the
/// parsed gradient's fifteen steps, or fifteen copies of the workspace
/// background color.
pub open spec fn gradient_spec_colors(cfg: Config) -> Seq<Seq<char>> {
    match crate::colors::gradient_spec(cfg.border_active_color@) {
        Some(stops) => Seq::new(
            15,
            |i: int| crate::colors::color_hex_str(crate::colors::lerp_color(stops.0, stops.1, i, 15)),
        ),
        None => Seq::new(15, |i: int| cfg.workspace_bg_color@),
    }
}

/// One reconciliation pass over a successfully read snapshot: diffs the
/// previously rendered workspaces against the current entries, builds the
/// per-display batches, and replaces the persisted previous-workspace set
/// with the current one, whatever becomes of the individual batches.
#[verifier::loop_isolation(false)]
pub fn render_pass(
    state: &mut DaemonState,
    entries: &Vec<WorkspaceInfo>,
    displays: &Vec<u32>,
    single_monitor: bool,
) -> (r: Vec<(u32, SketchybarBatch)>)
    ensures
        text::views_of(final(state).previous_workspaces@) == snapshot::entries_ids(entries@),
        final(state).front_app == old(state).front_app,
        final(state).last_workspace_change == old(state).last_workspace_change,
        final(state).config == old(state).config,
        final(state).monitor_mapper == old(state).monitor_mapper,
        ({
            let cleared = cleared_spec(
                text::views_of(old(state).previous_workspaces@),
                snapshot::entries_ids(entries@),
            );
            let keys = batch_keys(displays@, entries@);
            let gradient = gradient_spec_colors(old(state).config);
            &&& r@.len() == keys.len()
            &&& forall|j: int|
                0 <= j < r@.len() ==> (#[trigger] r@[j]).0 == keys[j] && r@[j].1@
                    == clear_block(cleared, keys[j]) + ws_block(
                    entries@,
                    keys[j],
                    single_monitor,
                    old(state).config,
                    gradient,
                )
        }),
{
    let gradient_colors = crate::colors::get_workspace_gradient_colors(&state.config);
    proof {
        assert(text::views_of(gradient_colors@) =~= gradient_spec_colors(state.config));
    }
    let batches = render_workspaces(
        &state.previous_workspaces,
        entries,
        displays,
        single_monitor,
        &state.config,
        &gradient_colors,
    );
    let mut current: Vec<String> = Vec::new();
    let en = entries.len();
    let mut i: usize = 0;
    while i < en
        invariant
            i <= en,
            text::views_of(current@) == snapshot::entries_ids(entries@).take(i as int),
        decreases en - i,
    {
        current.push(entries[i].id.clone());
        proof {
            assert(text::views_of(current@) =~= snapshot::entries_ids(entries@).take(i + 1));
        }
        i += 1;
    }
    proof {
        assert(snapshot::entries_ids(entries@).take(en as int) =~= snapshot::entries_ids(
            entries@,
        ));
    }
    state.previous_workspaces = current;
    batches
}

/// The application name as the front-app widget shows it: a corporate
/// prefix is dropped.
pub open spec fn cleaned_app(s: Seq<char>) -> Seq<char> {
    if s.len() >= 10 && s.take(10) == "Microsoft "@ {
        s.skip(10)
    } else {
        s
    }
}

/// One focus change: an empty name or an unchanged frontmost
/// application changes nothing; a new one is recorded and its front-app
/// update built.
pub fn focus_update(state: &mut DaemonState, app_name: &str) -> (r: Option<SketchybarBatch>)
    ensures
        ({
            let cleaned = cleaned_app(app_name@);
            let unchanged = (*final(state) == *old(state));
            let updated = (final(state).front_app@ == cleaned && final(state).last_workspace_change
                == old(state).last_workspace_change && final(state).previous_workspaces == old(
                state,
            ).previous_workspaces && final(state).config == old(state).config
                && final(state).monitor_mapper == old(state).monitor_mapper);
            let directives = batch::set_args(
                "front_app"@,
                seq![("icon"@, snapshot::icon_of(cleaned)), ("label"@, "\u{276f} "@ + cleaned)],
            );
            &&& (app_name@.len() == 0 ==> r is None && unchanged)
            &&& (app_name@.len() > 0 && old(state).front_app@ == cleaned ==> r is None
                && unchanged)
            &&& (app_name@.len() > 0 && old(state).front_app@ != cleaned ==> updated && (r
                matches Some(b) && b@ == directives))
        }),
{
    let n = app_name.unicode_len();
    if n == 0 {
        return None;
    }
    let cleaned: &str = if n >= 10 && text::str_eq(app_name.substring_char(0, 10), "Microsoft ")
    {
        proof {
            assert(app_name@.take(10) =~= app_name@.subrange(0, 10));
        }
        app_name.substring_char(10, n)
    } else {
        proof {
            if app_name@.len() >= 10 {
                assert(app_name@.take(10) =~= app_name@.subrange(0, 10));
            }
        }
        app_name
    };
    proof {
        assert(cleaned@ == cleaned_app(app_name@));
    }
    if text::str_eq(state.front_app.as_str(), cleaned) {
        return None;
    }
    state.front_app = cleaned.to_owned();
    let icon = snapshot::get_icon(cleaned);
    Some(crate::items::update_front_app(icon, cleaned))
}

/// Without windows and focus, the workspace's whole directive is the
/// hide (single monitor) or the dim placeholder (several monitors):
/// nothing else is sent for it.
pub proof fn lemma_hidden_empty_args(e: WorkspaceInfo, cfg: Config, pos_color: Seq<char>)
    requires
        e.apps@.len() == 0,
        !e.is_focused,
    ensures
        workspace_args(e, true, cfg, pos_color) == batch::set_args(
            item_name(e.id@),
            seq![("drawing"@, "off"@), ("display"@, text::dec_str(e.display_id as nat))],
        ),
        workspace_args(e, false, cfg, pos_color) == batch::set_args(
            item_name(e.id@),
            seq![
                ("label"@, ws_label(e.id@, false)),
                ("label.color"@, cfg.workspace_unfocused_label_color@),
                ("icon"@, ""@),
                ("icon.color"@, cfg.workspace_unfocused_icon_color@),
                ("icon.drawing"@, "off"@),
                ("drawing"@, "on"@),
                ("background.drawing"@, "off"@),
                ("display"@, text::dec_str(e.display_id as nat)),
            ],
        ),
{
}

/// Every clear-directive stands in the clear-block, four arguments per
/// vanished workspace, and the whole block comes before any other
/// directive of the display's batch.
pub proof fn lemma_clear_block_len(cleared: Seq<Seq<char>>, d: u32)
    ensures
        clear_block(cleared, d).len() == 4 * cleared.len(),
    decreases cleared.len(),
{
    if cleared.len() > 0 {
        lemma_clear_block_len(cleared.drop_last(), d);
    }
}

/// A workspace present in the previous pass and absent from the current
/// one produces a clear-directive on every display before any other
/// directive: position `k` of the clear-set owns exactly the four
/// arguments of its clear-directive, at the head of the batch.
pub proof fn lemma_cleared_rendered_first(cleared: Seq<Seq<char>>, d: u32, k: int)
    requires
        0 <= k < cleared.len(),
    ensures
        clear_block(cleared, d).subrange(4 * k, 4 * k + 4) =~= clear_args(cleared[k], d),
    decreases cleared.len(),
{
    lemma_clear_block_len(cleared, d);
    lemma_clear_block_len(cleared.drop_last(), d);
    if k < cleared.len() - 1 {
        lemma_cleared_rendered_first(cleared.drop_last(), d, k);
        assert(clear_block(cleared.drop_last(), d).subrange(4 * k, 4 * k + 4) =~= clear_block(
            cleared,
            d,
        ).subrange(4 * k, 4 * k + 4));
    }
}

/// Classification is total and exhaustive over (has_apps, is_focused):
/// each pair yields exactly one visual state; without windows and focus,
/// single-monitor mode always hides the workspace and multi-monitor mode
/// always shows the dim placeholder.
pub proof fn lemma_classification_exhaustive()
    ensures
        forall|ha: bool, fo: bool, sm: bool|
            classify_spec(ha, fo, sm) == (if ha && fo {
                WorkspaceVisual::ActiveFocused
            } else if ha && !fo {
                WorkspaceVisual::ActiveUnfocused
            } else if !ha && fo {
                WorkspaceVisual::EmptyFocused
            } else if sm {
                WorkspaceVisual::HiddenEmpty
            } else {
                WorkspaceVisual::DimEmpty
            }),
        forall|sm: bool| classify_spec(false, false, sm) == (if sm {
            WorkspaceVisual::HiddenEmpty
        } else {
            WorkspaceVisual::DimEmpty
        }),
{
}

} // verus!
