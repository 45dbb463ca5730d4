//! The display mapper: joins the OS screen enumeration, the renderer's
//! display query and the window manager's monitor listing into one
//! renderer-display-to-monitor mapping, caches it with a time-to-live,
//! and parses the textual forms the three queries come in.

use vstd::prelude::*;
use vstd::string::StrSliceExecFns;
use vstd::string::StringExecFns;

use crate::text;

verus! {

/// The default monitor a renderer display with no resolvable monitor
/// falls back to, so it is never dropped.
pub const DEFAULT_MONITOR_ID: u32 = 1;

// ------------------------------------------------------------------
// Association lists
// ------------------------------------------------------------------

/// The view of a list of id/name pairs.
pub open spec fn pairs_view(s: Seq<(u32, String)>) -> Seq<(u32, Seq<char>)> {
    s.map_values(|p: (u32, String)| (p.0, p.1@))
}

/// The first value stored under key `k`, if any.
pub open spec fn lookup_name(m: Seq<(u32, Seq<char>)>, k: u32) -> Option<Seq<char>>
    decreases m.len(),
{
    if m.len() == 0 {
        None
    } else if m[0].0 == k {
        Some(m[0].1)
    } else {
        lookup_name(m.drop_first(), k)
    }
}

/// The first key whose value equals `name`, if any.
pub open spec fn find_monitor(m: Seq<(u32, Seq<char>)>, name: Seq<char>) -> Option<u32>
    decreases m.len(),
{
    if m.len() == 0 {
        None
    } else if m[0].1 == name {
        Some(m[0].0)
    } else {
        find_monitor(m.drop_first(), name)
    }
}

/// `m` with `k` bound to `v`: the first binding of `k` is replaced,
/// a fresh key is appended.
pub open spec fn insert_name(m: Seq<(u32, Seq<char>)>, k: u32, v: Seq<char>) -> Seq<
    (u32, Seq<char>),
>
    decreases m.len(),
{
    if m.len() == 0 {
        seq![(k, v)]
    } else if m[0].0 == k {
        seq![(k, v)] + m.drop_first()
    } else {
        seq![m[0]] + insert_name(m.drop_first(), k, v)
    }
}

/// `m` with `k` bound to `v`, over plain id pairs.
pub open spec fn insert_id(m: Seq<(u32, u32)>, k: u32, v: u32) -> Seq<(u32, u32)>
    decreases m.len(),
{
    if m.len() == 0 {
        seq![(k, v)]
    } else if m[0].0 == k {
        seq![(k, v)] + m.drop_first()
    } else {
        seq![m[0]] + insert_id(m.drop_first(), k, v)
    }
}

/// Looks up the name stored under `k`.
fn lookup_name_exec<'a>(m: &'a Vec<(u32, String)>, k: u32) -> (r: Option<&'a String>)
    ensures
        match r {
            Some(s) => lookup_name(pairs_view(m@), k) == Some(s@),
            None => lookup_name(pairs_view(m@), k) is None,
        },
{
    let ghost mv = pairs_view(m@);
    let n = m.len();
    let mut i: usize = 0;
    proof {
        assert(mv.skip(0) =~= mv);
    }
    while i < n
        invariant
            n == m@.len(),
            i <= n,
            mv == pairs_view(m@),
            lookup_name(mv, k) == lookup_name(mv.skip(i as int), k),
        decreases n - i,
    {
        proof {
            assert(mv.skip(i as int)[0] == mv[i as int]);
            assert(mv.skip(i as int).drop_first() =~= mv.skip(i + 1));
        }
        if m[i].0 == k {
            return Some(&m[i].1);
        }
        i += 1;
    }
    proof {
        assert(mv.skip(n as int).len() == 0);
    }
    None
}

/// Finds the monitor id listed under `name`.
fn find_monitor_exec(m: &Vec<(u32, String)>, name: &String) -> (r: Option<u32>)
    ensures
        r == find_monitor(pairs_view(m@), name@),
{
    let ghost mv = pairs_view(m@);
    let n = m.len();
    let mut i: usize = 0;
    proof {
        assert(mv.skip(0) =~= mv);
    }
    while i < n
        invariant
            n == m@.len(),
            i <= n,
            mv == pairs_view(m@),
            find_monitor(mv, name@) == find_monitor(mv.skip(i as int), name@),
        decreases n - i,
    {
        proof {
            assert(mv.skip(i as int)[0] == mv[i as int]);
            assert(mv.skip(i as int).drop_first() =~= mv.skip(i + 1));
        }
        if text::str_eq(m[i].1.as_str(), name.as_str()) {
            return Some(m[i].0);
        }
        i += 1;
    }
    proof {
        assert(mv.skip(n as int).len() == 0);
    }
    None
}

// ------------------------------------------------------------------
// The join
// ------------------------------------------------------------------

/// The resolved mapping: for each renderer display, the monitor whose
/// name matches the display's screen name; an unresolvable display falls
/// back to the default monitor rather than being dropped.
pub open spec fn join_spec(
    ns: Seq<(u32, Seq<char>)>,
    sb: Seq<(u32, u32)>,
    aero: Seq<(u32, Seq<char>)>,
) -> Seq<(u32, u32)>
    decreases sb.len(),
{
    if sb.len() == 0 {
        Seq::<(u32, u32)>::empty()
    } else {
        join_spec(ns, sb.drop_last(), aero) + seq![
            (
                sb.last().0,
                match lookup_name(ns, sb.last().1) {
                    Some(name) => match find_monitor(aero, name) {
                        Some(a) => a,
                        None => DEFAULT_MONITOR_ID,
                    },
                    None => DEFAULT_MONITOR_ID,
                },
            ),
        ]
    }
}

// ------------------------------------------------------------------
// The mapper and its cache
// ------------------------------------------------------------------

/// A cached mapping with its creation time.
pub struct CacheEntry {
    /// Renderer display id to window-manager monitor id.
    pub mappings: Vec<(u32, u32)>,
    /// When the cache was built, in milliseconds.
    pub created_at_ms: u64,
}

impl CacheEntry {
    /// Whether the entry is older than the time-to-live at `now_ms`.
    pub fn is_expired(&self, ttl_ms: u64, now_ms: u64) -> (r: bool)
        ensures
            r == (now_ms - self.created_at_ms > ttl_ms),
    {
        if now_ms <= self.created_at_ms {
            false
        } else {
            now_ms - self.created_at_ms > ttl_ms
        }
    }
}

/// Whether a cached mapping is still usable at `now_ms`.
pub open spec fn cache_fresh(cache: Option<CacheEntry>, ttl_ms: u64, now_ms: u64) -> bool {
    match cache {
        Some(e) => !(now_ms - e.created_at_ms > ttl_ms),
        None => false,
    }
}

/// Resolves renderer display ids to window-manager monitor ids, with a
/// five-minute cache.
pub struct MonitorMapper {
    /// The cached mapping, if one was built.
    pub cache: Option<CacheEntry>,
    /// The cache time-to-live in milliseconds.
    pub cache_ttl_ms: u64,
}

impl MonitorMapper {
    /// A mapper with an empty cache and the default five-minute TTL.
    pub fn new() -> (r: Self)
        ensures
            r.cache is None,
            r.cache_ttl_ms == 300_000,
    {
        MonitorMapper { cache: None, cache_ttl_ms: 300_000 }
    }

    /// Joins the three partial mappings: OS display id to display name,
    /// renderer display id to OS display id, and monitor id to display
    /// name.
    pub fn build_mappings(
        &self,
        nsscreen_map: &Vec<(u32, String)>,
        sketchybar_map: &Vec<(u32, u32)>,
        aerospace_map: &Vec<(u32, String)>,
    ) -> (r: Vec<(u32, u32)>)
        ensures
            r@ == join_spec(pairs_view(nsscreen_map@), sketchybar_map@, pairs_view(aerospace_map@)),
    {
        let ghost ns = pairs_view(nsscreen_map@);
        let ghost aero = pairs_view(aerospace_map@);
        let mut out: Vec<(u32, u32)> = Vec::new();
        let n = sketchybar_map.len();
        let mut i: usize = 0;
        proof {
            assert(sketchybar_map@.take(0) =~= Seq::<(u32, u32)>::empty());
        }
        while i < n
            invariant
                n == sketchybar_map@.len(),
                i <= n,
                ns == pairs_view(nsscreen_map@),
                aero == pairs_view(aerospace_map@),
                out@ == join_spec(ns, sketchybar_map@.take(i as int), aero),
            decreases n - i,
        {
            proof {
                assert(sketchybar_map@.take(i + 1).drop_last() =~= sketchybar_map@.take(
                    i as int,
                ));
                assert(sketchybar_map@.take(i + 1).last() == sketchybar_map@[i as int]);
            }
            let (sb_id, ns_id) = sketchybar_map[i];
            let aero_id = match lookup_name_exec(nsscreen_map, ns_id) {
                Some(name) => match find_monitor_exec(aerospace_map, name) {
                    Some(a) => a,
                    None => DEFAULT_MONITOR_ID,
                },
                None => DEFAULT_MONITOR_ID,
            };
            out.push((sb_id, aero_id));
            proof {
                assert(out@ =~= join_spec(ns, sketchybar_map@.take(i + 1), aero));
            }
            i += 1;
        }
        proof {
            assert(sketchybar_map@.take(n as int) =~= sketchybar_map@);
        }
        out
    }

    /// The cached mapping while it is still fresh at `now_ms`, so the
    /// three queries need not run at all.
    pub fn cached_mappings(&self, now_ms: u64) -> (r: Option<Vec<(u32, u32)>>)
        ensures
            match r {
                Some(m) => cache_fresh(self.cache, self.cache_ttl_ms, now_ms) && m@
                    == self.cache.unwrap().mappings@,
                None => !cache_fresh(self.cache, self.cache_ttl_ms, now_ms),
            },
    {
        if let Some(e) = &self.cache {
            if !e.is_expired(self.cache_ttl_ms, now_ms) {
                return Some(copy_pairs(&e.mappings));
            }
        }
        None
    }

    /// The mapping of renderer display id to monitor id: the cached one
    /// while it is fresh, else the mapping joined from the three partial
    /// maps, which is then cached with `now_ms`.
    pub fn get_mappings(
        &mut self,
        now_ms: u64,
        nsscreen_map: &Vec<(u32, String)>,
        sketchybar_map: &Vec<(u32, u32)>,
        aerospace_map: &Vec<(u32, String)>,
    ) -> (r: Vec<(u32, u32)>)
        ensures
            cache_fresh(old(self).cache, old(self).cache_ttl_ms, now_ms) ==> ({
                &&& r@ == old(self).cache.unwrap().mappings@
                &&& *final(self) == *old(self)
            }),
            !cache_fresh(old(self).cache, old(self).cache_ttl_ms, now_ms) ==> ({
                &&& r@ == join_spec(
                    pairs_view(nsscreen_map@),
                    sketchybar_map@,
                    pairs_view(aerospace_map@),
                )
                &&& final(self).cache is Some
                &&& final(self).cache.unwrap().mappings@ == r@
                &&& final(self).cache.unwrap().created_at_ms == now_ms
                &&& final(self).cache_ttl_ms == old(self).cache_ttl_ms
            }),
    {
        let fresh = match &self.cache {
            Some(e) => !e.is_expired(self.cache_ttl_ms, now_ms),
            None => false,
        };
        if fresh {
            if let Some(e) = &self.cache {
                return copy_pairs(&e.mappings);
            }
        }
        let mappings = self.build_mappings(nsscreen_map, sketchybar_map, aerospace_map);
        let kept = copy_pairs(&mappings);
        self.cache = Some(CacheEntry { mappings, created_at_ms: now_ms });
        kept
    }

    /// Extracts a number value for `key` from one line of JSON text.
    pub fn extract_json_number(&self, json: &str, key: &str) -> (r: Option<u32>)
        ensures
            r == extract_num_spec(json@, key@),
    {
        extract_num(json, key)
    }

    /// Drops the cached mapping, forcing a rebuild on the next lookup
    /// (used when monitors are added or removed).
    pub fn invalidate_cache(&mut self)
        ensures
            final(self).cache is None,
            final(self).cache_ttl_ms == old(self).cache_ttl_ms,
    {
        self.cache = None;
    }
}

impl Default for MonitorMapper {
    /// The same mapper `new` builds.
    fn default() -> (r: Self)
        ensures
            r.cache is None,
            r.cache_ttl_ms == 300_000,
    {
        MonitorMapper::new()
    }
}

// ------------------------------------------------------------------
// Parsing the three query outputs
// ------------------------------------------------------------------

/// How many leading whitespace characters `s` has.
pub open spec fn ws_count(s: Seq<char>) -> int
    decreases s.len(),
{
    if s.len() > 0 && text::is_ws(s[0]) {
        1 + ws_count(s.drop_first())
    } else {
        0
    }
}

/// How many leading digits `s` has.
pub open spec fn digit_count(s: Seq<char>) -> int
    decreases s.len(),
{
    if s.len() > 0 && text::is_digit(s[0]) {
        1 + digit_count(s.drop_first())
    } else {
        0
    }
}

/// The characters `"key":` that announce a value in the renderer's
/// display query.
pub open spec fn json_key_pat(key: Seq<char>) -> Seq<char> {
    seq!['"'] + key + seq!['"', ':']
}

/// What extracting a number for `key` from a line yields: after the
/// first occurrence of `"key":`, skip whitespace, take the digits, and
/// parse them.
pub open spec fn extract_num_spec(line: Seq<char>, key: Seq<char>) -> Option<u32> {
    match text::first_match(line, json_key_pat(key)) {
        None => None,
        Some(i) => {
            let after = line.skip(i + json_key_pat(key).len());
            let digits_start = after.skip(ws_count(after));
            let digits = digits_start.take(digit_count(digits_start));
            match text::parse_uint_spec(digits, u32::MAX as int) {
                Some(v) => Some(v as u32),
                None => None,
            }
        },
    }
}

/// Extracts the number following `"key":` in `s`.
#[verifier::loop_isolation(false)]
fn extract_num(s: &str, key: &str) -> (r: Option<u32>)
    ensures
        r == extract_num_spec(s@, key@),
{
    let mut pat = String::from_str("\"");
    pat.append(key);
    pat.append("\":");
    proof {
        reveal_strlit("\"");
        reveal_strlit("\":");
        assert("\""@ =~= seq!['"']);
        assert("\":"@ =~= seq!['"', ':']);
        assert(pat@ =~= json_key_pat(key@));
    }
    let n = s.unicode_len();
    match text::find_str(s, pat.as_str()) {
        None => None,
        Some(i) => {
            proof {
                text::lemma_first_match_inv(s@, pat@);
            }
            let start = i + pat.unicode_len();
            let ghost after = s@.skip(start as int);
            let mut j = start;
            while j < n && text::ws_char(s.get_char(j))
                invariant
                    start <= j <= n,
                    ws_count(after) == (j - start) + ws_count(s@.skip(j as int)),
                decreases n - j,
            {
                proof {
                    assert(s@.skip(j as int)[0] == s@[j as int]);
                    assert(s@.skip(j as int).drop_first() =~= s@.skip(j + 1));
                }
                j += 1;
            }
            proof {
                if j < n {
                    assert(ws_count(s@.skip(j as int)) == 0);
                } else {
                    assert(s@.skip(j as int).len() == 0);
                }
                assert(ws_count(after) == j - start);
            }
            let dstart = j;
            let ghost digits_start = s@.skip(dstart as int);
            while j < n && text::digit_char_test(s.get_char(j))
                invariant
                    dstart <= j <= n,
                    digit_count(digits_start) == (j - dstart) + digit_count(s@.skip(j as int)),
                decreases n - j,
            {
                proof {
                    assert(s@.skip(j as int)[0] == s@[j as int]);
                    assert(s@.skip(j as int).drop_first() =~= s@.skip(j + 1));
                }
                j += 1;
            }
            proof {
                if j < n {
                    assert(digit_count(s@.skip(j as int)) == 0);
                } else {
                    assert(s@.skip(j as int).len() == 0);
                }
                assert(digit_count(digits_start) == j - dstart);
                assert(after.skip(ws_count(after)) =~= digits_start);
                assert(digits_start.take(digit_count(digits_start)) =~= s@.subrange(
                    dstart as int,
                    j as int,
                ));
            }
            text::parse_u32_range(s, dstart, j)
        },
    }
}

/// One delimited line: `id|name` binds the name under the id; anything
/// else changes nothing.
pub open spec fn delim_step(line: Seq<char>, m: Seq<(u32, Seq<char>)>) -> Seq<
    (u32, Seq<char>),
> {
    match text::find_char(line, '|') {
        None => m,
        Some(p) => match text::parse_uint_spec(line.take(p), u32::MAX as int) {
            Some(v) => insert_name(m, v as u32, line.skip(p + 1)),
            None => m,
        },
    }
}

/// Folds the lines of a delimited listing, first line first.
pub open spec fn delim_fold(s: Seq<char>, m: Seq<(u32, Seq<char>)>) -> Seq<(u32, Seq<char>)>
    decreases s.len(),
    via delim_fold_decreases
{
    match text::find_char(s, '\n') {
        None => delim_step(text::strip_cr(s), m),
        Some(i) => delim_fold(s.skip(i + 1), delim_step(text::strip_cr(s.take(i)), m)),
    }
}

#[via_fn]
proof fn delim_fold_decreases(s: Seq<char>, m: Seq<(u32, Seq<char>)>) {
    text::lemma_find_char_inv(s, '\n');
}

/// What parsing a `id|name` listing yields, line by line.
pub open spec fn delimited_map_spec(s: Seq<char>) -> Seq<(u32, Seq<char>)> {
    delim_fold(s, Seq::<(u32, Seq<char>)>::empty())
}

/// Inserting at a key's first position replaces it in place.
proof fn lemma_insert_name_found(m: Seq<(u32, Seq<char>)>, k: u32, v: Seq<char>, idx: int)
    requires
        0 <= idx < m.len(),
        m[idx].0 == k,
        forall|j: int| 0 <= j < idx ==> m[j].0 != k,
    ensures
        insert_name(m, k, v) =~= m.update(idx, (k, v)),
    decreases m.len(),
{
    if idx > 0 {
        lemma_insert_name_found(m.drop_first(), k, v, idx - 1);
        assert(m.drop_first().update(idx - 1, (k, v)) =~= m.update(idx, (k, v)).drop_first());
    }
}

/// Inserting a fresh key appends it.
proof fn lemma_insert_name_absent(m: Seq<(u32, Seq<char>)>, k: u32, v: Seq<char>)
    requires
        forall|j: int| 0 <= j < m.len() ==> m[j].0 != k,
    ensures
        insert_name(m, k, v) =~= m.push((k, v)),
    decreases m.len(),
{
    if m.len() > 0 {
        lemma_insert_name_absent(m.drop_first(), k, v);
        assert(m.drop_first().push((k, v)) =~= m.push((k, v)).drop_first());
        assert(insert_name(m, k, v) =~= seq![m[0]] + insert_name(m.drop_first(), k, v));
    }
}

/// Binds `k` to `v` in the association list.
fn insert_name_exec(out: &mut Vec<(u32, String)>, k: u32, v: String)
    ensures
        pairs_view(final(out)@) == insert_name(pairs_view(old(out)@), k, v@),
{
    let ghost mv = pairs_view(out@);
    let n = out.len();
    let mut i: usize = 0;
    while i < n
        invariant
            n == out@.len(),
            out@ == old(out)@,
            mv == pairs_view(out@),
            i <= n,
            forall|j: int| 0 <= j < i ==> mv[j].0 != k,
        decreases n - i,
    {
        if out[i].0 == k {
            proof {
                assert(mv[i as int].0 == k);
                lemma_insert_name_found(mv, k, v@, i as int);
            }
            let _replaced = out.remove(i);
            out.insert(i, (k, v));
            proof {
                assert(pairs_view(out@) =~= mv.update(i as int, (k, v@)));
            }
            return ;
        }
        i += 1;
    }
    proof {
        assert forall|j: int| 0 <= j < mv.len() implies mv[j].0 != k by {}
        lemma_insert_name_absent(mv, k, v@);
    }
    out.push((k, v));
    proof {
        assert(pairs_view(out@) =~= mv.push((k, v@)));
    }
}

/// Parses a `id|name` listing, one pair per line, as the OS screen
/// enumeration and the window manager's monitor listing print it.
#[verifier::loop_isolation(false)]
pub fn parse_delimited_map(text: &str) -> (r: Vec<(u32, String)>)
    ensures
        pairs_view(r@) == delimited_map_spec(text@),
{
    let n = text.unicode_len();
    let mut out: Vec<(u32, String)> = Vec::new();
    let mut pos: usize = 0;
    proof {
        assert(text@.skip(0) =~= text@);
        assert(pairs_view(out@) =~= Seq::<(u32, Seq<char>)>::empty());
    }
    loop
        invariant
            pos <= n == text@.len(),
            delimited_map_spec(text@) == delim_fold(text@.skip(pos as int), pairs_view(out@)),
        decreases n - pos + 1,
    {
        let ghost rem = text@.skip(pos as int);
        match text::find_in_range(text, pos, n, '\n') {
            Some(i) => {
                proof {
                    assert(text@.subrange(pos as int, n as int) =~= rem);
                    assert(rem.take(i - pos) =~= text@.subrange(pos as int, i as int));
                    assert(rem.skip(i - pos + 1) =~= text@.skip(i + 1));
                }
                delim_line(text, pos, i, &mut out);
                pos = i + 1;
            },
            None => {
                proof {
                    assert(text@.subrange(pos as int, n as int) =~= rem);
                    text::lemma_find_char_inv(rem, '\n');
                }
                delim_line(text, pos, n, &mut out);
                return out;
            },
        }
    }
}

/// Applies one delimited line `text[a..b]` to the accumulated map.
#[verifier::loop_isolation(false)]
fn delim_line(text: &str, a: usize, b: usize, out: &mut Vec<(u32, String)>)
    requires
        a <= b <= text@.len(),
    ensures
        pairs_view(final(out)@) == delim_step(
            text::strip_cr(text@.subrange(a as int, b as int)),
            pairs_view(old(out)@),
        ),
{
    let ghost line0 = text@.subrange(a as int, b as int);
    let mut b2 = b;
    if b > a && text.get_char(b - 1) == '\r' {
        b2 = b - 1;
    }
    let ghost line = text::strip_cr(line0);
    proof {
        assert(line =~= text@.subrange(a as int, b2 as int));
    }
    match text::find_in_range(text, a, b2, '|') {
        None => {},
        Some(p) => {
            proof {
                assert(text@.subrange(a as int, b2 as int) =~= line);
                assert(line.take(p - a) =~= text@.subrange(a as int, p as int));
                assert(line.skip(p - a + 1) =~= text@.subrange(p + 1, b2 as int));
            }
            match text::parse_u32_range(text, a, p) {
                Some(v) => {
                    let name = text.substring_char(p + 1, b2).to_owned();
                    insert_name_exec(out, v, name);
                },
                None => {},
            }
        },
    }
}

/// The scanning state of the display query: the pending arrangement id,
/// the pending display id, and the pairs collected so far.
pub struct DisplayScan {
    /// The arrangement id seen in the current object, if any.
    pub arr: Option<u32>,
    /// The display id seen in the current object, if any.
    pub disp: Option<u32>,
    /// The pairs collected so far.
    pub pairs: Seq<(u32, u32)>,
}

/// One line of the renderer's display query: an opening brace resets the
/// pending ids, `"arrangement-id":` and `"DirectDisplayID":` set them,
/// and a closing brace with both at hand records the pair.
pub open spec fn dq_step(line: Seq<char>, st: DisplayScan) -> DisplayScan {
    let t = text::trimmed(line);
    let opens = t.len() > 0 && t[0] == '{';
    let a0 = if opens {
        None
    } else {
        st.arr
    };
    let d0 = if opens {
        None
    } else {
        st.disp
    };
    let a1 = match extract_num_spec(line, "arrangement-id"@) {
        Some(v) => Some(v),
        None => a0,
    };
    let d1 = match extract_num_spec(line, "DirectDisplayID"@) {
        Some(v) => Some(v),
        None => d0,
    };
    let closes = t.len() > 0 && (t.last() == '}' || (t.len() >= 2 && t[t.len() - 2] == '}'
        && t.last() == ','));
    if closes {
        match (a1, d1) {
            (Some(a), Some(d)) => DisplayScan { arr: a1, disp: d1, pairs: insert_id(st.pairs, a, d) },
            _ => DisplayScan { arr: a1, disp: d1, pairs: st.pairs },
        }
    } else {
        DisplayScan { arr: a1, disp: d1, pairs: st.pairs }
    }
}

/// Folds the lines of the display query, first line first.
pub open spec fn dq_fold(s: Seq<char>, st: DisplayScan) -> DisplayScan
    decreases s.len(),
    via dq_fold_decreases
{
    match text::find_char(s, '\n') {
        None => dq_step(text::strip_cr(s), st),
        Some(i) => dq_fold(s.skip(i + 1), dq_step(text::strip_cr(s.take(i)), st)),
    }
}

#[via_fn]
proof fn dq_fold_decreases(s: Seq<char>, st: DisplayScan) {
    text::lemma_find_char_inv(s, '\n');
}

/// What parsing the renderer's display query yields: the pairs of
/// arrangement id and OS display id, one per object.
pub open spec fn display_query_spec(s: Seq<char>) -> Seq<(u32, u32)> {
    dq_fold(
        s,
        DisplayScan { arr: None, disp: None, pairs: Seq::<(u32, u32)>::empty() },
    ).pairs
}

/// Inserting at a key's first position replaces it in place.
proof fn lemma_insert_id_found(m: Seq<(u32, u32)>, k: u32, v: u32, idx: int)
    requires
        0 <= idx < m.len(),
        m[idx].0 == k,
        forall|j: int| 0 <= j < idx ==> m[j].0 != k,
    ensures
        insert_id(m, k, v) =~= m.update(idx, (k, v)),
    decreases m.len(),
{
    if idx > 0 {
        lemma_insert_id_found(m.drop_first(), k, v, idx - 1);
        assert(m.drop_first().update(idx - 1, (k, v)) =~= m.update(idx, (k, v)).drop_first());
    }
}

/// Inserting a fresh key appends it.
proof fn lemma_insert_id_absent(m: Seq<(u32, u32)>, k: u32, v: u32)
    requires
        forall|j: int| 0 <= j < m.len() ==> m[j].0 != k,
    ensures
        insert_id(m, k, v) =~= m.push((k, v)),
    decreases m.len(),
{
    if m.len() > 0 {
        lemma_insert_id_absent(m.drop_first(), k, v);
        assert(m.drop_first().push((k, v)) =~= m.push((k, v)).drop_first());
    }
}

/// Binds `k` to `v` in the id-pair list.
fn insert_id_exec(out: &mut Vec<(u32, u32)>, k: u32, v: u32)
    ensures
        final(out)@ == insert_id(old(out)@, k, v),
{
    let n = out.len();
    let mut i: usize = 0;
    while i < n
        invariant
            n == out@.len(),
            out@ == old(out)@,
            i <= n,
            forall|j: int| 0 <= j < i ==> out@[j].0 != k,
        decreases n - i,
    {
        if out[i].0 == k {
            proof {
                lemma_insert_id_found(out@, k, v, i as int);
            }
            let _replaced = out.remove(i);
            out.insert(i, (k, v));
            proof {
                assert(out@ =~= old(out)@.update(i as int, (k, v)));
            }
            return ;
        }
        i += 1;
    }
    proof {
        lemma_insert_id_absent(out@, k, v);
    }
    out.push((k, v));
}

/// Parses the renderer's display query: a JSON array of objects scanned
/// line by line for `"arrangement-id"` and `"DirectDisplayID"` pairs.
#[verifier::loop_isolation(false)]
pub fn parse_display_query(text: &str) -> (r: Vec<(u32, u32)>)
    ensures
        r@ == display_query_spec(text@),
{
    let n = text.unicode_len();
    let mut arr: Option<u32> = None;
    let mut disp: Option<u32> = None;
    let mut out: Vec<(u32, u32)> = Vec::new();
    let mut pos: usize = 0;
    proof {
        assert(text@.skip(0) =~= text@);
    }
    loop
        invariant
            pos <= n == text@.len(),
            dq_fold(
                text@,
                DisplayScan { arr: None, disp: None, pairs: Seq::<(u32, u32)>::empty() },
            ) == dq_fold(
                text@.skip(pos as int),
                DisplayScan { arr, disp, pairs: out@ },
            ),
        decreases n - pos + 1,
    {
        let ghost rem = text@.skip(pos as int);
        match text::find_in_range(text, pos, n, '\n') {
            Some(i) => {
                proof {
                    assert(text@.subrange(pos as int, n as int) =~= rem);
                    assert(rem.take(i - pos) =~= text@.subrange(pos as int, i as int));
                    assert(rem.skip(i - pos + 1) =~= text@.skip(i + 1));
                }
                let st = dq_line(text, pos, i, arr, disp, &mut out);
                arr = st.0;
                disp = st.1;
                pos = i + 1;
            },
            None => {
                proof {
                    assert(text@.subrange(pos as int, n as int) =~= rem);
                    text::lemma_find_char_inv(rem, '\n');
                }
                let _last = dq_line(text, pos, n, arr, disp, &mut out);
                return out;
            },
        }
    }
}

/// Applies one line `text[a..b]` of the display query to the scan.
#[verifier::loop_isolation(false)]
fn dq_line(
    text: &str,
    a: usize,
    b: usize,
    arr: Option<u32>,
    disp: Option<u32>,
    out: &mut Vec<(u32, u32)>,
) -> (r: (Option<u32>, Option<u32>))
    requires
        a <= b <= text@.len(),
    ensures
        ({
            let st2 = dq_step(
                text::strip_cr(text@.subrange(a as int, b as int)),
                DisplayScan { arr, disp, pairs: old(out)@ },
            );
            &&& r.0 == st2.arr
            &&& r.1 == st2.disp
            &&& final(out)@ == st2.pairs
        }),
{
    let ghost line0 = text@.subrange(a as int, b as int);
    let mut b2 = b;
    if b > a && text.get_char(b - 1) == '\r' {
        b2 = b - 1;
    }
    let ghost line = text::strip_cr(line0);
    proof {
        assert(line =~= text@.subrange(a as int, b2 as int));
    }
    let line_str = text.substring_char(a, b2);
    let t = text::trim_range(text, a, b2);
    let tn = t.unicode_len();
    let opens = tn > 0 && t.get_char(0) == '{';
    let mut a1 = if opens {
        None
    } else {
        arr
    };
    let mut d1 = if opens {
        None
    } else {
        disp
    };
    if let Some(v) = extract_num(line_str, "arrangement-id") {
        a1 = Some(v);
    }
    if let Some(v) = extract_num(line_str, "DirectDisplayID") {
        d1 = Some(v);
    }
    let closes = tn > 0 && (t.get_char(tn - 1) == '}' || (tn >= 2 && t.get_char(tn - 2) == '}'
        && t.get_char(tn - 1) == ','));
    if closes {
        if let (Some(av), Some(dv)) = (a1, d1) {
            insert_id_exec(out, av, dv);
        }
    }
    (a1, d1)
}

/// An exact copy of an id-pair list.
fn copy_pairs(v: &Vec<(u32, u32)>) -> (r: Vec<(u32, u32)>)
    ensures
        r@ == v@,
{
    let mut out: Vec<(u32, u32)> = Vec::new();
    let n = v.len();
    let mut i: usize = 0;
    while i < n
        invariant
            n == v@.len(),
            i <= n,
            out@ == v@.take(i as int),
        decreases n - i,
    {
        out.push(v[i]);
        proof {
            assert(out@ =~= v@.take(i + 1));
        }
        i += 1;
    }
    proof {
        assert(v@.take(n as int) =~= v@);
    }
    out
}

} // verus!
