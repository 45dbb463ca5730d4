//! The OS-sensor value records (battery, volume, package-manager
//! outdated count, chat notifications) with their icon and color
//! lookups, and the parsers for the textual output the sensor queries
//! return.  Running the queries is process I/O and stays outside the
//! library.

use vstd::prelude::*;
use vstd::string::StrSliceExecFns;

use crate::text;

verus! {

// ------------------------------------------------------------------
// Battery
// ------------------------------------------------------------------

/// Battery level and charging state.
pub struct BatteryInfo {
    /// Charge percentage.
    pub percentage: u8,
    /// Whether the battery is charging.
    pub is_charging: bool,
}

/// The battery icon: a bolt while charging, else a gauge by level.
pub open spec fn battery_icon_spec(percentage: u8, is_charging: bool) -> Seq<char> {
    if is_charging {
        "\u{f0e7}"@
    } else if percentage >= 90 {
        "\u{f12a3}"@
    } else if percentage >= 40 {
        "\u{f12a4}"@
    } else if percentage >= 10 {
        "\u{f12a5}"@
    } else {
        "\u{f008e}"@
    }
}

/// The battery color: amber while charging, red when critically low,
/// white otherwise.
pub open spec fn battery_color_spec(percentage: u8, is_charging: bool) -> Seq<char> {
    if is_charging {
        "0xfffabd2f"@
    } else if percentage <= 10 {
        "0xfffb4934"@
    } else {
        "0xffffffff"@
    }
}

impl BatteryInfo {
    /// The icon for the battery state.
    pub fn icon(&self) -> (r: &'static str)
        ensures
            r@ == battery_icon_spec(self.percentage, self.is_charging),
    {
        if self.is_charging {
            "\u{f0e7}"
        } else if self.percentage >= 90 {
            "\u{f12a3}"
        } else if self.percentage >= 40 {
            "\u{f12a4}"
        } else if self.percentage >= 10 {
            "\u{f12a5}"
        } else {
            "\u{f008e}"
        }
    }

    /// The icon color for the charging state and level.
    pub fn icon_color(&self) -> (r: &'static str)
        ensures
            r@ == battery_color_spec(self.percentage, self.is_charging),
    {
        if self.is_charging {
            "0xfffabd2f"
        } else if self.percentage <= 10 {
            "0xfffb4934"
        } else {
            "0xffffffff"
        }
    }

    /// The label color, the same as the icon color.
    pub fn label_color(&self) -> (r: &'static str)
        ensures
            r@ == battery_color_spec(self.percentage, self.is_charging),
    {
        self.icon_color()
    }
}

/// The start of the whitespace-free run that ends at `p`.
pub open spec fn token_start(s: Seq<char>, p: int) -> int
    decreases p,
{
    if p <= 0 {
        0
    } else if text::is_ws(s[p - 1]) {
        p
    } else {
        token_start(s, p - 1)
    }
}

/// What parsing the power query output yields: the first token holding
/// a `%` carries the percentage right before it; the charging state
/// comes from the reported power source, or from an `AC Power` marker
/// in the output.
pub open spec fn battery_spec(out: Seq<char>, power_source: Option<Seq<char>>) -> Option<
    BatteryInfo,
> {
    match text::find_char(out, '%') {
        None => None,
        Some(p) => {
            let t = token_start(out, p);
            match text::parse_uint_spec(out.subrange(t, p), 255) {
                None => None,
                Some(v) => Some(
                    BatteryInfo {
                        percentage: v as u8,
                        is_charging: match power_source {
                            Some(src) => src == "AC"@,
                            None => text::first_match(out, "AC Power"@) is Some,
                        },
                    },
                ),
            }
        },
    }
}

/// Parses the power query output; `power_source` is the label a
/// power-source-changed event carried, if one did.
#[verifier::loop_isolation(false)]
pub fn parse_battery(out: &str, power_source: &Option<String>) -> (r: Option<BatteryInfo>)
    ensures
        r == battery_spec(out@, match *power_source {
            Some(s) => Some(s@),
            None => None,
        }),
{
    let n = out.unicode_len();
    let p = match text::find_in_range(out, 0, n, '%') {
        Some(p) => p,
        None => {
            proof {
                assert(out@.subrange(0, n as int) =~= out@);
            }
            return None;
        },
    };
    proof {
        assert(out@.subrange(0, n as int) =~= out@);
    }
    let mut t = p;
    while t > 0 && !text::ws_char(out.get_char(t - 1))
        invariant
            0 <= t <= p,
            token_start(out@, p as int) == token_start(out@, t as int),
        decreases t,
    {
        t -= 1;
    }
    proof {
        assert(token_start(out@, p as int) == t);
    }
    let percentage = match text::parse_u8_range(out, t, p) {
        Some(v) => v,
        None => {
            return None;
        },
    };
    let is_charging = match power_source {
        Some(src) => text::str_eq(src.as_str(), "AC"),
        None => text::find_str(out, "AC Power").is_some(),
    };
    Some(BatteryInfo { percentage, is_charging })
}

// ------------------------------------------------------------------
// Volume
// ------------------------------------------------------------------

/// Output volume and mute state.
pub struct VolumeInfo {
    /// Volume percentage.
    pub percentage: u8,
    /// Whether output is muted.
    pub muted: bool,
}

/// The volume icon: muted, silent, or a gauge by level.
pub open spec fn volume_icon_spec(percentage: u8, muted: bool) -> Seq<char> {
    if muted {
        "\u{f0581}"@
    } else if percentage == 0 {
        "\u{f244}"@
    } else if percentage >= 60 {
        "\u{f240}"@
    } else if percentage >= 30 {
        "\u{f242}"@
    } else {
        "\u{f243}"@
    }
}

impl VolumeInfo {
    /// The icon for the volume level.
    pub fn icon(&self) -> (r: &'static str)
        ensures
            r@ == volume_icon_spec(self.percentage, self.muted),
    {
        if self.muted {
            "\u{f0581}"
        } else if self.percentage == 0 {
            "\u{f244}"
        } else if self.percentage >= 60 {
            "\u{f240}"
        } else if self.percentage >= 30 {
            "\u{f242}"
        } else {
            "\u{f243}"
        }
    }
}

/// Lower-cases one ASCII letter.
pub open spec fn ascii_lower(c: char) -> int {
    if 65 <= c as int <= 90 {
        c as int + 32
    } else {
        c as int
    }
}

/// Case-insensitive ASCII equality with the word `true`.
pub open spec fn is_true_ci(s: Seq<char>) -> bool {
    s.len() == 4 && ascii_lower(s[0]) == 't' as int && ascii_lower(s[1]) == 'r' as int
        && ascii_lower(s[2]) == 'u' as int && ascii_lower(s[3]) == 'e' as int
}

/// What parsing the two volume queries yields: the trimmed percentage,
/// and the mute state compared case-insensitively with `true`.
pub open spec fn volume_spec(vol_out: Seq<char>, mute_out: Seq<char>) -> Option<VolumeInfo> {
    match text::parse_uint_spec(text::trimmed(vol_out), 255) {
        None => None,
        Some(v) => Some(
            VolumeInfo { percentage: v as u8, muted: is_true_ci(text::trimmed(mute_out)) },
        ),
    }
}

/// Parses the volume and mute query outputs.
pub fn parse_volume(vol_out: &str, mute_out: &str) -> (r: Option<VolumeInfo>)
    ensures
        r == volume_spec(vol_out@, mute_out@),
{
    let vn = vol_out.unicode_len();
    let vt = text::trim_range(vol_out, 0, vn);
    proof {
        assert(vol_out@.subrange(0, vn as int) =~= vol_out@);
    }
    let tn = vt.unicode_len();
    let percentage = match text::parse_u8_range(vt, 0, tn) {
        Some(v) => v,
        None => {
            proof {
                assert(vt@.subrange(0, tn as int) =~= vt@);
            }
            return None;
        },
    };
    proof {
        assert(vt@.subrange(0, tn as int) =~= vt@);
    }
    let mn = mute_out.unicode_len();
    let mt = text::trim_range(mute_out, 0, mn);
    proof {
        assert(mute_out@.subrange(0, mn as int) =~= mute_out@);
    }
    let muted = if mt.unicode_len() == 4 {
        lower_is(mt, 0, 't') && lower_is(mt, 1, 'r') && lower_is(mt, 2, 'u') && lower_is(
            mt,
            3,
            'e',
        )
    } else {
        false
    };
    Some(VolumeInfo { percentage, muted })
}

/// Whether the character at `i`, lower-cased, is `c`.
fn lower_is(s: &str, i: usize, c: char) -> (r: bool)
    requires
        i < s@.len(),
    ensures
        r == (ascii_lower(s@[i as int]) == c as int),
{
    let u = s.get_char(i) as u32;
    let l = if 65 <= u && u <= 90 {
        u + 32
    } else {
        u
    };
    l == c as u32
}

// ------------------------------------------------------------------
// Package manager
// ------------------------------------------------------------------

/// Counts of outdated packages.
pub struct BrewInfo {
    /// Outdated formulae.
    pub formulae: usize,
    /// Outdated casks.
    pub casks: usize,
}

impl BrewInfo {
    /// The total count of outdated packages.
    pub fn total(&self) -> (r: usize)
        requires
            self.formulae + self.casks <= usize::MAX,
        ensures
            r == self.formulae + self.casks,
    {
        self.formulae + self.casks
    }

    /// The package-manager icon.
    pub fn icon(&self) -> (r: &'static str)
        ensures
            r@ == "\u{f487}"@,
    {
        "\u{f487}"
    }
}

/// One line counts when anything is left after stripping its carriage
/// return.
pub open spec fn line_count_step(line: Seq<char>) -> int {
    if text::strip_cr(line).len() > 0 {
        1
    } else {
        0
    }
}

/// The count of nonempty lines of `s`.
pub open spec fn nonempty_lines(s: Seq<char>) -> int
    decreases s.len(),
    via nonempty_lines_decreases
{
    match text::find_char(s, '\n') {
        None => line_count_step(s),
        Some(i) => line_count_step(s.take(i)) + nonempty_lines(s.skip(i + 1)),
    }
}

#[via_fn]
proof fn nonempty_lines_decreases(s: Seq<char>) {
    text::lemma_find_char_inv(s, '\n');
}

/// Counts the nonempty lines of a package listing: one outdated package
/// per line.
#[verifier::loop_isolation(false)]
pub fn count_outdated(out: &str) -> (r: usize)
    ensures
        r == nonempty_lines(out@),
{
    let n = out.unicode_len();
    let mut count: usize = 0;
    let mut pos: usize = 0;
    proof {
        assert(out@.skip(0) =~= out@);
    }
    loop
        invariant
            pos <= n == out@.len(),
            count <= pos,
            nonempty_lines(out@) == count + nonempty_lines(out@.skip(pos as int)),
        decreases n - pos + 1,
    {
        let ghost rem = out@.skip(pos as int);
        match text::find_in_range(out, pos, n, '\n') {
            Some(i) => {
                proof {
                    assert(out@.subrange(pos as int, n as int) =~= rem);
                    assert(rem.take(i - pos) =~= out@.subrange(pos as int, i as int));
                    assert(rem.skip(i - pos + 1) =~= out@.skip(i + 1));
                }
                if line_nonempty(out, pos, i) {
                    count += 1;
                }
                pos = i + 1;
            },
            None => {
                proof {
                    assert(out@.subrange(pos as int, n as int) =~= rem);
                    text::lemma_find_char_inv(rem, '\n');
                    assert(nonempty_lines(rem) == line_count_step(rem));
                }
                if line_nonempty(out, pos, n) {
                    count += 1;
                }
                return count;
            },
        }
    }
}

/// Whether the line `out[a..b]` is nonempty after stripping its
/// carriage return.
fn line_nonempty(out: &str, a: usize, b: usize) -> (r: bool)
    requires
        a <= b <= out@.len(),
    ensures
        r == (line_count_step(out@.subrange(a as int, b as int)) == 1),
{
    let ghost line = out@.subrange(a as int, b as int);
    if b == a {
        return false;
    }
    if b == a + 1 && out.get_char(a) == '\r' {
        proof {
            assert(text::strip_cr(line) =~= line.drop_last());
        }
        return false;
    }
    true
}

// ------------------------------------------------------------------
// Chat notifications
// ------------------------------------------------------------------

/// Chat application state.
pub struct TeamsInfo {
    /// Whether the chat application is running.
    pub running: bool,
    /// The badge notification count.
    pub notification_count: u32,
}

impl TeamsInfo {
    /// The chat icon.
    pub fn icon(&self) -> (r: &'static str)
        ensures
            r@ == "\u{f02bb}"@,
    {
        "\u{f02bb}"
    }

    /// The icon color: dimmed when not running, amber with
    /// notifications, white otherwise.
    pub fn icon_color(&self) -> (r: &'static str)
        ensures
            !self.running ==> r@ == "0xff3c3836"@,
            self.running && self.notification_count > 0 ==> r@ == "0xfffabd2f"@,
            self.running && self.notification_count == 0 ==> r@ == "0xffffffff"@,
    {
        if !self.running {
            "0xff3c3836"
        } else if self.notification_count > 0 {
            "0xfffabd2f"
        } else {
            "0xffffffff"
        }
    }

    /// The border color: amber with notifications, default otherwise.
    pub fn border_color(&self) -> (r: &'static str)
        ensures
            self.notification_count > 0 ==> r@ == "0xfffabd2f"@,
            self.notification_count == 0 ==> r@ == "0xff2a2c3a"@,
    {
        if self.notification_count > 0 {
            "0xfffabd2f"
        } else {
            "0xff2a2c3a"
        }
    }
}

/// The digits of `s`, in order, everything else dropped.
pub open spec fn digit_filter(s: Seq<char>) -> Seq<char>
    decreases s.len(),
{
    if s.len() == 0 {
        Seq::<char>::empty()
    } else {
        digit_filter(s.drop_last()) + if text::is_digit(s.last()) {
            seq![s.last()]
        } else {
            Seq::<char>::empty()
        }
    }
}

/// The filtered digits are all digits.
proof fn lemma_digit_filter_all(s: Seq<char>)
    ensures
        text::all_digits(digit_filter(s)),
    decreases s.len(),
{
    if s.len() > 0 {
        lemma_digit_filter_all(s.drop_last());
    }
}

/// What the badge value parses to: the digits of the output read as a
/// number, or zero when there are none or they overflow.
pub open spec fn badge_count_spec(s: Seq<char>) -> u32 {
    match text::parse_uint_spec(digit_filter(s), u32::MAX as int) {
        Some(v) => v as u32,
        None => 0,
    }
}

/// Reads the badge value of the chat application's dock tile: only its
/// digits count, anything else comes out as zero.
#[verifier::loop_isolation(false)]
pub fn parse_badge_count(out: &str) -> (r: u32)
    ensures
        r == badge_count_spec(out@),
{
    let n = out.unicode_len();
    let mut acc: u64 = 0;
    let mut over = false;
    let mut any = false;
    let mut i: usize = 0;
    proof {
        assert(digit_filter(out@.take(0)) =~= Seq::<char>::empty());
    }
    while i < n
        invariant
            i <= n == out@.len(),
            any == (digit_filter(out@.take(i as int)).len() > 0),
            !over ==> acc == text::digits_val(digit_filter(out@.take(i as int))) && acc
                <= u32::MAX,
            over ==> text::digits_val(digit_filter(out@.take(i as int))) > u32::MAX,
        decreases n - i,
    {
        let ghost fpre = digit_filter(out@.take(i as int));
        proof {
            assert(out@.take(i + 1).drop_last() =~= out@.take(i as int));
            assert(out@.take(i + 1).last() == out@[i as int]);
        }
        let c = out.get_char(i);
        if text::digit_char_test(c) {
            let d = (c as u32 - 48) as u64;
            proof {
                assert(digit_filter(out@.take(i + 1)) =~= fpre + seq![c]);
                assert(digit_filter(out@.take(i + 1)).drop_last() =~= fpre);
            }
            if over {
            } else if acc > (0xffff_ffffu64 - d) / 10 || acc * 10 > 0xffff_ffffu64 - d {
                over = true;
            } else {
                acc = acc * 10 + d;
            }
            any = true;
        } else {
            proof {
                assert(digit_filter(out@.take(i + 1)) =~= fpre);
            }
        }
        i += 1;
    }
    proof {
        assert(out@.take(n as int) =~= out@);
        lemma_digit_filter_all(out@);
    }
    if over || !any {
        0
    } else {
        acc as u32
    }
}

} // verus!
