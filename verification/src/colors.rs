//! Color values: parsing `0x`-prefixed hex colors, the two-stop gradient
//! specification, and generating the gradient steps the workspace
//! renderer keys by bar position.

use vstd::prelude::*;
use vstd::string::StrSliceExecFns;
use vstd::string::StringExecFns;

use crate::config::Config;
use crate::text;

verus! {

/// Whether `c` is a hexadecimal digit.
pub open spec fn is_hex_digit(c: char) -> bool {
    (48 <= c as int <= 57) || (97 <= c as int <= 102) || (65 <= c as int <= 70)
}

/// The value of a hexadecimal digit (0 for a non-digit).
pub open spec fn hex_val(c: char) -> nat {
    if 48 <= c as int <= 57 {
        (c as int - 48) as nat
    } else if 97 <= c as int <= 102 {
        (c as int - 87) as nat
    } else if 65 <= c as int <= 70 {
        (c as int - 55) as nat
    } else {
        0
    }
}

/// Whether positions `i` and `i + 1` of `h` hold hexadecimal digits.
pub open spec fn pair_ok(h: Seq<char>, i: int) -> bool {
    is_hex_digit(h[i]) && is_hex_digit(h[i + 1])
}

/// The byte value of the two hexadecimal digits at positions `i`, `i + 1`.
pub open spec fn pair_val(h: Seq<char>, i: int) -> u8 {
    (16 * hex_val(h[i]) + hex_val(h[i + 1])) as u8
}

/// What parsing a color string yields: the string must start with `0x`
/// and carry at least six hex digits; the red, green and blue pairs are
/// the last six characters (skipping a leading alpha pair when present).
pub open spec fn color_spec(s: Seq<char>) -> Option<(u8, u8, u8)> {
    if s.len() < 2 || s[0] != '0' || s[1] != 'x' {
        None
    } else {
        let hex = s.skip(2);
        if hex.len() < 6 {
            None
        } else {
            let st = if hex.len() >= 8 {
                hex.len() - 6
            } else {
                0
            };
            if pair_ok(hex, st) && pair_ok(hex, st + 2) && pair_ok(hex, st + 4) {
                Some((pair_val(hex, st), pair_val(hex, st + 2), pair_val(hex, st + 4)))
            } else {
                None
            }
        }
    }
}

/// The value of one hexadecimal digit character.
fn hex_digit_val(c: char) -> (r: Option<u8>)
    ensures
        r == (if is_hex_digit(c) {
            Some(hex_val(c) as u8)
        } else {
            None::<u8>
        }),
{
    let u = c as u32;
    if 48 <= u && u <= 57 {
        Some((u - 48) as u8)
    } else if 97 <= u && u <= 102 {
        Some((u - 87) as u8)
    } else if 65 <= u && u <= 70 {
        Some((u - 55) as u8)
    } else {
        None
    }
}

/// The byte value of the two hexadecimal digits of `s` at `i`, `i + 1`.
fn hex_pair(s: &str, i: usize) -> (r: Option<u8>)
    requires
        i + 2 <= s@.len() <= usize::MAX,
    ensures
        r == (if pair_ok(s@, i as int) {
            Some(pair_val(s@, i as int))
        } else {
            None::<u8>
        }),
{
    let hi = hex_digit_val(s.get_char(i));
    let lo = hex_digit_val(s.get_char(i + 1));
    match (hi, lo) {
        (Some(h), Some(l)) => Some(16 * h + l),
        _ => None,
    }
}

/// Parses a color like `0xffbb60cd` to its (red, green, blue) bytes.
/// An alpha pair, when present, is skipped; the color is the last six
/// hex digits.  Returns `None` for anything shorter or non-hexadecimal.
pub fn parse_color(color: &str) -> (r: Option<(u8, u8, u8)>)
    ensures
        r == color_spec(color@),
{
    let n = color.unicode_len();
    if n < 2 || color.get_char(0) != '0' || color.get_char(1) != 'x' {
        return None;
    }
    let ghost hex = color@.skip(2);
    if n < 8 {
        return None;
    }
    let hexlen = n - 2;
    let st: usize = if hexlen >= 8 {
        hexlen - 6
    } else {
        0
    };
    proof {
        assert(hex.len() == hexlen);
        assert forall|j: int| 0 <= j < hex.len() implies hex[j] == color@[2 + j] by {}
    }
    let p0 = hex_pair(color, 2 + st);
    let p1 = hex_pair(color, 2 + st + 2);
    let p2 = hex_pair(color, 2 + st + 4);
    match (p0, p1, p2) {
        (Some(a), Some(b), Some(c)) => Some((a, b, c)),
        _ => None,
    }
}

/// One assignment of the gradient specification: the part left of `=`
/// names a stop, the part right of it is a color; unknown keys change
/// nothing, a known key is assigned whatever its color parses to.
pub open spec fn apply_part(
    part: Seq<char>,
    tl: Option<(u8, u8, u8)>,
    br: Option<(u8, u8, u8)>,
) -> (Option<(u8, u8, u8)>, Option<(u8, u8, u8)>) {
    match text::find_char(part, '=') {
        None => (tl, br),
        Some(e) => {
            let k = text::trimmed(part.take(e));
            let v = text::trimmed(part.skip(e + 1));
            if k == "top_left"@ {
                (color_spec(v), br)
            } else if k == "bottom_right"@ {
                (tl, color_spec(v))
            } else {
                (tl, br)
            }
        },
    }
}

/// Folds the comma-separated parts of the gradient body left to right.
pub open spec fn fold_parts(
    s: Seq<char>,
    tl: Option<(u8, u8, u8)>,
    br: Option<(u8, u8, u8)>,
) -> (Option<(u8, u8, u8)>, Option<(u8, u8, u8)>)
    decreases s.len(),
    via fold_parts_decreases
{
    match text::find_char(s, ',') {
        None => apply_part(s, tl, br),
        Some(i) => {
            let step = apply_part(s.take(i), tl, br);
            fold_parts(s.skip(i + 1), step.0, step.1)
        },
    }
}

#[via_fn]
proof fn fold_parts_decreases(
    s: Seq<char>,
    tl: Option<(u8, u8, u8)>,
    br: Option<(u8, u8, u8)>,
) {
    text::lemma_find_char_inv(s, ',');
}

/// What parsing a gradient string yields: the body between `gradient(`
/// and `)` assigns the two stops; both must parse for the whole to.
pub open spec fn gradient_spec(s: Seq<char>) -> Option<((u8, u8, u8), (u8, u8, u8))> {
    if s.len() >= 10 && s.take(9) == "gradient("@ && s.last() == ')' {
        let folded = fold_parts(s.subrange(9, s.len() - 1), None, None);
        match (folded.0, folded.1) {
            (Some(t), Some(b)) => Some((t, b)),
            _ => None,
        }
    } else {
        None
    }
}

/// Applies the part at `s[a..b]` to the two stops.
fn apply_part_exec(
    s: &str,
    a: usize,
    b: usize,
    tl: Option<(u8, u8, u8)>,
    br: Option<(u8, u8, u8)>,
) -> (r: (Option<(u8, u8, u8)>, Option<(u8, u8, u8)>))
    requires
        a <= b <= s@.len(),
    ensures
        r == apply_part(s@.subrange(a as int, b as int), tl, br),
{
    let ghost part = s@.subrange(a as int, b as int);
    match text::find_in_range(s, a, b, '=') {
        None => (tl, br),
        Some(e) => {
            proof {
                assert(part.take(e - a) =~= s@.subrange(a as int, e as int));
                assert(part.skip(e - a + 1) =~= s@.subrange(e + 1, b as int));
            }
            let key = text::trim_range(s, a, e);
            let value = text::trim_range(s, e + 1, b);
            if text::str_eq(key, "top_left") {
                (parse_color(value), br)
            } else if text::str_eq(key, "bottom_right") {
                (tl, parse_color(value))
            } else {
                (tl, br)
            }
        },
    }
}

/// Parses a gradient like `gradient(top_left=0xffbb60cd,bottom_right=0xfffabd2f)`
/// to its two color stops.
pub fn parse_gradient(gradient: &str) -> (r: Option<((u8, u8, u8), (u8, u8, u8))>)
    ensures
        r == gradient_spec(gradient@),
{
    let n = gradient.unicode_len();
    if n < 10 {
        return None;
    }
    let head = gradient.substring_char(0, 9);
    if !text::str_eq(head, "gradient(") {
        proof {
            assert(gradient@.take(9) =~= gradient@.subrange(0, 9));
        }
        return None;
    }
    if gradient.get_char(n - 1) != ')' {
        return None;
    }
    proof {
        assert(gradient@.take(9) =~= gradient@.subrange(0, 9));
    }
    let ghost inner = gradient@.subrange(9, n - 1);
    let end = n - 1;
    let mut pos: usize = 9;
    let mut tl: Option<(u8, u8, u8)> = None;
    let mut br: Option<(u8, u8, u8)> = None;
    loop
        invariant
            9 <= pos <= end <= gradient@.len(),
            end == gradient@.len() - 1,
            gradient@.take(9) == "gradient("@,
            gradient@[end as int] == ')',
            inner == gradient@.subrange(9, end as int),
            fold_parts(inner, None, None) == fold_parts(
                gradient@.subrange(pos as int, end as int),
                tl,
                br,
            ),
        decreases end - pos + 1,
    {
        let ghost rem = gradient@.subrange(pos as int, end as int);
        match text::find_in_range(gradient, pos, end, ',') {
            Some(i) => {
                proof {
                    assert(rem.take(i - pos) =~= gradient@.subrange(pos as int, i as int));
                    assert(rem.skip(i - pos + 1) =~= gradient@.subrange(i + 1, end as int));
                }
                let ghost tl0 = tl;
                let ghost br0 = br;
                let step = apply_part_exec(gradient, pos, i, tl, br);
                proof {
                    assert(fold_parts(rem, tl0, br0) == fold_parts(
                        rem.skip(i - pos + 1),
                        apply_part(rem.take(i - pos), tl0, br0).0,
                        apply_part(rem.take(i - pos), tl0, br0).1,
                    ));
                }
                tl = step.0;
                br = step.1;
                pos = i + 1;
            },
            None => {
                let ghost tl0 = tl;
                let ghost br0 = br;
                let step = apply_part_exec(gradient, pos, end, tl, br);
                proof {
                    assert(fold_parts(rem, tl0, br0) == apply_part(rem, tl0, br0));
                    assert(fold_parts(inner, None, None) == step);
                    assert(gradient@.last() == gradient@[end as int]);
                }
                return match step {
                    (Some(t), Some(b)) => Some((t, b)),
                    _ => None,
                };
            },
        }
    }
}

/// One linearly interpolated channel: step `i` of `steps` from `s`
/// to `e`, with the quotient truncated toward `s`.
pub open spec fn lerp_channel(s: u8, e: u8, i: int, steps: int) -> u8 {
    if e >= s {
        (s + (e - s) * i / (steps - 1)) as u8
    } else {
        (s - (s - e) * i / (steps - 1)) as u8
    }
}

/// Step `i` of `steps` of the gradient from `s` to `e`, channel-wise.
pub open spec fn lerp_color(s: (u8, u8, u8), e: (u8, u8, u8), i: int, steps: int) -> (
    u8,
    u8,
    u8,
) {
    (
        lerp_channel(s.0, e.0, i, steps),
        lerp_channel(s.1, e.1, i, steps),
        lerp_channel(s.2, e.2, i, steps),
    )
}

/// The lower-case hexadecimal digit character for `d`.
pub open spec fn hex_digit_char(d: nat) -> char {
    if d < 10 {
        text::digit_char(d)
    } else if d == 10 {
        'a'
    } else if d == 11 {
        'b'
    } else if d == 12 {
        'c'
    } else if d == 13 {
        'd'
    } else if d == 14 {
        'e'
    } else {
        'f'
    }
}

/// A byte as two lower-case hexadecimal digits.
pub open spec fn hex_byte_str(v: u8) -> Seq<char> {
    seq![hex_digit_char(v as nat / 16), hex_digit_char(v as nat % 16)]
}

/// A fully opaque color string `0xff` followed by the three channels.
pub open spec fn color_hex_str(c: (u8, u8, u8)) -> Seq<char> {
    "0xff"@ + hex_byte_str(c.0) + hex_byte_str(c.1) + hex_byte_str(c.2)
}

/// One lower-case hexadecimal digit as a string slice.
fn hex_digit_str(d: u8) -> (r: &'static str)
    requires
        d < 16,
    ensures
        r@ =~= seq![hex_digit_char(d as nat)],
{
    proof {
        reveal_strlit("a");
        reveal_strlit("b");
        reveal_strlit("c");
        reveal_strlit("d");
        reveal_strlit("e");
        reveal_strlit("f");
    }
    if d < 10 {
        text::digit_str(d as u64)
    } else if d == 10 {
        "a"
    } else if d == 11 {
        "b"
    } else if d == 12 {
        "c"
    } else if d == 13 {
        "d"
    } else if d == 14 {
        "e"
    } else {
        "f"
    }
}

/// Appends the two hexadecimal digits of `v` to `out`.
fn push_hex_byte(out: &mut String, v: u8)
    ensures
        final(out)@ == old(out)@ + hex_byte_str(v),
{
    out.append(hex_digit_str(v / 16));
    out.append(hex_digit_str(v % 16));
}

/// The color as a `0xff`-prefixed lower-case hexadecimal string.
fn color_string(c: (u8, u8, u8)) -> (r: String)
    ensures
        r@ == color_hex_str(c),
{
    let mut out = String::from_str("0xff");
    push_hex_byte(&mut out, c.0);
    push_hex_byte(&mut out, c.1);
    push_hex_byte(&mut out, c.2);
    out
}

/// Generates a linear gradient with `steps` colors from `start` to `end`;
/// fewer than two steps yield the single start color.
pub fn generate_gradient(start: (u8, u8, u8), end: (u8, u8, u8), steps: usize) -> (r: Vec<
    String,
>)
    ensures
        steps <= 1 ==> r@.len() == 1 && r@[0]@ == color_hex_str(start),
        steps > 1 ==> r@.len() == steps && (forall|i: int|
            0 <= i < steps ==> r@[i]@ == color_hex_str(lerp_color(start, end, i, steps as int))),
{
    let mut out: Vec<String> = Vec::new();
    if steps <= 1 {
        out.push(color_string(start));
        return out;
    }
    let m = (steps - 1) as u64;
    let mut i: usize = 0;
    while i < steps
        invariant
            2 <= steps,
            m == steps - 1,
            i <= steps,
            out@.len() == i,
            forall|j: int|
                0 <= j < i ==> out@[j]@ == color_hex_str(lerp_color(start, end, j, steps as int)),
        decreases steps - i,
    {
        let c = (
            lerp_channel_exec(start.0, end.0, i as u64, m),
            lerp_channel_exec(start.1, end.1, i as u64, m),
            lerp_channel_exec(start.2, end.2, i as u64, m),
        );
        proof {
            assert(c == lerp_color(start, end, i as int, steps as int));
        }
        out.push(color_string(c));
        i += 1;
    }
    out
}

/// One interpolated channel, computed without leaving `u64` range.
fn lerp_channel_exec(s: u8, e: u8, i: u64, m: u64) -> (r: u8)
    requires
        m >= 1,
        i <= m,
    ensures
        r == lerp_channel(s, e, i as int, m as int + 1),
{
    if e >= s {
        let d = (e - s) as u64;
        proof {
            lemma_product_small(d as int, i as int);
            lemma_scaled_fraction_bounded(d as int, i as int, m as int);
        }
        let add = ((d as u128) * (i as u128) / (m as u128)) as u64;
        s + (add as u8)
    } else {
        let d = (s - e) as u64;
        proof {
            lemma_product_small(d as int, i as int);
            lemma_scaled_fraction_bounded(d as int, i as int, m as int);
        }
        let sub = ((d as u128) * (i as u128) / (m as u128)) as u64;
        s - (sub as u8)
    }
}

/// A channel difference times a step index stays far below `u128` range.
proof fn lemma_product_small(d: int, i: int)
    requires
        0 <= d <= 255,
        0 <= i <= u64::MAX,
    ensures
        d * i <= 255 * (u64::MAX as int),
{
    assert(d * i <= 255 * (u64::MAX as int)) by (nonlinear_arith)
        requires
            0 <= d <= 255,
            0 <= i <= u64::MAX,
    ;
}

/// For `0 <= i <= m` and `d >= 0`, the scaled fraction `d * i / m`
/// stays within `[0, d]`.
proof fn lemma_scaled_fraction_bounded(d: int, i: int, m: int)
    requires
        0 <= d,
        0 <= i <= m,
        1 <= m,
    ensures
        0 <= d * i / m <= d,
{
    assert(0 <= d * i / m <= d) by (nonlinear_arith)
        requires
            0 <= d,
            0 <= i <= m,
            1 <= m,
    ;
}

/// The per-position accent colors for focused workspaces: the gradient's
/// fifteen steps when the accent color parses as one, else fifteen copies
/// of the plain workspace background color.
pub fn get_workspace_gradient_colors(config: &Config) -> (r: Vec<String>)
    ensures
        r@.len() == 15,
        match gradient_spec(config.border_active_color@) {
            Some(stops) => forall|i: int|
                0 <= i < 15 ==> r@[i]@ == color_hex_str(lerp_color(stops.0, stops.1, i, 15)),
            None => forall|i: int| 0 <= i < 15 ==> r@[i]@ == config.workspace_bg_color@,
        },
{
    match parse_gradient(config.border_active_color.as_str()) {
        Some((start, end)) => generate_gradient(start, end, 15),
        None => {
            let mut out: Vec<String> = Vec::new();
            let mut i: usize = 0;
            while i < 15
                invariant
                    i <= 15,
                    out@.len() == i,
                    forall|j: int| 0 <= j < i ==> out@[j]@ == config.workspace_bg_color@,
                decreases 15 - i,
            {
                out.push(config.workspace_bg_color.clone());
                i += 1;
            }
            out
        },
    }
}

} // verus!
