//! Small string helpers shared by the command builder and the parsers:
//! decimal rendering of integers, character search, and string equality,
//! each with an exact specification over the `Seq<char>` view.

use vstd::prelude::*;
use vstd::string::StrSliceExecFns;
use vstd::string::StringExecFns;

verus! {

/// The character for a single decimal digit.
pub open spec fn digit_char(d: nat) -> char {
    if d == 0 {
        '0'
    } else if d == 1 {
        '1'
    } else if d == 2 {
        '2'
    } else if d == 3 {
        '3'
    } else if d == 4 {
        '4'
    } else if d == 5 {
        '5'
    } else if d == 6 {
        '6'
    } else if d == 7 {
        '7'
    } else if d == 8 {
        '8'
    } else {
        '9'
    }
}

/// The usual decimal rendering of `n`, most significant digit first,
/// without leading zeros (`0` renders as "0").
pub open spec fn dec_str(n: nat) -> Seq<char>
    decreases n,
{
    if n < 10 {
        seq![digit_char(n)]
    } else {
        dec_str(n / 10) + seq![digit_char(n % 10)]
    }
}

/// One decimal digit as a string slice.
pub fn digit_str(d: u64) -> (r: &'static str)
    requires
        d < 10,
    ensures
        r@ =~= seq![digit_char(d as nat)],
{
    proof {
        reveal_strlit("0");
        reveal_strlit("1");
        reveal_strlit("2");
        reveal_strlit("3");
        reveal_strlit("4");
        reveal_strlit("5");
        reveal_strlit("6");
        reveal_strlit("7");
        reveal_strlit("8");
        reveal_strlit("9");
    }
    if d == 0 {
        "0"
    } else if d == 1 {
        "1"
    } else if d == 2 {
        "2"
    } else if d == 3 {
        "3"
    } else if d == 4 {
        "4"
    } else if d == 5 {
        "5"
    } else if d == 6 {
        "6"
    } else if d == 7 {
        "7"
    } else if d == 8 {
        "8"
    } else {
        "9"
    }
}

/// Appends the decimal rendering of `n` to `out`.
pub fn push_decimal(out: &mut String, n: u64)
    ensures
        final(out)@ == old(out)@ + dec_str(n as nat),
    decreases n,
{
    if n < 10 {
        out.append(digit_str(n));
    } else {
        push_decimal(out, n / 10);
        out.append(digit_str(n % 10));
    }
}

/// The decimal rendering of `n` as a fresh string.
pub fn decimal_string(n: u64) -> (r: String)
    ensures
        r@ == dec_str(n as nat),
{
    let mut out = String::new();
    push_decimal(&mut out, n);
    out
}

/// Whether `s` holds the character `c` anywhere.
pub fn contains_char(s: &str, c: char) -> (r: bool)
    ensures
        r == s@.contains(c),
{
    let n = s.unicode_len();
    let mut i: usize = 0;
    while i < n
        invariant
            n == s@.len(),
            i <= n,
            forall|j: int| 0 <= j < i ==> s@[j] != c,
        decreases n - i,
    {
        if s.get_char(i) == c {
            assert(s@.contains(c));
            return true;
        }
        i += 1;
    }
    assert(!s@.contains(c));
    false
}

/// The character sequences of a sequence of strings.
pub open spec fn views_of(s: Seq<String>) -> Seq<Seq<char>> {
    s.map_values(|x: String| x@)
}

/// A line with one trailing carriage return removed.
pub open spec fn strip_cr(line: Seq<char>) -> Seq<char> {
    if line.len() > 0 && line.last() == '\r' {
        line.drop_last()
    } else {
        line
    }
}

/// The position of the first occurrence of `c` in `s`, if any.
pub open spec fn find_char(s: Seq<char>, c: char) -> Option<int>
    decreases s.len(),
{
    if s.len() == 0 {
        None
    } else if s[0] == c {
        Some(0int)
    } else {
        match find_char(s.drop_first(), c) {
            Some(i) => Some(i + 1),
            None => None,
        }
    }
}

/// `find_char` returns exactly the first occurrence.
pub proof fn lemma_find_char_some(s: Seq<char>, c: char, i: int)
    requires
        0 <= i < s.len(),
        s[i] == c,
        forall|j: int| 0 <= j < i ==> s[j] != c,
    ensures
        find_char(s, c) == Some(i),
    decreases s.len(),
{
    if i > 0 {
        assert(s.drop_first()[i - 1] == c);
        lemma_find_char_some(s.drop_first(), c, i - 1);
    }
}

/// `find_char` finds an occurrence when one exists.
pub proof fn lemma_find_char_none(s: Seq<char>, c: char)
    requires
        forall|j: int| 0 <= j < s.len() ==> s[j] != c,
    ensures
        find_char(s, c) is None,
    decreases s.len(),
{
    if s.len() > 0 {
        lemma_find_char_none(s.drop_first(), c);
    }
}

/// Whatever `find_char` returns is a first occurrence.
pub proof fn lemma_find_char_inv(s: Seq<char>, c: char)
    ensures
        match find_char(s, c) {
            Some(i) => 0 <= i < s.len() && s[i] == c && (forall|j: int|
                0 <= j < i ==> s[j] != c),
            None => forall|j: int| 0 <= j < s.len() ==> s[j] != c,
        },
    decreases s.len(),
{
    if s.len() > 0 && s[0] != c {
        lemma_find_char_inv(s.drop_first(), c);
        match find_char(s.drop_first(), c) {
            Some(i) => {
                assert(s.drop_first()[i] == s[i + 1]);
                assert forall|j: int| 0 <= j < i + 1 implies s[j] != c by {
                    if j > 0 {
                        assert(s.drop_first()[j - 1] != c);
                    }
                }
            },
            None => {
                assert forall|j: int| 0 <= j < s.len() implies s[j] != c by {
                    if j > 0 {
                        assert(s.drop_first()[j - 1] != c);
                    }
                }
            },
        }
    }
}

/// The first occurrence of `c` within `s[from..to]`, as an absolute
/// position.
pub fn find_in_range(s: &str, from: usize, to: usize, c: char) -> (r: Option<usize>)
    requires
        from <= to <= s@.len(),
    ensures
        match r {
            Some(i) => from <= i < to && find_char(s@.subrange(from as int, to as int), c)
                == Some(i - from),
            None => find_char(s@.subrange(from as int, to as int), c) is None,
        },
{
    let ghost sub = s@.subrange(from as int, to as int);
    let mut i: usize = from;
    while i < to
        invariant
            from <= i <= to <= s@.len(),
            sub == s@.subrange(from as int, to as int),
            forall|j: int| from <= j < i ==> s@[j] != c,
        decreases to - i,
    {
        if s.get_char(i) == c {
            proof {
                lemma_find_char_some(sub, c, i - from);
            }
            return Some(i);
        }
        i += 1;
    }
    proof {
        lemma_find_char_none(sub, c);
    }
    None
}

/// ASCII whitespace, the characters `trim` strips.
pub open spec fn is_ws(c: char) -> bool {
    c == ' ' || c == '\t' || c == '\n' || c == '\r'
}

/// `s` without its leading whitespace.
pub open spec fn trim_front(s: Seq<char>) -> Seq<char>
    decreases s.len(),
{
    if s.len() > 0 && is_ws(s[0]) {
        trim_front(s.drop_first())
    } else {
        s
    }
}

/// `s` without its trailing whitespace.
pub open spec fn trim_back(s: Seq<char>) -> Seq<char>
    decreases s.len(),
{
    if s.len() > 0 && is_ws(s.last()) {
        trim_back(s.drop_last())
    } else {
        s
    }
}

/// `s` without leading and trailing whitespace.
pub open spec fn trimmed(s: Seq<char>) -> Seq<char> {
    trim_back(trim_front(s))
}

/// Whether `c` is ASCII whitespace.
pub fn ws_char(c: char) -> (r: bool)
    ensures
        r == is_ws(c),
{
    c == ' ' || c == '\t' || c == '\n' || c == '\r'
}

/// `trim_front` and `trim_back` commute into subranges step by step.
proof fn lemma_trim_front_step(s: Seq<char>, a: int, b: int)
    requires
        0 <= a < b <= s.len(),
        is_ws(s[a]),
    ensures
        trim_front(s.subrange(a, b)) == trim_front(s.subrange(a + 1, b)),
{
    assert(s.subrange(a, b).drop_first() =~= s.subrange(a + 1, b));
}

proof fn lemma_trim_back_step(s: Seq<char>, a: int, b: int)
    requires
        0 <= a < b <= s.len(),
        is_ws(s[b - 1]),
    ensures
        trim_back(s.subrange(a, b)) == trim_back(s.subrange(a, b - 1)),
{
    assert(s.subrange(a, b).drop_last() =~= s.subrange(a, b - 1));
}

/// The characters of `s[from..to]` without leading and trailing ASCII
/// whitespace.
pub fn trim_range<'a>(s: &'a str, from: usize, to: usize) -> (r: &'a str)
    requires
        from <= to <= s@.len(),
    ensures
        r@ == trimmed(s@.subrange(from as int, to as int)),
{
    let ghost sub = s@.subrange(from as int, to as int);
    let mut a = from;
    let b0 = to;
    while a < b0 && ws_char(s.get_char(a))
        invariant
            from <= a <= b0 <= s@.len(),
            b0 == to,
            trim_front(sub) == trim_front(s@.subrange(a as int, b0 as int)),
        decreases b0 - a,
    {
        proof {
            lemma_trim_front_step(s@, a as int, b0 as int);
        }
        a += 1;
    }
    proof {
        if a == b0 {
            assert(s@.subrange(a as int, b0 as int) =~= Seq::<char>::empty());
        }
        assert(trim_front(sub) == s@.subrange(a as int, b0 as int));
        assert(trimmed(sub) == trim_back(s@.subrange(a as int, b0 as int)));
    }
    let mut b = b0;
    while a < b && ws_char(s.get_char(b - 1))
        invariant
            from <= a <= b <= to <= s@.len(),
            trimmed(sub) == trim_back(s@.subrange(a as int, b as int)),
        decreases b,
    {
        proof {
            lemma_trim_back_step(s@, a as int, b as int);
        }
        b -= 1;
    }
    proof {
        if a == b {
            assert(s@.subrange(a as int, b as int) =~= Seq::<char>::empty());
        }
        assert(trimmed(sub) == s@.subrange(a as int, b as int));
    }
    s.substring_char(a, b)
}

/// The characters of `s` without trailing ASCII whitespace.
pub fn trim_end_str(s: &str) -> (r: &str)
    ensures
        r@ == trim_back(s@),
{
    let mut b = s.unicode_len();
    proof {
        assert(s@.subrange(0, s@.len() as int) =~= s@);
    }
    while b > 0 && ws_char(s.get_char(b - 1))
        invariant
            b <= s@.len(),
            trim_back(s@) == trim_back(s@.subrange(0, b as int)),
        decreases b,
    {
        proof {
            lemma_trim_back_step(s@, 0, b as int);
        }
        b -= 1;
    }
    proof {
        if b == 0 {
            assert(s@.subrange(0, 0) =~= Seq::<char>::empty());
        }
        assert(trim_back(s@) == s@.subrange(0, b as int));
    }
    s.substring_char(0, b)
}

/// Whether `c` is a decimal digit.
pub open spec fn is_digit(c: char) -> bool {
    48 <= c as int <= 57
}

/// Whether `c` is a decimal digit.
pub fn digit_char_test(c: char) -> (r: bool)
    ensures
        r == is_digit(c),
{
    let u = c as u32;
    48 <= u && u <= 57
}

/// Whether every character of `s` is a decimal digit.
pub open spec fn all_digits(s: Seq<char>) -> bool {
    forall|i: int| 0 <= i < s.len() ==> is_digit(#[trigger] s[i])
}

/// The numeric value of a digit sequence, most significant first.
pub open spec fn digits_val(s: Seq<char>) -> int
    decreases s.len(),
{
    if s.len() == 0 {
        0
    } else {
        digits_val(s.drop_last()) * 10 + (s.last() as int - 48)
    }
}

/// What parsing a decimal unsigned integer up to `bound` yields: the
/// digits' value if the sequence is nonempty, all digits, and in range.
pub open spec fn parse_uint_spec(s: Seq<char>, bound: int) -> Option<int> {
    if s.len() > 0 && all_digits(s) && digits_val(s) <= bound {
        Some(digits_val(s))
    } else {
        None
    }
}

/// A digit value never shrinks as digits are appended.
pub proof fn lemma_digits_val_monotone(s: Seq<char>, k: int)
    requires
        0 <= k <= s.len(),
        all_digits(s),
    ensures
        digits_val(s.take(k)) <= digits_val(s),
        digits_val(s) >= 0,
    decreases s.len(),
{
    if s.len() > 0 {
        lemma_digits_val_monotone(s.drop_last(), if k <= s.len() - 1 {
            k
        } else {
            k - 1
        });
        assert(s.drop_last() =~= s.take(s.len() - 1));
        if k <= s.len() - 1 {
            assert(s.drop_last().take(k) =~= s.take(k));
        } else {
            assert(s.take(k) =~= s);
        }
    } else {
        assert(s.take(k) =~= s);
    }
}

/// Parses `s[from..to]` as a decimal `u32`: every character a digit, at
/// least one, value in range.
pub fn parse_u32_range(s: &str, from: usize, to: usize) -> (r: Option<u32>)
    requires
        from <= to <= s@.len(),
    ensures
        r == (match parse_uint_spec(s@.subrange(from as int, to as int), u32::MAX as int) {
            Some(v) => Some(v as u32),
            None => None::<u32>,
        }),
{
    proof {
        let t = s@.subrange(from as int, to as int);
        if all_digits(t) {
            lemma_digits_val_monotone(t, 0);
        }
    }
    match parse_bounded_range(s, from, to, 0xffff_ffff) {
        Some(v) => Some(v as u32),
        None => None,
    }
}

/// Parses `s[from..to]` as a decimal `u8`.
pub fn parse_u8_range(s: &str, from: usize, to: usize) -> (r: Option<u8>)
    requires
        from <= to <= s@.len(),
    ensures
        r == (match parse_uint_spec(s@.subrange(from as int, to as int), 255) {
            Some(v) => Some(v as u8),
            None => None::<u8>,
        }),
{
    proof {
        let t = s@.subrange(from as int, to as int);
        if all_digits(t) {
            lemma_digits_val_monotone(t, 0);
        }
    }
    match parse_bounded_range(s, from, to, 255) {
        Some(v) => Some(v as u8),
        None => None,
    }
}

/// Parses `s[from..to]` as a decimal integer of at most `bound`.
#[verifier::loop_isolation(false)]
fn parse_bounded_range(s: &str, from: usize, to: usize, bound: u64) -> (r: Option<u64>)
    requires
        from <= to <= s@.len(),
        9 <= bound <= 0xffff_ffff,
    ensures
        r == (match parse_uint_spec(s@.subrange(from as int, to as int), bound as int) {
            Some(v) => Some(v as u64),
            None => None::<u64>,
        }),
{
    let ghost t = s@.subrange(from as int, to as int);
    if from == to {
        return None;
    }
    let mut acc: u64 = 0;
    let mut i = from;
    while i < to
        invariant
            from <= i <= to,
            all_digits(t.take(i - from)),
            acc == digits_val(t.take(i - from)),
            acc <= bound,
        decreases to - i,
    {
        let c = s.get_char(i);
        let u = c as u32;
        proof {
            assert(t[i - from] == c);
            assert(t.take(i - from + 1).drop_last() =~= t.take(i - from));
            assert(t.take(i - from + 1).last() == c);
        }
        if u < 48 || u > 57 {
            proof {
                assert(!is_digit(t[i - from]));
                assert(!all_digits(t));
            }
            return None;
        }
        let d = (u - 48) as u64;
        if acc > (bound - d) / 10 || acc * 10 > bound - d {
            proof {
                assert(digits_val(t.take(i - from + 1)) > bound);
                if all_digits(t) {
                    lemma_digits_val_monotone(t, i - from + 1);
                }
            }
            return None;
        }
        acc = acc * 10 + d;
        i += 1;
    }
    proof {
        assert(t.take(to - from) =~= t);
    }
    Some(acc)
}

/// Whether `pat` occurs in `s` starting at position `i`.
pub open spec fn match_at(s: Seq<char>, pat: Seq<char>, i: int) -> bool {
    0 <= i && i + pat.len() <= s.len() && s.subrange(i, i + pat.len()) == pat
}

/// The first position where `pat` occurs in `s`, if any.
pub open spec fn first_match(s: Seq<char>, pat: Seq<char>) -> Option<int>
    decreases s.len(),
{
    if s.len() < pat.len() {
        None
    } else if pat.len() == 0 {
        Some(0int)
    } else if s.take(pat.len() as int) == pat {
        Some(0int)
    } else {
        match first_match(s.drop_first(), pat) {
            Some(i) => Some(i + 1),
            None => None,
        }
    }
}

/// `first_match` returns exactly the first occurrence.
pub proof fn lemma_first_match_some(s: Seq<char>, pat: Seq<char>, i: int)
    requires
        match_at(s, pat, i),
        forall|j: int| 0 <= j < i ==> !match_at(s, pat, j),
    ensures
        first_match(s, pat) == Some(i),
    decreases s.len(),
{
    if i == 0 {
        assert(s.take(pat.len() as int) =~= s.subrange(0, pat.len() as int));
    } else {
        assert(!match_at(s, pat, 0));
        if pat.len() == 0 {
            assert(s.subrange(0, 0) =~= pat);
        }
        assert(s.take(pat.len() as int) =~= s.subrange(0, pat.len() as int));
        assert(s.take(pat.len() as int) != pat);
        assert(match_at(s.drop_first(), pat, i - 1)) by {
            assert(s.drop_first().subrange(i - 1, i - 1 + pat.len()) =~= s.subrange(
                i,
                i + pat.len(),
            ));
        }
        assert forall|j: int| 0 <= j < i - 1 implies !match_at(s.drop_first(), pat, j) by {
            if match_at(s.drop_first(), pat, j) {
                assert(s.subrange(j + 1, j + 1 + pat.len()) =~= s.drop_first().subrange(
                    j,
                    j + pat.len(),
                ));
                assert(match_at(s, pat, j + 1));
            }
        }
        lemma_first_match_some(s.drop_first(), pat, i - 1);
    }
}

/// When no position matches, `first_match` finds nothing.
pub proof fn lemma_first_match_none(s: Seq<char>, pat: Seq<char>)
    requires
        forall|j: int| 0 <= j <= s.len() - pat.len() ==> !match_at(s, pat, j),
    ensures
        first_match(s, pat) is None,
    decreases s.len(),
{
    if s.len() >= pat.len() {
        assert(!match_at(s, pat, 0));
        if pat.len() == 0 {
            assert(s.subrange(0, 0) =~= pat);
        }
        assert(s.take(pat.len() as int) =~= s.subrange(0, pat.len() as int));
        assert(s.take(pat.len() as int) != pat);
        assert forall|j: int| 0 <= j <= s.drop_first().len() - pat.len() implies !match_at(
            s.drop_first(),
            pat,
            j,
        ) by {
            if match_at(s.drop_first(), pat, j) {
                assert(s.subrange(j + 1, j + 1 + pat.len()) =~= s.drop_first().subrange(
                    j,
                    j + pat.len(),
                ));
                assert(match_at(s, pat, j + 1));
            }
        }
        lemma_first_match_none(s.drop_first(), pat);
    }
}

/// Whatever `first_match` returns is a first occurrence.
pub proof fn lemma_first_match_inv(s: Seq<char>, pat: Seq<char>)
    ensures
        match first_match(s, pat) {
            Some(i) => match_at(s, pat, i) && (forall|j: int| 0 <= j < i ==> !match_at(s, pat, j)),
            None => true,
        },
    decreases s.len(),
{
    if s.len() < pat.len() {
    } else if pat.len() == 0 {
        assert(s.subrange(0, 0) =~= pat);
        assert(match_at(s, pat, 0));
    } else if s.take(pat.len() as int) == pat {
        assert(s.subrange(0, pat.len() as int) =~= s.take(pat.len() as int));
        assert(match_at(s, pat, 0));
    } else {
        lemma_first_match_inv(s.drop_first(), pat);
        match first_match(s.drop_first(), pat) {
            Some(i) => {
                assert(s.subrange(i + 1, i + 1 + pat.len()) =~= s.drop_first().subrange(
                    i,
                    i + pat.len(),
                ));
                assert(match_at(s, pat, i + 1));
                assert forall|j: int| 0 <= j < i + 1 implies !match_at(s, pat, j) by {
                    if j > 0 && match_at(s, pat, j) {
                        assert(s.drop_first().subrange(j - 1, j - 1 + pat.len()) =~= s.subrange(
                            j,
                            j + pat.len(),
                        ));
                        assert(match_at(s.drop_first(), pat, j - 1));
                    }
                    if j == 0 && match_at(s, pat, 0) {
                        assert(s.take(pat.len() as int) =~= s.subrange(0, pat.len() as int));
                    }
                }
            },
            None => {},
        }
    }
}

/// Whether `pat` occurs in `s` at position `i` (checked directly).
fn matches_at(s: &str, pat: &str, i: usize) -> (r: bool)
    requires
        i + pat@.len() <= s@.len(),
        s@.len() <= usize::MAX,
    ensures
        r == match_at(s@, pat@, i as int),
{
    let m = pat.unicode_len();
    let mut k: usize = 0;
    while k < m
        invariant
            m == pat@.len(),
            k <= m,
            i + m <= s@.len(),
            s@.len() <= usize::MAX,
            forall|j: int| 0 <= j < k ==> s@[i + j] == pat@[j],
        decreases m - k,
    {
        if s.get_char(i + k) != pat.get_char(k) {
            proof {
                assert(s@.subrange(i as int, i + pat@.len())[k as int] != pat@[k as int]);
            }
            return false;
        }
        k += 1;
    }
    proof {
        assert(s@.subrange(i as int, i + pat@.len()) =~= pat@);
    }
    true
}

/// The first occurrence of `pat` in `s`, as a position.
#[verifier::loop_isolation(false)]
pub fn find_str(s: &str, pat: &str) -> (r: Option<usize>)
    ensures
        r == (match first_match(s@, pat@) {
            Some(i) => Some(i as usize),
            None => None::<usize>,
        }),
{
    let n = s.unicode_len();
    let m = pat.unicode_len();
    if m > n {
        proof {
            lemma_first_match_none(s@, pat@);
        }
        return None;
    }
    if m == 0 {
        return Some(0);
    }
    let mut i: usize = 0;
    while i <= n - m
        invariant
            1 <= m <= n == s@.len(),
            i <= n - m + 1,
            forall|j: int| 0 <= j < i ==> !match_at(s@, pat@, j),
        decreases n - i,
    {
        if matches_at(s, pat, i) {
            proof {
                lemma_first_match_some(s@, pat@, i as int);
            }
            return Some(i);
        }
        i += 1;
    }
    proof {
        lemma_first_match_none(s@, pat@);
    }
    None
}

/// Lexicographic order on character sequences, by code point.
pub open spec fn lex_lt(a: Seq<char>, b: Seq<char>) -> bool
    decreases a.len(),
{
    if b.len() == 0 {
        false
    } else if a.len() == 0 {
        true
    } else if a[0] != b[0] {
        (a[0] as int) < (b[0] as int)
    } else {
        lex_lt(a.drop_first(), b.drop_first())
    }
}

/// No character sequence comes before itself.
pub proof fn lemma_lex_irrefl(a: Seq<char>)
    ensures
        !lex_lt(a, a),
    decreases a.len(),
{
    if a.len() > 0 {
        lemma_lex_irrefl(a.drop_first());
    }
}

/// The order runs one way only.
pub proof fn lemma_lex_asym(a: Seq<char>, b: Seq<char>)
    requires
        lex_lt(a, b),
    ensures
        !lex_lt(b, a),
    decreases a.len(),
{
    if a.len() > 0 && b.len() > 0 && a[0] == b[0] {
        lemma_lex_asym(a.drop_first(), b.drop_first());
    }
}

/// Any two character sequences are equal or ordered one way.
pub proof fn lemma_lex_connex(a: Seq<char>, b: Seq<char>)
    ensures
        a == b || lex_lt(a, b) || lex_lt(b, a),
    decreases a.len(),
{
    if a.len() == 0 && b.len() == 0 {
        assert(a =~= b);
    } else if a.len() > 0 && b.len() > 0 && a[0] == b[0] {
        lemma_lex_connex(a.drop_first(), b.drop_first());
        if a.drop_first() == b.drop_first() {
            assert(a.drop_first().len() == b.drop_first().len());
            assert(a.len() == b.len());
            assert forall|i: int| 0 <= i < a.len() implies a[i] == b[i] by {
                if i > 0 {
                    assert(a.drop_first()[i - 1] == a[i]);
                    assert(b.drop_first()[i - 1] == b[i]);
                }
            }
            assert(a =~= b);
        }
    }
}

/// Whether `a` comes strictly before `b` in lexicographic order.
pub fn str_lt(a: &str, b: &str) -> (r: bool)
    ensures
        r == lex_lt(a@, b@),
{
    let an = a.unicode_len();
    let bn = b.unicode_len();
    let mut i: usize = 0;
    proof {
        assert(a@.skip(0) =~= a@);
        assert(b@.skip(0) =~= b@);
    }
    while i < an && i < bn
        invariant
            an == a@.len(),
            bn == b@.len(),
            i <= an,
            i <= bn,
            lex_lt(a@, b@) == lex_lt(a@.skip(i as int), b@.skip(i as int)),
        decreases an - i,
    {
        let ca = a.get_char(i);
        let cb = b.get_char(i);
        proof {
            assert(a@.skip(i as int)[0] == ca);
            assert(b@.skip(i as int)[0] == cb);
            assert(a@.skip(i as int).drop_first() =~= a@.skip(i + 1));
            assert(b@.skip(i as int).drop_first() =~= b@.skip(i + 1));
        }
        if ca != cb {
            return (ca as u32) < (cb as u32);
        }
        i += 1;
    }
    proof {
        if i >= bn {
            assert(b@.skip(i as int).len() == 0);
        } else {
            assert(a@.skip(i as int).len() == 0);
            assert(b@.skip(i as int).len() > 0);
        }
    }
    i < bn
}

/// Whether the two strings hold the same characters.
pub fn str_eq(a: &str, b: &str) -> (r: bool)
    ensures
        r == (a@ == b@),
{
    let n = a.unicode_len();
    if n != b.unicode_len() {
        assert(a@ != b@);
        return false;
    }
    let mut i: usize = 0;
    while i < n
        invariant
            n == a@.len() == b@.len(),
            i <= n,
            forall|j: int| 0 <= j < i ==> a@[j] == b@[j],
        decreases n - i,
    {
        if a.get_char(i) != b.get_char(i) {
            assert(a@ != b@);
            return false;
        }
        i += 1;
    }
    assert(a@ =~= b@);
    true
}

} // verus!
