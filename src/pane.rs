//! The active pane of a terminal multiplexer, in character cells, and the text
//! form in which the multiplexer reports it.

use vstd::prelude::*;
use vstd::string::{StrSliceExecFns, StringExecFns};

verus! {

/// Bounds of the active pane (right and bottom inclusive) and the size of the
/// multiplexer window, all in character cells.
#[derive(Debug, Clone, Copy, PartialEq, Eq, Structural)]
pub struct TmuxPaneInfo {
    pub pane_left: i32,
    pub pane_top: i32,
    pub pane_right: i32,
    pub pane_bottom: i32,
    pub window_width: i32,
    pub window_height: i32,
}

/// Why a decimal integer field could not be read.
#[derive(Debug, Clone, Copy, PartialEq, Eq, Structural)]
pub enum IntErrorKind {
    Empty,
    InvalidDigit,
    PosOverflow,
    NegOverflow,
}

/// Whether `c` has the Unicode White_Space property.
pub uninterp spec fn white_space(c: char) -> bool;

/// Relies on `char::is_whitespace`: true exactly for the characters with the
/// Unicode White_Space property.
#[verifier::external_body]
fn is_white(c: char) -> (r: bool)
    ensures
        r == white_space(c),
{
    c.is_whitespace()
}

/// `s` without its leading white space.
pub open spec fn trim_start(s: Seq<char>) -> Seq<char>
    decreases s.len(),
{
    if s.len() > 0 && white_space(s[0]) {
        trim_start(s.drop_first())
    } else {
        s
    }
}

/// `s` without its trailing white space.
pub open spec fn trim_end(s: Seq<char>) -> Seq<char>
    decreases s.len(),
{
    if s.len() > 0 && white_space(s.last()) {
        trim_end(s.drop_last())
    } else {
        s
    }
}

/// `s` without white space at either end.
pub open spec fn trim(s: Seq<char>) -> Seq<char> {
    trim_end(trim_start(s))
}

/// The comma-separated fields of `s`; there is always at least one.
pub open spec fn split_commas(s: Seq<char>) -> Seq<Seq<char>>
    decreases s.len(),
{
    if s.len() == 0 {
        seq![Seq::<char>::empty()]
    } else {
        let rest = split_commas(s.drop_last());
        if s.last() == ',' {
            rest.push(Seq::<char>::empty())
        } else {
            rest.update(rest.len() - 1, rest.last().push(s.last()))
        }
    }
}

pub open spec fn is_digit(c: char) -> bool {
    '0' <= c && c <= '9'
}

pub open spec fn digit_value(c: char) -> int {
    c as int - '0' as int
}

/// Reads the digits `d` left to right into a value of the sign given by `neg`,
/// stopping at the first character that is no digit or the first digit that
/// takes the value out of the range of `i32`.
pub open spec fn scan_digits(neg: bool, d: Seq<char>) -> Result<int, IntErrorKind>
    decreases d.len(),
{
    if d.len() == 0 {
        Ok(0)
    } else {
        match scan_digits(neg, d.drop_last()) {
            Err(e) => Err(e),
            Ok(v) => {
                if !is_digit(d.last()) {
                    Err(IntErrorKind::InvalidDigit)
                } else if neg {
                    if v * 10 - digit_value(d.last()) < i32::MIN {
                        Err(IntErrorKind::NegOverflow)
                    } else {
                        Ok(v * 10 - digit_value(d.last()))
                    }
                } else {
                    if v * 10 + digit_value(d.last()) > i32::MAX {
                        Err(IntErrorKind::PosOverflow)
                    } else {
                        Ok(v * 10 + digit_value(d.last()))
                    }
                }
            },
        }
    }
}

/// A decimal `i32` with an optional sign.
pub open spec fn parse_int(t: Seq<char>) -> Result<int, IntErrorKind> {
    if t.len() == 0 {
        Err(IntErrorKind::Empty)
    } else if (t[0] == '+' || t[0] == '-') && t.len() == 1 {
        Err(IntErrorKind::InvalidDigit)
    } else if t[0] == '+' {
        scan_digits(false, t.drop_first())
    } else if t[0] == '-' {
        scan_digits(true, t.drop_first())
    } else {
        scan_digits(false, t)
    }
}

pub open spec fn digit_char(d: int) -> char {
    if d == 0 {
        '0'
    } else if d == 1 {
        '1'
    } else if d == 2 {
        '2'
    } else if d == 3 {
        '3'
    } else if d == 4 {
        '4'
    } else if d == 5 {
        '5'
    } else if d == 6 {
        '6'
    } else if d == 7 {
        '7'
    } else if d == 8 {
        '8'
    } else {
        '9'
    }
}

/// The decimal digits of `n`.
pub open spec fn decimal(n: nat) -> Seq<char>
    decreases n,
{
    if n < 10 {
        seq![digit_char(n as int)]
    } else {
        decimal(n / 10).push(digit_char((n % 10) as int))
    }
}

pub open spec fn field_name(i: int) -> Seq<char> {
    if i == 0 {
        "pane_left"@
    } else if i == 1 {
        "pane_top"@
    } else if i == 2 {
        "pane_right"@
    } else if i == 3 {
        "pane_bottom"@
    } else if i == 4 {
        "window_width"@
    } else {
        "window_height"@
    }
}

pub open spec fn int_error_text(k: IntErrorKind) -> Seq<char> {
    match k {
        IntErrorKind::Empty => "cannot parse integer from empty string"@,
        IntErrorKind::InvalidDigit => "invalid digit found in string"@,
        IntErrorKind::PosOverflow => "number too large to fit in target type"@,
        IntErrorKind::NegOverflow => "number too small to fit in target type"@,
    }
}

/// The value of field `i` of `parts`, trimmed, as a decimal `i32`.
pub open spec fn field_value(parts: Seq<Seq<char>>, i: int) -> Result<int, IntErrorKind> {
    parse_int(trim(parts[i]))
}

/// Index of the first of the six fields that does not read as an `i32`, or 6.
pub open spec fn first_bad_field(parts: Seq<Seq<char>>) -> int {
    if field_value(parts, 0) is Err {
        0
    } else if field_value(parts, 1) is Err {
        1
    } else if field_value(parts, 2) is Err {
        2
    } else if field_value(parts, 3) is Err {
        3
    } else if field_value(parts, 4) is Err {
        4
    } else if field_value(parts, 5) is Err {
        5
    } else {
        6
    }
}

/// What reading `s` as `left,top,right,bottom,window_width,window_height` gives:
/// the pane, or the message of the first problem met.
pub open spec fn parse_pane(s: Seq<char>) -> Result<TmuxPaneInfo, Seq<char>> {
    let t = trim(s);
    let parts = split_commas(t);
    if t.len() == 0 {
        Err("Empty content"@)
    } else if parts.len() != 6 {
        Err("Expected 6 comma-separated values, got "@ + decimal(parts.len()))
    } else if first_bad_field(parts) < 6 {
        let i = first_bad_field(parts);
        Err("Failed to parse "@ + field_name(i) + ": "@ + int_error_text(
            field_value(parts, i)->Err_0,
        ))
    } else {
        Ok(
            TmuxPaneInfo {
                pane_left: field_value(parts, 0)->Ok_0 as i32,
                pane_top: field_value(parts, 1)->Ok_0 as i32,
                pane_right: field_value(parts, 2)->Ok_0 as i32,
                pane_bottom: field_value(parts, 3)->Ok_0 as i32,
                window_width: field_value(parts, 4)->Ok_0 as i32,
                window_height: field_value(parts, 5)->Ok_0 as i32,
            },
        )
    }
}

pub open spec fn result_view(r: Result<TmuxPaneInfo, String>) -> Result<TmuxPaneInfo, Seq<char>> {
    match r {
        Ok(p) => Ok(p),
        Err(e) => Err(e@),
    }
}

/// Narrows `[a, b)` of `s` to the part without white space at either end.
fn trim_range(s: &str, a: usize, b: usize) -> (r: (usize, usize))
    requires
        a <= b <= s@.len(),
    ensures
        a <= r.0 <= r.1 <= b,
        s@.subrange(r.0 as int, r.1 as int) == trim(s@.subrange(a as int, b as int)),
{
    let mut i = a;
    while i < b && is_white(s.get_char(i))
        invariant
            a <= i <= b,
            b <= s@.len(),
            trim_start(s@.subrange(a as int, b as int)) == trim_start(s@.subrange(i as int, b as int)),
        decreases b - i,
    {
        assert(s@.subrange(i as int, b as int).drop_first() =~= s@.subrange(i + 1, b as int));
        i = i + 1;
    }
    let ghost front = s@.subrange(i as int, b as int);
    assert(trim_start(front) == front);
    let mut j = b;
    while j > i && is_white(s.get_char(j - 1))
        invariant
            i <= j <= b,
            b <= s@.len(),
            trim_end(front) == trim_end(s@.subrange(i as int, j as int)),
        decreases j - i,
    {
        assert(s@.subrange(i as int, j as int).drop_last() =~= s@.subrange(i as int, j - 1));
        j = j - 1;
    }
    (i, j)
}

/// Reads the field `[a, b)` of `s`, already trimmed, as a decimal `i32`.
fn parse_field(s: &str, a: usize, b: usize) -> (r: Result<i32, IntErrorKind>)
    requires
        a <= b <= s@.len(),
    ensures
        match r {
            Ok(v) => parse_int(s@.subrange(a as int, b as int)) == Ok::<int, IntErrorKind>(v as int),
            Err(e) => parse_int(s@.subrange(a as int, b as int)) == Err::<int, IntErrorKind>(e),
        },
{
    let ghost t = s@.subrange(a as int, b as int);
    if a == b {
        return Err(IntErrorKind::Empty);
    }
    let c0 = s.get_char(a);
    if (c0 == '+' || c0 == '-') && b - a == 1 {
        return Err(IntErrorKind::InvalidDigit);
    }
    let neg = c0 == '-';
    let start: usize = if c0 == '+' || c0 == '-' {
        a + 1
    } else {
        a
    };
    let ghost d = s@.subrange(start as int, b as int);
    assert(parse_int(t) == scan_digits(neg, d)) by {
        if c0 == '+' || c0 == '-' {
            assert(t.drop_first() =~= d);
        } else {
            assert(t =~= d);
        }
    }
    let mut acc: i64 = 0;
    let mut k = start;
    while k < b
        invariant
            start <= k <= b,
            b <= s@.len(),
            d == s@.subrange(start as int, b as int),
            t == s@.subrange(a as int, b as int),
            parse_int(t) == scan_digits(neg, d),
            scan_digits(neg, s@.subrange(start as int, k as int)) == Ok::<int, IntErrorKind>(
                acc as int,
            ),
            i32::MIN <= acc <= i32::MAX,
            neg ==> acc <= 0,
            !neg ==> acc >= 0,
        decreases b - k,
    {
        let c = s.get_char(k);
        let ghost pre = s@.subrange(start as int, k as int);
        let ghost next = s@.subrange(start as int, k + 1);
        assert(next.drop_last() =~= pre);
        assert(next.last() == c);
        if !('0' <= c && c <= '9') {
            proof {
                assert(d.subrange(0, (k + 1 - start) as int) =~= next);
                assert(scan_digits(neg, next) == Err::<int, IntErrorKind>(IntErrorKind::InvalidDigit));
                lemma_scan_prefix_err(neg, d, (k + 1 - start) as int);
            }
            return Err(IntErrorKind::InvalidDigit);
        }
        let dv = (c as u32 - '0' as u32) as i64;
        if neg {
            if acc * 10 - dv < i32::MIN as i64 {
                proof {
                    assert(d.subrange(0, (k + 1 - start) as int) =~= next);
                    assert(scan_digits(neg, next) == Err::<int, IntErrorKind>(IntErrorKind::NegOverflow));
                    lemma_scan_prefix_err(neg, d, (k + 1 - start) as int);
                }
                return Err(IntErrorKind::NegOverflow);
            }
            acc = acc * 10 - dv;
        } else {
            if acc * 10 + dv > i32::MAX as i64 {
                proof {
                    assert(d.subrange(0, (k + 1 - start) as int) =~= next);
                    assert(scan_digits(neg, next) == Err::<int, IntErrorKind>(IntErrorKind::PosOverflow));
                    lemma_scan_prefix_err(neg, d, (k + 1 - start) as int);
                }
                return Err(IntErrorKind::PosOverflow);
            }
            acc = acc * 10 + dv;
        }
        k = k + 1;
    }
    assert(s@.subrange(start as int, b as int) =~= d);
    Ok(acc as i32)
}

/// An error met while reading a prefix of the digits is the error of the whole.
proof fn lemma_scan_prefix_err(neg: bool, d: Seq<char>, n: int)
    requires
        0 <= n <= d.len(),
        scan_digits(neg, d.subrange(0, n)) is Err,
    ensures
        scan_digits(neg, d) == scan_digits(neg, d.subrange(0, n)),
    decreases d.len() - n,
{
    if n < d.len() {
        let next = d.subrange(0, n + 1);
        assert(next.drop_last() =~= d.subrange(0, n));
        lemma_scan_prefix_err(neg, d, n + 1);
    } else {
        assert(d.subrange(0, n) =~= d);
    }
}


/// Appends the decimal digits of `n` to `out`.
fn push_decimal(out: &mut String, n: usize)
    ensures
        final(out)@ == old(out)@ + decimal(n as nat),
    decreases n,
{
    if n >= 10 {
        push_decimal(out, n / 10);
    }
    let d = n % 10;
    let digit: &str = if d == 0 {
        "0"
    } else if d == 1 {
        "1"
    } else if d == 2 {
        "2"
    } else if d == 3 {
        "3"
    } else if d == 4 {
        "4"
    } else if d == 5 {
        "5"
    } else if d == 6 {
        "6"
    } else if d == 7 {
        "7"
    } else if d == 8 {
        "8"
    } else {
        "9"
    };
    proof {
        reveal_strlit("0");
        reveal_strlit("1");
        reveal_strlit("2");
        reveal_strlit("3");
        reveal_strlit("4");
        reveal_strlit("5");
        reveal_strlit("6");
        reveal_strlit("7");
        reveal_strlit("8");
        reveal_strlit("9");
        assert(digit@ =~= seq![digit_char(d as int)]);
    }
    out.append(digit);
}

/// The texts that a list of character ranges of `s` covers.
pub open spec fn range_texts(s: Seq<char>, ranges: Seq<(usize, usize)>) -> Seq<Seq<char>> {
    Seq::new(ranges.len(), |i: int| s.subrange(ranges[i].0 as int, ranges[i].1 as int))
}

/// Splits `[lo, hi)` of `s` at each comma.
fn split_fields(s: &str, lo: usize, hi: usize) -> (r: Vec<(usize, usize)>)
    requires
        lo <= hi <= s@.len(),
    ensures
        forall|i: int| 0 <= i < r@.len() ==> lo <= #[trigger] r@[i].0 <= r@[i].1 <= hi,
        range_texts(s@, r@) == split_commas(s@.subrange(lo as int, hi as int)),
{
    let mut done: Vec<(usize, usize)> = Vec::new();
    let mut start = lo;
    let mut k = lo;
    assert(s@.subrange(lo as int, lo as int) =~= Seq::<char>::empty());
    assert(range_texts(s@, done@).push(s@.subrange(start as int, k as int)) =~= seq![Seq::<char>::empty()]);
    while k < hi
        invariant
            lo <= start <= k <= hi,
            hi <= s@.len(),
            forall|i: int| 0 <= i < done@.len() ==> lo <= #[trigger] done@[i].0 <= done@[i].1 <= start,
            split_commas(s@.subrange(lo as int, k as int)) == range_texts(s@, done@).push(
                s@.subrange(start as int, k as int),
            ),
        decreases hi - k,
    {
        let c = s.get_char(k);
        let ghost pre = s@.subrange(lo as int, k as int);
        let ghost next = s@.subrange(lo as int, k + 1);
        assert(next.drop_last() =~= pre);
        assert(next.last() == c);
        if c == ',' {
            let ghost old_done = done@;
            done.push((start, k));
            assert(range_texts(s@, done@) =~= range_texts(s@, old_done).push(s@.subrange(start as int, k as int)));
            start = k + 1;
            assert(s@.subrange(start as int, k + 1) =~= Seq::<char>::empty());
            assert forall|i: int| 0 <= i < done@.len() implies lo <= #[trigger] done@[i].0 <= done@[i].1 <= start by {
                if i < old_done.len() {
                    assert(done@[i] == old_done[i]);
                }
            }
        } else {
            assert(s@.subrange(start as int, k + 1) =~= s@.subrange(start as int, k as int).push(c));
        }
        k = k + 1;
        assert(split_commas(s@.subrange(lo as int, k as int)) =~= range_texts(s@, done@).push(
            s@.subrange(start as int, k as int),
        ));
    }
    let ghost before = done@;
    done.push((start, hi));
    assert(range_texts(s@, done@) =~= range_texts(s@, before).push(s@.subrange(start as int, hi as int)));
    done
}

/// Reads field `i` (the range `[a, b)` of `s`) as a decimal `i32`, white space
/// at either end allowed; an error names the field.
fn read_field(s: &str, a: usize, b: usize, i: usize) -> (r: Result<i32, String>)
    requires
        a <= b <= s@.len(),
        i < 6,
    ensures
        match r {
            Ok(v) => parse_int(trim(s@.subrange(a as int, b as int))) == Ok::<int, IntErrorKind>(
                v as int,
            ),
            Err(e) => parse_int(trim(s@.subrange(a as int, b as int))) is Err && e@ == "Failed to parse "@
                + field_name(i as int) + ": "@ + int_error_text(
                parse_int(trim(s@.subrange(a as int, b as int)))->Err_0,
            ),
        },
{
    let (lo, hi) = trim_range(s, a, b);
    match parse_field(s, lo, hi) {
        Ok(v) => Ok(v),
        Err(k) => {
            let mut e = String::from_str("Failed to parse ");
            let name: &str = if i == 0 {
                "pane_left"
            } else if i == 1 {
                "pane_top"
            } else if i == 2 {
                "pane_right"
            } else if i == 3 {
                "pane_bottom"
            } else if i == 4 {
                "window_width"
            } else {
                "window_height"
            };
            e.append(name);
            e.append(": ");
            let text: &str = match k {
                IntErrorKind::Empty => "cannot parse integer from empty string",
                IntErrorKind::InvalidDigit => "invalid digit found in string",
                IntErrorKind::PosOverflow => "number too large to fit in target type",
                IntErrorKind::NegOverflow => "number too small to fit in target type",
            };
            e.append(text);
            Err(e)
        },
    }
}

impl TmuxPaneInfo {
    /// A pane lies inside its window: non-negative origin, non-empty extent, and
    /// its last column and row inside the window.
    pub open spec fn valid(self) -> bool {
        &&& self.pane_left >= 0
        &&& self.pane_top >= 0
        &&& self.pane_right >= self.pane_left
        &&& self.pane_bottom >= self.pane_top
        &&& self.window_width > 0
        &&& self.window_height > 0
        &&& self.pane_right < self.window_width
        &&& self.pane_bottom < self.window_height
    }

    /// Width of the active pane in columns.
    pub fn pane_width(&self) -> (r: i32)
        requires
            i32::MIN <= self.pane_right - self.pane_left,
            self.pane_right - self.pane_left + 1 <= i32::MAX,
        ensures
            r == self.pane_right - self.pane_left + 1,
    {
        self.pane_right - self.pane_left + 1
    }

    /// Height of the active pane in rows.
    pub fn pane_height(&self) -> (r: i32)
        requires
            i32::MIN <= self.pane_bottom - self.pane_top,
            self.pane_bottom - self.pane_top + 1 <= i32::MAX,
        ensures
            r == self.pane_bottom - self.pane_top + 1,
    {
        self.pane_bottom - self.pane_top + 1
    }

    /// Whether the pane coordinates describe a pane inside its window.
    pub fn is_valid(&self) -> (r: bool)
        ensures
            r == self.valid(),
    {
        self.pane_left >= 0 && self.pane_top >= 0 && self.pane_right >= self.pane_left
            && self.pane_bottom >= self.pane_top && self.window_width > 0 && self.window_height > 0
            && self.pane_right < self.window_width && self.pane_bottom < self.window_height
    }

    /// Reads `left,top,right,bottom,window_width,window_height`, each a decimal
    /// integer; white space around the whole and around each field is allowed.
    pub fn parse(content: &str) -> (r: Result<Self, String>)
        ensures
            result_view(r) == parse_pane(content@),
    {
        let n = content.unicode_len();
        let (lo, hi) = trim_range(content, 0, n);
        assert(content@.subrange(0, n as int) =~= content@);
        let ghost t = trim(content@);
        let ghost parts = split_commas(t);
        if lo == hi {
            return Err(String::from_str("Empty content"));
        }
        let fields = split_fields(content, lo, hi);
        if fields.len() != 6 {
            let mut e = String::from_str("Expected 6 comma-separated values, got ");
            push_decimal(&mut e, fields.len());
            return Err(e);
        }
        assert(forall|i: int| 0 <= i < 6 ==> content@.subrange(fields@[i].0 as int, fields@[i].1 as int) == #[trigger] parts[i]);
        let pane_left = match read_field(content, fields[0].0, fields[0].1, 0) {
            Ok(v) => v,
            Err(e) => return Err(e),
        };
        let pane_top = match read_field(content, fields[1].0, fields[1].1, 1) {
            Ok(v) => v,
            Err(e) => return Err(e),
        };
        let pane_right = match read_field(content, fields[2].0, fields[2].1, 2) {
            Ok(v) => v,
            Err(e) => return Err(e),
        };
        let pane_bottom = match read_field(content, fields[3].0, fields[3].1, 3) {
            Ok(v) => v,
            Err(e) => return Err(e),
        };
        let window_width = match read_field(content, fields[4].0, fields[4].1, 4) {
            Ok(v) => v,
            Err(e) => return Err(e),
        };
        let window_height = match read_field(content, fields[5].0, fields[5].1, 5) {
            Ok(v) => v,
            Err(e) => return Err(e),
        };
        Ok(TmuxPaneInfo { pane_left, pane_top, pane_right, pane_bottom, window_width, window_height })
    }
}

} // verus!
