//! Choosing a display to capture: by a zero-based index or as the primary
//! one, from the monitors the platform reports.

use vstd::prelude::*;

use crate::client::capture::{validate_capture_dimensions, CaptureError};
use crate::text::{push_decimal, push_text, spec_decimal};

verus! {

/// A display as the platform reports it: its position in the list, its
/// bounds, and whether it is the primary one.
#[derive(Debug, Clone, Copy, PartialEq, Eq, Structural)]
pub struct MonitorBounds {
    pub index: usize,
    pub left: i32,
    pub top: i32,
    pub right: i32,
    pub bottom: i32,
    pub is_primary: bool,
}

/// Why no monitor was chosen.
#[derive(Debug, Clone, Copy, PartialEq, Eq, Structural)]
pub enum MonitorSelectError {
    NoPrimary,
    InvalidId,
    NotFound { index: usize },
}

/// `a - b` held to the `i32` range.
pub open spec fn sat_sub_i32(a: i32, b: i32) -> i32 {
    if a - b > i32::MAX {
        i32::MAX
    } else if a - b < i32::MIN {
        i32::MIN
    } else {
        (a - b) as i32
    }
}

fn saturating_sub_i32(a: i32, b: i32) -> (d: i32)
    ensures
        d == sat_sub_i32(a, b),
{
    let wide = a as i64 - b as i64;
    if wide > i32::MAX as i64 {
        i32::MAX
    } else if wide < i32::MIN as i64 {
        i32::MIN
    } else {
        wide as i32
    }
}

impl MonitorBounds {
    /// The monitor's width and height, which must both be positive.
    pub fn size(&self) -> (size: Result<(u32, u32), CaptureError>)
        ensures
            ({
                let w = sat_sub_i32(self.right, self.left);
                let h = sat_sub_i32(self.bottom, self.top);
                if w <= 0 || h <= 0 {
                    size == Err::<(u32, u32), CaptureError>(CaptureError::InvalidSize { width: w, height: h })
                } else {
                    size == Ok::<(u32, u32), CaptureError>((w as u32, h as u32))
                }
            }),
    {
        validate_capture_dimensions(
            saturating_sub_i32(self.right, self.left),
            saturating_sub_i32(self.bottom, self.top),
        )
    }
}

/// White space as `str::trim` counts it: the Unicode White_Space characters.
pub open spec fn is_white_space(c: char) -> bool {
    let u = c as u32;
    ||| 9 <= u <= 13
    ||| u == 32
    ||| u == 0x85
    ||| u == 0xA0
    ||| u == 0x1680
    ||| 0x2000 <= u <= 0x200A
    ||| u == 0x2028
    ||| u == 0x2029
    ||| u == 0x202F
    ||| u == 0x205F
    ||| u == 0x3000
}

pub open spec fn trim_start(s: Seq<char>) -> Seq<char>
    decreases s.len(),
{
    if s.len() > 0 && is_white_space(s[0]) {
        trim_start(s.drop_first())
    } else {
        s
    }
}

pub open spec fn trim_end(s: Seq<char>) -> Seq<char>
    decreases s.len(),
{
    if s.len() > 0 && is_white_space(s.last()) {
        trim_end(s.drop_last())
    } else {
        s
    }
}

pub open spec fn trimmed(s: Seq<char>) -> Seq<char> {
    trim_end(trim_start(s))
}

/// The code of a character with ASCII capitals taken to small letters.
pub open spec fn ascii_lower(c: char) -> u32 {
    if 'A' <= c <= 'Z' {
        ((c as u32) + 32) as u32
    } else {
        c as u32
    }
}

pub open spec fn eq_ignore_ascii_case(a: Seq<char>, b: Seq<char>) -> bool {
    &&& a.len() == b.len()
    &&& forall|i: int| 0 <= i < a.len() ==> ascii_lower(#[trigger] a[i]) == ascii_lower(b[i])
}

pub open spec fn is_digit(c: char) -> bool {
    '0' <= c <= '9'
}

pub open spec fn digits_value(s: Seq<char>) -> nat
    decreases s.len(),
{
    if s.len() == 0 {
        0
    } else {
        digits_value(s.drop_last()) * 10 + ((s.last() as nat) - ('0' as nat)) as nat
    }
}

/// The digits of an unsigned number: what follows a leading `+`.
pub open spec fn unsigned_digits(s: Seq<char>) -> Seq<char> {
    if s.len() > 0 && s[0] == '+' {
        s.drop_first()
    } else {
        s
    }
}

pub open spec fn all_digits(s: Seq<char>) -> bool {
    forall|i: int| 0 <= i < s.len() ==> is_digit(#[trigger] s[i])
}

/// A `usize` as `str::parse` reads it: an optional `+`, then one or more
/// decimal digits whose value fits.
pub open spec fn parse_usize(s: Seq<char>) -> Option<usize> {
    let body = unsigned_digits(s);
    if body.len() > 0 && all_digits(body) && digits_value(body) <= usize::MAX {
        Some(digits_value(body) as usize)
    } else {
        None
    }
}

pub open spec fn first_primary(monitors: Seq<MonitorBounds>) -> Option<int> {
    if exists|i: int| 0 <= i < monitors.len() && #[trigger] monitors[i].is_primary {
        Some(choose|i: int| 0 <= i < monitors.len() && monitors[i].is_primary && forall|j: int| 0 <= j < i ==> !#[trigger] monitors[j].is_primary)
    } else {
        None
    }
}

pub open spec fn first_with_index(monitors: Seq<MonitorBounds>, index: usize) -> Option<int> {
    if exists|i: int| 0 <= i < monitors.len() && #[trigger] monitors[i].index == index {
        Some(choose|i: int| 0 <= i < monitors.len() && monitors[i].index == index && forall|j: int| 0 <= j < i ==> #[trigger] monitors[j].index != index)
    } else {
        None
    }
}

/// The monitor an id names: the id, trimmed, is `primary` in any ASCII case
/// for the first primary monitor, or else a display index.
pub open spec fn spec_select_monitor(monitors: Seq<MonitorBounds>, id: Seq<char>) -> Result<MonitorBounds, MonitorSelectError> {
    let t = trimmed(id);
    if eq_ignore_ascii_case(t, "primary"@) {
        match first_primary(monitors) {
            Some(i) => Ok(monitors[i]),
            None => Err(MonitorSelectError::NoPrimary),
        }
    } else {
        match parse_usize(t) {
            None => Err(MonitorSelectError::InvalidId),
            Some(n) => match first_with_index(monitors, n) {
                Some(i) => Ok(monitors[i]),
                None => Err(MonitorSelectError::NotFound { index: n }),
            },
        }
    }
}

proof fn lemma_first_is_unique(monitors: Seq<MonitorBounds>, k: int)
    requires
        0 <= k < monitors.len(),
        monitors[k].is_primary,
        forall|j: int| 0 <= j < k ==> !#[trigger] monitors[j].is_primary,
    ensures
        first_primary(monitors) == Some(k),
{
    let i = choose|i: int| 0 <= i < monitors.len() && monitors[i].is_primary && forall|j: int| 0 <= j < i ==> !#[trigger] monitors[j].is_primary;
    if i < k {
        assert(!monitors[i].is_primary);
    }
    if k < i {
        assert(!monitors[k].is_primary);
    }
}

proof fn lemma_first_index_is_unique(monitors: Seq<MonitorBounds>, index: usize, k: int)
    requires
        0 <= k < monitors.len(),
        monitors[k].index == index,
        forall|j: int| 0 <= j < k ==> #[trigger] monitors[j].index != index,
    ensures
        first_with_index(monitors, index) == Some(k),
{
    let i = choose|i: int| 0 <= i < monitors.len() && monitors[i].index == index && forall|j: int| 0 <= j < i ==> #[trigger] monitors[j].index != index;
    if i < k {
        assert(monitors[i].index != index);
    }
    if k < i {
        assert(monitors[k].index != index);
    }
}

fn chars_of(s: &str) -> (chars: Vec<char>)
    ensures
        chars@ == s@,
{
    let mut chars: Vec<char> = Vec::new();
    for c in it: s.chars()
        invariant
            it.seq() == s@,
            chars@ == s@.take(it.index() as int),
    {
        chars.push(c);
        assert(chars@ =~= s@.take(it.index() + 1));
    }
    assert(s@.take(s@.len() as int) =~= s@);
    chars
}

fn white_space(c: char) -> (ws: bool)
    ensures
        ws == is_white_space(c),
{
    let u = c as u32;
    (9 <= u && u <= 13) || u == 32 || u == 0x85 || u == 0xA0 || u == 0x1680 || (0x2000 <= u && u
        <= 0x200A) || u == 0x2028 || u == 0x2029 || u == 0x202F || u == 0x205F || u == 0x3000
}

proof fn lemma_trim_start_skip(s: Seq<char>, i: int)
    requires
        0 <= i <= s.len(),
        forall|j: int| 0 <= j < i ==> is_white_space(#[trigger] s[j]),
    ensures
        trim_start(s) == trim_start(s.subrange(i, s.len() as int)),
    decreases i,
{
    if i > 0 {
        assert(s.subrange(1, s.len() as int) =~= s.drop_first());
        lemma_trim_start_skip(s.drop_first(), i - 1);
        assert(s.drop_first().subrange(i - 1, s.drop_first().len() as int) =~= s.subrange(i, s.len() as int));
    } else {
        assert(s.subrange(0, s.len() as int) =~= s);
    }
}

proof fn lemma_trim_end_cut(s: Seq<char>, e: int)
    requires
        0 <= e <= s.len(),
        forall|j: int| e <= j < s.len() ==> is_white_space(#[trigger] s[j]),
    ensures
        trim_end(s) == trim_end(s.subrange(0, e)),
    decreases s.len() - e,
{
    if e < s.len() {
        assert(s.drop_last() =~= s.subrange(0, s.len() - 1));
        assert(is_white_space(s[s.len() - 1]));
        lemma_trim_end_cut(s.drop_last(), e);
        assert(s.drop_last().subrange(0, e) =~= s.subrange(0, e));
    } else {
        assert(s.subrange(0, e) =~= s);
    }
}

/// The chars of `s` with white space cut from both ends.
fn trim_chars(s: &Vec<char>) -> (t: Vec<char>)
    ensures
        t@ == trimmed(s@),
{
    let mut start: usize = 0;
    while start < s.len() && white_space(s[start])
        invariant
            0 <= start <= s@.len(),
            forall|j: int| 0 <= j < start ==> is_white_space(#[trigger] s@[j]),
        decreases s@.len() - start,
    {
        start += 1;
    }
    proof {
        lemma_trim_start_skip(s@, start as int);
    }
    let ghost rest = s@.subrange(start as int, s@.len() as int);
    assert(trim_start(rest) == rest);
    let mut end: usize = s.len();
    while end > start && white_space(s[end - 1])
        invariant
            start <= end <= s@.len(),
            forall|j: int| end <= j < s@.len() ==> is_white_space(#[trigger] s@[j]),
        decreases end - start,
    {
        end -= 1;
    }
    proof {
        lemma_trim_end_cut(rest, end - start);
        assert forall|j: int| end - start <= j < rest.len() implies is_white_space(#[trigger] rest[j]) by {
            assert(rest[j] == s@[start + j]);
        }
        assert(rest.subrange(0, end - start) =~= s@.subrange(start as int, end as int));
        let cut = s@.subrange(start as int, end as int);
        if cut.len() > 0 {
            assert(cut.last() == s@[end - 1]);
        }
    }
    let mut t: Vec<char> = Vec::new();
    let mut i: usize = start;
    while i < end
        invariant
            start <= i <= end,
            end <= s@.len(),
            t@ == s@.subrange(start as int, i as int),
        decreases end - i,
    {
        t.push(s[i]);
        i += 1;
        assert(t@ =~= s@.subrange(start as int, i as int));
    }
    t
}

fn lower_ascii(c: char) -> (l: u32)
    ensures
        l == ascii_lower(c),
{
    if 'A' <= c && c <= 'Z' {
        c as u32 + 32
    } else {
        c as u32
    }
}

fn is_primary_word(t: &Vec<char>) -> (primary: bool)
    ensures
        primary == eq_ignore_ascii_case(t@, "primary"@),
{
    let word: Vec<char> = vec!['p', 'r', 'i', 'm', 'a', 'r', 'y'];
    proof {
        reveal_strlit("primary");
        assert(word@ =~= "primary"@);
    }
    if t.len() != word.len() {
        return false;
    }
    let mut i: usize = 0;
    while i < t.len()
        invariant
            t@.len() == word@.len(),
            word@ == "primary"@,
            0 <= i <= t@.len(),
            forall|j: int| 0 <= j < i ==> ascii_lower(#[trigger] t@[j]) == ascii_lower(word@[j]),
        decreases t@.len() - i,
    {
        if lower_ascii(t[i]) != lower_ascii(word[i]) {
            return false;
        }
        i += 1;
    }
    true
}

fn parse_index(t: &Vec<char>) -> (n: Option<usize>)
    ensures
        n == parse_usize(t@),
{
    let ghost body = unsigned_digits(t@);
    let start: usize = if t.len() > 0 && t[0] == '+' { 1 } else { 0 };
    assert(body =~= t@.subrange(start as int, t@.len() as int));
    if start == t.len() {
        return None;
    }
    let mut value: usize = 0;
    let mut i: usize = start;
    while i < t.len()
        invariant
            start <= i <= t@.len(),
            start < t@.len(),
            body == t@.subrange(start as int, t@.len() as int),
            body == unsigned_digits(t@),
            forall|j: int| start <= j < i ==> is_digit(#[trigger] t@[j]),
            value == digits_value(t@.subrange(start as int, i as int)),
        decreases t@.len() - i,
    {
        let c = t[i];
        if !('0' <= c && c <= '9') {
            proof {
                assert(body[i - start] == c);
                assert(!is_digit(body[i - start]));
                assert(!all_digits(body));
            }
            return None;
        }
        let d = (c as u32 - '0' as u32) as usize;
        proof {
            let next = t@.subrange(start as int, i + 1);
            assert(next.drop_last() =~= t@.subrange(start as int, i as int));
            assert(next.last() == c);
        }
        if value > (usize::MAX - d) / 10 {
            proof {
                let next = t@.subrange(start as int, i + 1);
                assert(digits_value(next) > usize::MAX) by (nonlinear_arith)
                    requires
                        digits_value(next) == value * 10 + d,
                        value > (usize::MAX - d) / 10,
                        d <= 9,
                ;
                assert(t@.subrange(start as int, t@.len() as int).subrange(0, i + 1 - start) =~= next);
                if all_digits(body) {
                    lemma_digits_grow(body, i + 1 - start);
                }
            }
            return None;
        }
        value = value * 10 + d;
        i += 1;
    }
    proof {
        assert(t@.subrange(start as int, i as int) =~= body);
        assert forall|j: int| 0 <= j < body.len() implies is_digit(#[trigger] body[j]) by {
            assert(body[j] == t@[start + j]);
        }
        assert(all_digits(body));
    }
    Some(value)
}

/// Reading more digits never makes the value smaller.
proof fn lemma_digits_grow(s: Seq<char>, k: int)
    requires
        0 <= k <= s.len(),
        forall|j: int| 0 <= j < s.len() ==> is_digit(#[trigger] s[j]),
    ensures
        digits_value(s) >= digits_value(s.subrange(0, k)),
    decreases s.len() - k,
{
    if k < s.len() {
        lemma_digits_grow(s, k + 1);
        let longer = s.subrange(0, k + 1);
        assert(longer.drop_last() =~= s.subrange(0, k));
    } else {
        assert(s.subrange(0, k) =~= s);
    }
}

/// Picks the monitor an id names; see `spec_select_monitor`.
pub fn select_monitor(monitors: &[MonitorBounds], id: &str) -> (chosen: Result<MonitorBounds, MonitorSelectError>)
    ensures
        chosen == spec_select_monitor(monitors@, id@),
{
    let chars = chars_of(id);
    let t = trim_chars(&chars);
    assert(t@ == trimmed(id@));
    if is_primary_word(&t) {
        assert(eq_ignore_ascii_case(trimmed(id@), "primary"@));
        let mut i: usize = 0;
        while i < monitors.len()
            invariant
                0 <= i <= monitors@.len(),
                eq_ignore_ascii_case(trimmed(id@), "primary"@),
                forall|j: int| 0 <= j < i ==> !#[trigger] monitors@[j].is_primary,
            decreases monitors@.len() - i,
        {
            if monitors[i].is_primary {
                proof {
                    lemma_first_is_unique(monitors@, i as int);
                }
                return Ok(monitors[i]);
            }
            i += 1;
        }
        return Err(MonitorSelectError::NoPrimary);
    }
    match parse_index(&t) {
        None => Err(MonitorSelectError::InvalidId),
        Some(n) => {
            let mut i: usize = 0;
            while i < monitors.len()
                invariant
                    0 <= i <= monitors@.len(),
                    !eq_ignore_ascii_case(trimmed(id@), "primary"@),
                    parse_usize(trimmed(id@)) == Some(n),
                    forall|j: int| 0 <= j < i ==> #[trigger] monitors@[j].index != n,
                decreases monitors@.len() - i,
            {
                if monitors[i].index == n {
                    proof {
                        lemma_first_index_is_unique(monitors@, n, i as int);
                    }
                    return Ok(monitors[i]);
                }
                i += 1;
            }
            Err(MonitorSelectError::NotFound { index: n })
        },
    }
}

/// One monitor in a list of indexes: its index, marked when primary.
pub open spec fn index_entry(m: MonitorBounds) -> Seq<char> {
    spec_decimal(m.index as nat) + if m.is_primary {
        " (primary)"@
    } else {
        Seq::empty()
    }
}

pub open spec fn index_entries(monitors: Seq<MonitorBounds>) -> Seq<char>
    decreases monitors.len(),
{
    if monitors.len() <= 1 {
        if monitors.len() == 0 {
            Seq::empty()
        } else {
            index_entry(monitors[0])
        }
    } else {
        index_entries(monitors.drop_last()) + ", "@ + index_entry(monitors.last())
    }
}

/// The indexes on offer, comma separated, or `none`.
pub fn monitor_index_list(monitors: &[MonitorBounds]) -> (text: String)
    ensures
        text@ == if monitors@.len() == 0 {
            "none"@
        } else {
            index_entries(monitors@)
        },
{
    if monitors.len() == 0 {
        return "none".to_owned();
    }
    let mut text = String::new();
    let mut i: usize = 0;
    while i < monitors.len()
        invariant
            0 <= i <= monitors@.len(),
            monitors@.len() > 0,
            text@ == index_entries(monitors@.take(i as int)),
        decreases monitors@.len() - i,
    {
        let ghost before = text@;
        if i > 0 {
            push_text(&mut text, ", ");
        }
        push_decimal(&mut text, monitors[i].index as u64);
        if monitors[i].is_primary {
            push_text(&mut text, " (primary)");
        }
        proof {
            let next = monitors@.take(i + 1);
            assert(next.drop_last() =~= monitors@.take(i as int));
            assert(next.last() == monitors@[i as int]);
            if i == 0 {
                assert(before == Seq::<char>::empty());
                assert(text@ =~= index_entry(monitors@[0]));
            } else {
                assert(text@ =~= before + ", "@ + index_entry(monitors@[i as int]));
            }
        }
        i += 1;
    }
    assert(monitors@.take(i as int) =~= monitors@);
    text
}

} // verus!
