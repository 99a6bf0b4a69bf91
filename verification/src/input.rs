//! Reading a move choice out of lines of console text.
//!
//! A line chooses a move when, after leading and trailing whitespace is
//! dropped, what is left is a decimal number (an optional `+` or `-` sign
//! allowed) that a 32-bit signed integer can hold and whose value is 1 for
//! rock, 2 for paper or 3 for scissors. Any other such number is out of
//! range; anything else, a value beyond the 32-bit integers included, is no
//! number at all and invalid. Either way the line is discarded and the next
//! one is tried.

use vstd::prelude::*;

use crate::moves::Moves;

verus! {

/// How one line of input is read: a chosen move, a number outside 1..=3, or
/// no number at all.
#[derive(Clone, Copy, Debug, PartialEq, Eq, Structural)]
pub enum Selection {
    Chosen(Moves),
    OutOfRange,
    Invalid,
}

/// The whitespace that is stripped from both ends of an input line.
pub open spec fn is_space(c: char) -> bool {
    c == ' ' || c == '\t' || c == '\n' || c == '\r'
}

/// `s` without its leading whitespace.
pub open spec fn trim_start(s: Seq<char>) -> Seq<char>
    decreases s.len(),
{
    if s.len() > 0 && is_space(s[0]) {
        trim_start(s.drop_first())
    } else {
        s
    }
}

/// `s` without its trailing whitespace.
pub open spec fn trim_end(s: Seq<char>) -> Seq<char>
    decreases s.len(),
{
    if s.len() > 0 && is_space(s[s.len() - 1]) {
        trim_end(s.drop_last())
    } else {
        s
    }
}

/// `s` without whitespace at either end.
pub open spec fn trimmed(s: Seq<char>) -> Seq<char> {
    trim_end(trim_start(s))
}

/// A decimal digit.
pub open spec fn is_digit(c: char) -> bool {
    ('0' as u32) <= (c as u32) && (c as u32) <= ('9' as u32)
}

/// The value of one decimal digit.
pub open spec fn digit_val(c: char) -> int
    recommends
        is_digit(c),
{
    (c as u32) - ('0' as u32)
}

/// Every character of `s` is a decimal digit.
pub open spec fn all_digits(s: Seq<char>) -> bool {
    forall|k: int| 0 <= k < s.len() ==> is_digit(s[k])
}

/// The number a string of decimal digits names.
pub open spec fn digits_value(s: Seq<char>) -> int
    decreases s.len(),
{
    if s.len() == 0 {
        0
    } else {
        digits_value(s.drop_last()) * 10 + digit_val(s.last())
    }
}

/// The number an input line names, if it names one: the line is trimmed, an
/// optional leading sign is taken, and what remains must be one or more
/// decimal digits whose signed value a 32-bit integer can hold. A value
/// beyond that range names no number, as a 32-bit parse fails on it.
pub open spec fn selector_value(s: Seq<char>) -> Option<int> {
    let t = trimmed(s);
    let body = if t.len() > 0 && (t[0] == '+' || t[0] == '-') {
        t.drop_first()
    } else {
        t
    };
    if body.len() > 0 && all_digits(body) {
        let v = if t.len() > 0 && t[0] == '-' {
            -digits_value(body)
        } else {
            digits_value(body)
        };
        if i32::MIN <= v <= i32::MAX {
            Some(v)
        } else {
            None
        }
    } else {
        None
    }
}

/// How an input line is read: 1, 2 and 3 choose a move, another number is
/// out of range, and a line that names no number is invalid.
pub open spec fn selection_of(s: Seq<char>) -> Selection {
    match selector_value(s) {
        Some(v) => {
            if v == 1 {
                Selection::Chosen(Moves::Rock)
            } else if v == 2 {
                Selection::Chosen(Moves::Paper)
            } else if v == 3 {
                Selection::Chosen(Moves::Scissors)
            } else {
                Selection::OutOfRange
            }
        },
        None => Selection::Invalid,
    }
}

/// The move an input line chooses, if it chooses one.
pub open spec fn selector_of(s: Seq<char>) -> Option<Moves> {
    match selection_of(s) {
        Selection::Chosen(m) => Some(m),
        Selection::OutOfRange => None,
        Selection::Invalid => None,
    }
}

/// `digits_value` capped just above the magnitude of the most negative
/// 32-bit integer, which is all a bounded accumulator needs to keep of it.
spec fn capped(v: int) -> int {
    if v <= 2147483648 {
        v
    } else {
        2147483649
    }
}

/// When everything before position `i` is whitespace and `i` is the end or a
/// non-space, trimming from the start is exactly skipping to `i`.
proof fn lemma_trim_start_at(s: Seq<char>, i: int)
    requires
        0 <= i <= s.len(),
        forall|j: int| 0 <= j < i ==> is_space(s[j]),
        i == s.len() || !is_space(s[i]),
    ensures
        trim_start(s) =~= s.skip(i),
    decreases i,
{
    if i == 0 {
        assert(s.skip(0) =~= s);
    } else {
        let s1 = s.drop_first();
        assert forall|j: int| 0 <= j < i - 1 implies is_space(s1[j]) by {
            assert(s1[j] == s[j + 1]);
        }
        lemma_trim_start_at(s1, i - 1);
        assert(s1.skip(i - 1) =~= s.skip(i));
    }
}

/// When everything from position `j` on is whitespace and `j` is the start
/// or follows a non-space, trimming from the end is exactly keeping the
/// first `j` characters.
proof fn lemma_trim_end_at(s: Seq<char>, j: int)
    requires
        0 <= j <= s.len(),
        forall|k: int| j <= k < s.len() ==> is_space(s[k]),
        j == 0 || !is_space(s[j - 1]),
    ensures
        trim_end(s) =~= s.take(j),
    decreases s.len() - j,
{
    if j == s.len() {
        assert(s.take(j) =~= s);
    } else {
        assert(is_space(s[s.len() - 1]));
        let s1 = s.drop_last();
        assert forall|k: int| j <= k < s1.len() implies is_space(s1[k]) by {
            assert(s1[k] == s[k]);
        }
        lemma_trim_end_at(s1, j);
        assert(s1.take(j) =~= s.take(j));
    }
}

/// Whether `c` is whitespace that the selector reading strips.
fn is_space_char(c: char) -> (b: bool)
    ensures
        b == is_space(c),
{
    c == ' ' || c == '\t' || c == '\n' || c == '\r'
}

/// Whether the character of `line` at position `idx` is whitespace.
fn space_at(line: &str, idx: usize) -> (b: bool)
    requires
        idx < line@.len(),
    ensures
        b == is_space(line@[idx as int]),
{
    is_space_char(line.get_char(idx))
}

/// Read one line of input as a selector: trim it, then take it as a decimal
/// number choosing rock (1), paper (2) or scissors (3); report an
/// out-of-range number and a non-number each for what they are.
#[verifier::loop_isolation(false)]
pub fn read_selector(line: &str) -> (r: Selection)
    ensures
        r == selection_of(line@),
{
    let n: usize = line.unicode_len();

    // Skip the leading whitespace.
    let mut i: usize = 0;
    while i < n && space_at(line, i)
        invariant
            i <= n,
            forall|j: int| 0 <= j < i ==> is_space(line@[j]),
        decreases n - i,
    {
        i = i + 1;
    }

    // Step back over the trailing whitespace.
    let mut j: usize = n;
    while j > i && space_at(line, j - 1)
        invariant
            i <= j <= n,
            forall|k: int| j <= k < n ==> is_space(line@[k]),
        decreases j,
    {
        j = j - 1;
    }

    proof {
        lemma_trim_start_at(line@, i as int);
        let rest = line@.skip(i as int);
        assert forall|k: int| j - i <= k < rest.len() implies is_space(rest[k]) by {
            assert(rest[k] == line@[k + i]);
        }
        assert(j - i == 0 || !is_space(rest[j - i - 1]));
        lemma_trim_end_at(rest, j - i);
        assert(rest.take(j - i) =~= line@.subrange(i as int, j as int));
        assert(trimmed(line@) =~= line@.subrange(i as int, j as int));
    }

    // Step over one optional sign.
    let mut k: usize = i;
    let mut neg: bool = false;
    if k < j {
        let c0 = line.get_char(k);
        if c0 == '+' {
            k = k + 1;
        } else if c0 == '-' {
            k = k + 1;
            neg = true;
        }
    }
    let ghost body = line@.subrange(k as int, j as int);
    proof {
        let t = trimmed(line@);
        if k > i {
            assert(t[0] == '+' || t[0] == '-');
            assert(body =~= t.drop_first());
        } else {
            assert(body =~= t);
        }
        assert(neg == (t.len() > 0 && t[0] == '-'));
    }

    if k == j {
        // Nothing left: the line names no number.
        return Selection::Invalid;
    }

    // Read the digits, keeping no more of the value than telling a selector
    // from an out-of-range number and from a 32-bit overflow needs.
    let mut m: usize = k;
    let mut acc: u64 = 0;
    while m < j
        invariant
            n == line@.len(),
            k <= m <= j <= n,
            body == line@.subrange(k as int, j as int),
            forall|x: int| k <= x < m ==> is_digit(line@[x]),
            digits_value(line@.subrange(k as int, m as int)) >= 0,
            acc == capped(digits_value(line@.subrange(k as int, m as int))),
        decreases j - m,
    {
        let c = line.get_char(m);
        let cu: u32 = c as u32;
        if cu < 48 || cu > 57 {
            proof {
                assert(body[m - k] == line@[m as int]);
                assert(!is_digit(body[m - k]));
                assert(!all_digits(body));
                assert(selector_value(line@) is None);
            }
            return Selection::Invalid;
        }
        let d: u64 = (cu - 48) as u64;
        proof {
            let prefix = line@.subrange(k as int, m as int);
            let prefix1 = line@.subrange(k as int, m as int + 1);
            assert(prefix1.drop_last() =~= prefix);
            assert(prefix1.last() == line@[m as int]);
        }
        let v: u64 = acc * 10 + d;
        acc = if v >= 2147483649 {
            2147483649
        } else {
            v
        };
        m = m + 1;
    }

    proof {
        assert forall|x: int| 0 <= x < body.len() implies is_digit(body[x]) by {
            assert(body[x] == line@[x + k]);
        }
        assert(body == line@.subrange(k as int, j as int));
    }
    let ghost v = digits_value(body);

    if neg {
        // A negative number never chooses a move: it is out of range when a
        // 32-bit integer can hold it, and no number at all when none can.
        if acc <= 2147483648 {
            proof {
                assert(v == acc);
                assert(selector_value(line@) == Some(-v));
            }
            Selection::OutOfRange
        } else {
            proof {
                assert(v > 2147483648);
                assert(selector_value(line@) is None);
            }
            Selection::Invalid
        }
    } else if acc == 1 {
        Selection::Chosen(Moves::Rock)
    } else if acc == 2 {
        Selection::Chosen(Moves::Paper)
    } else if acc == 3 {
        Selection::Chosen(Moves::Scissors)
    } else if acc <= 2147483647 {
        proof {
            assert(v == acc);
            assert(selector_value(line@) == Some(v));
        }
        Selection::OutOfRange
    } else {
        proof {
            assert(v > 2147483647);
            assert(selector_value(line@) is None);
        }
        Selection::Invalid
    }
}

/// The move an input line chooses: 1 is rock, 2 is paper, 3 is scissors;
/// every other line chooses nothing.
pub fn parse_selector(line: &str) -> (r: Option<Moves>)
    ensures
        r == selector_of(line@),
{
    match read_selector(line) {
        Selection::Chosen(m) => Some(m),
        Selection::OutOfRange => None,
        Selection::Invalid => None,
    }
}

/// Run the input loop over lines given in advance: discard lines that choose
/// no move and return the first choice, with how many lines it took.
pub fn select_move(lines: &Vec<String>) -> (r: Option<(usize, Moves)>)
    ensures
        ({
            match r {
                Some(pair) => {
                    &&& pair.0 < lines@.len()
                    &&& selector_of(lines@[pair.0 as int]@) == Some(pair.1)
                    &&& forall|j: int| 0 <= j < pair.0 ==> selector_of(lines@[j]@) is None
                },
                None => forall|j: int| 0 <= j < lines@.len() ==> selector_of(lines@[j]@) is None,
            }
        }),
{
    let mut i: usize = 0;
    while i < lines.len()
        invariant
            i <= lines@.len(),
            forall|j: int| 0 <= j < i ==> selector_of(lines@[j]@) is None,
        decreases lines@.len() - i,
    {
        match parse_selector(lines[i].as_str()) {
            Some(m) => {
                return Some((i, m));
            },
            None => {},
        }
        i = i + 1;
    }
    None
}

} // verus!
