//! Which JSON paths the evaluator of `jsonpath_rust` can run to the end: a
//! scan of the path text for index groups that it cannot carry out (a zero
//! slice step, a union index that is not a non-negative `i64`, a single
//! index beyond `i64`).
use crate::text::{all_digits, is_digit, parse_i64, parse_i64_spec, push_char};
use vstd::prelude::*;

verus! {

/// Where a scan of path text stands with respect to quoted strings.
#[derive(Clone, Copy)]
pub enum QuoteScan {
    Plain,
    Quoted,
    Escaped,
}

/// Whether `c` is whitespace that JSON path syntax allows between tokens.
pub open spec fn is_path_space(c: char) -> bool {
    c == ' ' || c == '\t' || c == '\n' || c == '\r'
}

/// The rest `s` of a path text, read from scan state `q`, with every quoted
/// string shrunk to a single `'` and the whitespace outside quotes dropped.
pub open spec fn unquoted_from(s: Seq<char>, q: QuoteScan) -> Seq<char>
    decreases s.len(),
{
    if s.len() == 0 {
        Seq::empty()
    } else {
        let c = s[0];
        let rest = s.drop_first();
        match q {
            QuoteScan::Plain => if c == '\'' || c == '"' {
                seq!['\''] + unquoted_from(rest, QuoteScan::Quoted)
            } else if is_path_space(c) {
                unquoted_from(rest, QuoteScan::Plain)
            } else {
                seq![c] + unquoted_from(rest, QuoteScan::Plain)
            },
            QuoteScan::Quoted => if c == '\\' {
                unquoted_from(rest, QuoteScan::Escaped)
            } else if c == '\'' || c == '"' {
                unquoted_from(rest, QuoteScan::Plain)
            } else {
                unquoted_from(rest, QuoteScan::Quoted)
            },
            QuoteScan::Escaped => unquoted_from(rest, QuoteScan::Quoted),
        }
    }
}

/// The path text with quoted strings shrunk and whitespace dropped.
pub open spec fn unquoted(path: Seq<char>) -> Seq<char> {
    unquoted_from(path, QuoteScan::Plain)
}

/// Whether `t[i]` opens and `t[j]` closes a bracket group that holds no
/// other bracket.
pub open spec fn innermost_group(t: Seq<char>, i: int, j: int) -> bool {
    &&& 0 <= i < j < t.len()
    &&& t[i] == '['
    &&& t[j] == ']'
    &&& forall|k: int| i < k < j ==> t[k] != '[' && t[k] != ']'
}

/// Whether the slice group `g` ends in a step of zero (`a:b:0`).
pub open spec fn slice_step_zero(g: Seq<char>) -> bool {
    &&& g.len() >= 2
    &&& g[g.len() - 1] == '0'
    &&& g[g.len() - 2] == ':'
    &&& g.take(g.len() - 2).contains(':')
}

/// Whether `g[a..b]` is one of the comma-separated parts of `g`.
pub open spec fn comma_segment(g: Seq<char>, a: int, b: int) -> bool {
    &&& 0 <= a <= b <= g.len()
    &&& (a == 0 || g[a - 1] == ',')
    &&& (b == g.len() || g[b] == ',')
    &&& forall|k: int| a <= k < b ==> g[k] != ','
}

/// Whether a union index is read as a non-negative `i64`, as the
/// evaluator needs it to be.
pub open spec fn union_index_ok(p: Seq<char>) -> bool {
    parse_i64_spec(p) matches Some(v) && v >= 0
}

/// Whether every part of the union index group `g` is a usable index.
pub open spec fn union_ok(g: Seq<char>) -> bool {
    forall|a: int, b: int| #[trigger] comma_segment(g, a, b) ==> union_index_ok(g.subrange(a, b))
}

/// Whether the evaluator can carry out the (unquoted) bracket group `g`: a
/// group with a quoted key always; a slice unless its step is zero; a
/// union of indexes when each is a non-negative `i64`; a single index when
/// it is an `i64`.
pub open spec fn group_ok(g: Seq<char>) -> bool {
    if g.contains('\'') {
        true
    } else if g.contains(':') {
        !slice_step_zero(g)
    } else if g.contains(',') {
        union_ok(g)
    } else {
        (g.len() > 0 && all_digits(g)) ==> parse_i64_spec(g) is Some
    }
}

/// Whether the evaluator of `jsonpath_rust` can run `path` to the end:
/// every innermost bracket group outside quotes can be carried out. The
/// judgement is made on the text alone, so a group inside a filter counts
/// even where evaluation would not reach it.
pub open spec fn path_evaluable(path: Seq<char>) -> bool {
    let t = unquoted(path);
    forall|i: int, j: int| #[trigger] innermost_group(t, i, j) ==> group_ok(t.subrange(i + 1, j))
}

/// The characters of `path` with quoted strings shrunk and whitespace
/// dropped.
fn unquoted_chars(path: &str) -> (t: Vec<char>)
    ensures
        t@ == unquoted(path@),
{
    let n: usize = path.unicode_len();
    let mut t: Vec<char> = Vec::new();
    let mut q = QuoteScan::Plain;
    let mut i: usize = 0;
    assert(path@.skip(0) =~= path@);
    while i < n
        invariant
            n == path@.len(),
            i <= n,
            t@ + unquoted_from(path@.skip(i as int), q) == unquoted(path@),
        decreases n - i,
    {
        let c = path.get_char(i);
        let ghost rest = path@.skip(i as int);
        let ghost old_t = t@;
        assert(rest[0] == c);
        assert(rest.drop_first() =~= path@.skip(i + 1));
        match q {
            QuoteScan::Plain => {
                if c == '\'' || c == '"' {
                    t.push('\'');
                    q = QuoteScan::Quoted;
                    assert(old_t + (seq!['\''] + unquoted_from(path@.skip(i + 1), q)) =~= t@
                        + unquoted_from(path@.skip(i + 1), q));
                } else if c == ' ' || c == '\t' || c == '\n' || c == '\r' {
                } else {
                    t.push(c);
                    assert(old_t + (seq![c] + unquoted_from(path@.skip(i + 1), q)) =~= t@
                        + unquoted_from(path@.skip(i + 1), q));
                }
            },
            QuoteScan::Quoted => {
                if c == '\\' {
                    q = QuoteScan::Escaped;
                } else if c == '\'' || c == '"' {
                    q = QuoteScan::Plain;
                }
            },
            QuoteScan::Escaped => {
                q = QuoteScan::Quoted;
            },
        }
        i = i + 1;
    }
    assert(path@.skip(n as int).len() == 0);
    assert(t@ + Seq::<char>::empty() =~= t@);
    t
}

/// Whether `g` holds `c`.
fn has_char(g: &Vec<char>, c: char) -> (r: bool)
    ensures
        r == g@.contains(c),
{
    let mut i: usize = 0;
    while i < g.len()
        invariant
            i <= g@.len(),
            forall|k: int| 0 <= k < i ==> g@[k] != c,
        decreases g@.len() - i,
    {
        if g[i] == c {
            assert(g@[i as int] == c);
            return true;
        }
        i = i + 1;
    }
    false
}

/// `t[lo..hi]` as a vector of its own.
fn copy_range(t: &Vec<char>, lo: usize, hi: usize) -> (g: Vec<char>)
    requires
        lo <= hi <= t@.len(),
    ensures
        g@ == t@.subrange(lo as int, hi as int),
{
    let mut g: Vec<char> = Vec::new();
    let mut i: usize = lo;
    while i < hi
        invariant
            lo <= i <= hi <= t@.len(),
            g@ == t@.subrange(lo as int, i as int),
        decreases hi - i,
    {
        g.push(t[i]);
        i = i + 1;
        assert(g@ =~= t@.subrange(lo as int, i as int));
    }
    g
}

/// `g[lo..hi]` as a string.
fn range_string(g: &Vec<char>, lo: usize, hi: usize) -> (s: String)
    requires
        lo <= hi <= g@.len(),
    ensures
        s@ == g@.subrange(lo as int, hi as int),
{
    let mut s = String::new();
    let mut i: usize = lo;
    while i < hi
        invariant
            lo <= i <= hi <= g@.len(),
            s@ == g@.subrange(lo as int, i as int),
        decreases hi - i,
    {
        push_char(&mut s, g[i]);
        i = i + 1;
        assert(s@ =~= g@.subrange(lo as int, i as int));
    }
    s
}

/// Whether the slice group `g` ends in a step of zero.
fn step_is_zero(g: &Vec<char>) -> (r: bool)
    ensures
        r == slice_step_zero(g@),
{
    let n = g.len();
    if n < 2 || g[n - 1] != '0' || g[n - 2] != ':' {
        return false;
    }
    let head = copy_range(g, 0, n - 2);
    assert(head@ =~= g@.take(n - 2));
    has_char(&head, ':')
}

/// Whether the part `g[a..b]` of a union group is a usable index.
fn union_part_ok(g: &Vec<char>, a: usize, b: usize) -> (r: bool)
    requires
        a <= b <= g@.len(),
    ensures
        r == union_index_ok(g@.subrange(a as int, b as int)),
{
    let part = range_string(g, a, b);
    match parse_i64(part.as_str()) {
        Some(v) => v >= 0,
        None => false,
    }
}

/// Whether every part of the union index group `g` is a usable index.
fn union_indexes_ok(g: &Vec<char>) -> (r: bool)
    ensures
        r == union_ok(g@),
{
    let n = g.len();
    let mut start: usize = 0;
    let mut i: usize = 0;
    while i < n
        invariant
            n == g@.len(),
            start <= i <= n,
            start == 0 || g@[start - 1] == ',',
            forall|k: int| start <= k < i ==> g@[k] != ',',
            forall|a: int, b: int|
                #[trigger] comma_segment(g@, a, b) && b < i ==> union_index_ok(g@.subrange(a, b)),
        decreases n - i,
    {
        if g[i] == ',' {
            assert(comma_segment(g@, start as int, i as int));
            if !union_part_ok(g, start, i) {
                return false;
            }
            assert forall|a: int, b: int| #[trigger]
                comma_segment(g@, a, b) && b < i + 1 implies union_index_ok(g@.subrange(a, b)) by {
                if b == i {
                    if a < start {
                        assert(g@[start - 1] == ',');
                    }
                    if a > start {
                        assert(g@[a - 1] == ',');
                    }
                    assert(a == start);
                }
            }
            start = i + 1;
        }
        i = i + 1;
    }
    assert(comma_segment(g@, start as int, n as int));
    let last = union_part_ok(g, start, n);
    assert forall|a: int, b: int| #[trigger]
        comma_segment(g@, a, b) && b == n implies a == start by {
        if a < start {
            assert(g@[start - 1] == ',');
        }
        if a > start {
            assert(g@[a - 1] == ',');
        }
    }
    last
}

/// Whether every character of `g` is a decimal digit.
fn all_digit_chars(g: &Vec<char>) -> (r: bool)
    ensures
        r == all_digits(g@),
{
    let mut i: usize = 0;
    while i < g.len()
        invariant
            i <= g@.len(),
            forall|k: int| 0 <= k < i ==> is_digit(#[trigger] g@[k]),
        decreases g@.len() - i,
    {
        if !(g[i] >= '0' && g[i] <= '9') {
            assert(!is_digit(g@[i as int]));
            return false;
        }
        i = i + 1;
    }
    true
}

/// Whether the evaluator can carry out the bracket group `g`.
fn group_can_run(g: &Vec<char>) -> (r: bool)
    ensures
        r == group_ok(g@),
{
    if has_char(g, '\'') {
        true
    } else if has_char(g, ':') {
        !step_is_zero(g)
    } else if has_char(g, ',') {
        union_indexes_ok(g)
    } else {
        let n = g.len();
        if n == 0 {
            return true;
        }
        if !all_digit_chars(g) {
            return true;
        }
        let text = range_string(g, 0, n);
        assert(g@.subrange(0, n as int) =~= g@);
        parse_i64(text.as_str()).is_some()
    }
}

/// Whether the evaluator of `jsonpath_rust` can run `path` to the end.
pub fn json_path_evaluable(path: &str) -> (r: bool)
    ensures
        r == path_evaluable(path@),
{
    let t = unquoted_chars(path);
    let n = t.len();
    let mut open: Option<usize> = None;
    let mut i: usize = 0;
    while i < n
        invariant
            t@ == unquoted(path@),
            n == t@.len(),
            i <= n,
            open matches Some(o) ==> o < i && t@[o as int] == '[' && forall|k: int|
                o < k < i ==> t@[k] != '[' && t@[k] != ']',
            forall|o: int|
                0 <= o < i && #[trigger] t@[o] == '[' && (forall|k: int|
                    o < k < i ==> t@[k] != '[' && t@[k] != ']') ==> open == Some(o as usize),
            forall|a: int, b: int|
                #[trigger] innermost_group(t@, a, b) && b < i ==> group_ok(t@.subrange(a + 1, b)),
        decreases n - i,
    {
        let c = t[i];
        if c == '[' {
            open = Some(i);
        } else if c == ']' {
            match open {
                Some(o) => {
                    let g = copy_range(&t, o + 1, i);
                    assert(innermost_group(t@, o as int, i as int));
                    if !group_can_run(&g) {
                        return false;
                    }
                },
                None => {},
            }
            assert forall|a: int, b: int| #[trigger]
                innermost_group(t@, a, b) && b < i + 1 implies group_ok(t@.subrange(a + 1, b)) by {
                if b == i {
                    assert(t@[a] == '[');
                    assert(open == Some(a as usize));
                }
            }
            open = None;
        }
        i = i + 1;
    }
    true
}

} // verus!
