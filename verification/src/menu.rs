//! The line-oriented menus of the demo programs: what a line typed at the
//! menu selects, after surrounding white space is removed.
use vstd::prelude::*;

verus! {

/// The Unicode `White_Space` property, which `char::is_whitespace` and
/// `str::trim` go by.
pub open spec fn is_white_space(c: char) -> bool {
    let v = c as u32;
    ||| 0x9 <= v <= 0xd
    ||| v == 0x20
    ||| v == 0x85
    ||| v == 0xa0
    ||| v == 0x1680
    ||| 0x2000 <= v <= 0x200a
    ||| v == 0x2028
    ||| v == 0x2029
    ||| v == 0x202f
    ||| v == 0x205f
    ||| v == 0x3000
}

/// Whether `c` is white space.
pub fn white_space(c: char) -> (r: bool)
    ensures
        r == is_white_space(c),
{
    let v = c as u32;
    (0x9 <= v && v <= 0xd) || v == 0x20 || v == 0x85 || v == 0xa0 || v == 0x1680 || (0x2000 <= v
        && v <= 0x200a) || v == 0x2028 || v == 0x2029 || v == 0x202f || v == 0x205f || v == 0x3000
}

/// `s` without its leading white space.
pub open spec fn trim_start_text(s: Seq<char>) -> Seq<char>
    decreases s.len(),
{
    if s.len() > 0 && is_white_space(s[0]) {
        trim_start_text(s.drop_first())
    } else {
        s
    }
}

/// `s` without its trailing white space.
pub open spec fn trim_end_text(s: Seq<char>) -> Seq<char>
    decreases s.len(),
{
    if s.len() > 0 && is_white_space(s.last()) {
        trim_end_text(s.drop_last())
    } else {
        s
    }
}

/// `s` without leading and trailing white space.
pub open spec fn trim_text(s: Seq<char>) -> Seq<char> {
    trim_end_text(trim_start_text(s))
}

proof fn lemma_trim_start_skip(s: Seq<char>, k: int)
    requires
        0 <= k < s.len(),
        is_white_space(s[k]),
    ensures
        trim_start_text(s.subrange(k, s.len() as int)) == trim_start_text(
            s.subrange(k + 1, s.len() as int),
        ),
{
    assert(s.subrange(k, s.len() as int).drop_first() =~= s.subrange(k + 1, s.len() as int));
}

proof fn lemma_trim_end_skip(s: Seq<char>, lo: int, hi: int)
    requires
        0 <= lo < hi <= s.len(),
        is_white_space(s[hi - 1]),
    ensures
        trim_end_text(s.subrange(lo, hi)) == trim_end_text(s.subrange(lo, hi - 1)),
{
    assert(s.subrange(lo, hi).drop_last() =~= s.subrange(lo, hi - 1));
}

/// `line` without leading and trailing white space.
pub fn trim(line: &str) -> (r: &str)
    ensures
        r@ == trim_text(line@),
{
    let n = line.unicode_len();
    let mut lo: usize = 0;
    assert(line@.subrange(0, n as int) =~= line@);
    while lo < n && white_space(line.get_char(lo))
        invariant
            lo <= n,
            n == line@.len(),
            trim_start_text(line@) == trim_start_text(line@.subrange(lo as int, n as int)),
        decreases n - lo,
    {
        proof {
            lemma_trim_start_skip(line@, lo as int);
        }
        lo = lo + 1;
    }
    assert(trim_start_text(line@) == line@.subrange(lo as int, n as int)) by {
        if lo < n {
            assert(line@.subrange(lo as int, n as int)[0] == line@[lo as int]);
        }
    }
    let mut hi: usize = n;
    while hi > lo && white_space(line.get_char(hi - 1))
        invariant
            lo <= hi <= n,
            n == line@.len(),
            trim_text(line@) == trim_end_text(line@.subrange(lo as int, hi as int)),
        decreases hi - lo,
    {
        proof {
            lemma_trim_end_skip(line@, lo as int, hi as int);
        }
        hi = hi - 1;
    }
    assert(trim_text(line@) == line@.subrange(lo as int, hi as int)) by {
        if lo < hi {
            assert(line@.subrange(lo as int, hi as int).last() == line@[hi - 1]);
        }
    }
    line.substring_char(lo, hi)
}

proof fn lemma_trim_start_shape(s: Seq<char>)
    ensures
        trim_start_text(s).len() > 0 ==> !is_white_space(trim_start_text(s)[0]),
        trim_start_text(s).len() <= s.len(),
    decreases s.len(),
{
    if s.len() > 0 && is_white_space(s[0]) {
        lemma_trim_start_shape(s.drop_first());
    }
}

proof fn lemma_trim_end_shape(s: Seq<char>)
    ensures
        trim_end_text(s).len() <= s.len(),
        trim_end_text(s) == s.subrange(0, trim_end_text(s).len() as int),
        trim_end_text(s).len() > 0 ==> !is_white_space(trim_end_text(s).last()),
    decreases s.len(),
{
    if s.len() > 0 && is_white_space(s.last()) {
        lemma_trim_end_shape(s.drop_last());
        let t = trim_end_text(s.drop_last());
        assert(s.drop_last().subrange(0, t.len() as int) =~= s.subrange(0, t.len() as int));
    } else {
        assert(s.subrange(0, s.len() as int) =~= s);
    }
}

/// Trimming twice is trimming once: a line that has been trimmed has no
/// white space left at either end, so the menus read `"  2 \n"` exactly as
/// they read `"2"`.
pub proof fn law_trim_idempotent(s: Seq<char>)
    ensures
        trim_text(trim_text(s)) == trim_text(s),
{
    let a = trim_start_text(s);
    let t = trim_end_text(a);
    lemma_trim_start_shape(s);
    lemma_trim_end_shape(a);
    if t.len() > 0 {
        assert(t[0] == a[0]);
        assert(trim_start_text(t) == t);
        assert(trim_end_text(t) == t);
    } else {
        assert(trim_start_text(t) == t);
        assert(trim_end_text(t) == t);
    }
}

/// The menu decision for a line is the decision for its trimmed text.
pub proof fn law_menu_reads_trimmed_line(bytes_read: usize, line: Seq<char>, demo_count: u32)
    ensures
        menu_decision(bytes_read, line, demo_count) == menu_decision(bytes_read, trim_text(line), demo_count),
{
    law_trim_idempotent(line);
}

/// What a line typed at a demo menu asks for.
#[derive(Clone, Copy, Debug, PartialEq, Eq, Structural)]
pub enum MenuAction {
    /// Input has ended: leave without a word.
    EndOfInput,
    /// `q` or `Q`: say goodbye and leave.
    Quit,
    /// Run the demo with this number (counted from 1).
    Run(u32),
    /// Anything else: report an unknown option.
    Unknown,
}

/// The decision for a line of `bytes_read` bytes whose text is `line`, at a
/// menu offering demos `1` to `demo_count`.
pub open spec fn menu_decision(bytes_read: usize, line: Seq<char>, demo_count: u32) -> MenuAction {
    let t = trim_text(line);
    if bytes_read == 0 {
        MenuAction::EndOfInput
    } else if t == seq!['q'] || t == seq!['Q'] {
        MenuAction::Quit
    } else if t.len() == 1 && '1' <= t[0] <= '9' && (t[0] as u32) - ('0' as u32) <= demo_count {
        MenuAction::Run(((t[0] as u32) - ('0' as u32)) as u32)
    } else {
        MenuAction::Unknown
    }
}

/// What the line read at a demo menu selects; `bytes_read` is the number of
/// bytes the read returned, 0 at the end of input.
pub fn menu_action(bytes_read: usize, line: &str, demo_count: u32) -> (r: MenuAction)
    requires
        demo_count <= 9,
    ensures
        r == menu_decision(bytes_read, line@, demo_count),
{
    if bytes_read == 0 {
        return MenuAction::EndOfInput;
    }
    let t = trim(line);
    if t.unicode_len() != 1 {
        proof {
            assert(t@ != seq!['q'] && t@ != seq!['Q']);
        }
        return MenuAction::Unknown;
    }
    let c = t.get_char(0);
    if c == 'q' || c == 'Q' {
        assert(t@ =~= seq![c]);
        return MenuAction::Quit;
    }
    assert(t@ != seq!['q'] && t@ != seq!['Q']) by {
        if t@ == seq!['q'] || t@ == seq!['Q'] {
            assert(t@[0] == c);
        }
    }
    let v = c as u32;
    if '1' as u32 <= v && v <= '9' as u32 && v - ('0' as u32) <= demo_count {
        MenuAction::Run(v - ('0' as u32))
    } else {
        MenuAction::Unknown
    }
}

/// How a line is read, case by case: at the end of input nothing is read;
/// otherwise a line whose trimmed text is a single `q` or `Q` quits, one
/// whose trimmed text is a single digit from `1` to `demo_count` runs that
/// demo, and every other line is unknown.
pub proof fn law_menu_cases(bytes_read: usize, line: Seq<char>, demo_count: u32, c: char)
    requires
        demo_count <= 9,
    ensures
        bytes_read == 0 ==> menu_decision(bytes_read, line, demo_count) == MenuAction::EndOfInput,
        bytes_read > 0 && (trim_text(line) == seq!['q'] || trim_text(line) == seq!['Q'])
            ==> menu_decision(bytes_read, line, demo_count) == MenuAction::Quit,
        bytes_read > 0 && trim_text(line) == seq![c] && '1' <= c <= '9' && (c as u32) - 48
            <= demo_count ==> menu_decision(bytes_read, line, demo_count) == MenuAction::Run(
            ((c as u32) - 48) as u32,
        ),
        bytes_read > 0 && trim_text(line) != seq!['q'] && trim_text(line) != seq!['Q'] && !(exists|
            d: char,
        |
            trim_text(line) == seq![d] && '1' <= d <= '9' && (d as u32) - 48 <= demo_count)
            ==> menu_decision(bytes_read, line, demo_count) == MenuAction::Unknown,
{
    if bytes_read > 0 && trim_text(line) == seq![c] {
        assert(trim_text(line)[0] == c);
    }
    let t = trim_text(line);
    if bytes_read > 0 && t != seq!['q'] && t != seq!['Q'] && t.len() == 1 && '1' <= t[0] <= '9'
        && (t[0] as u32) - ('0' as u32) <= demo_count {
        assert(t == seq![t[0]]);
    }
}

/// A trimmed line has no white space at either end, and it is what is left
/// of the line once white space at both ends is removed: the line is some
/// white space, then the trimmed text, then some white space.
pub proof fn law_trim_shape(s: Seq<char>)
    ensures
        trim_text(s).len() > 0 ==> !is_white_space(trim_text(s)[0]) && !is_white_space(
            trim_text(s).last(),
        ),
        exists|a: int|
            0 <= a && a + trim_text(s).len() <= s.len() && #[trigger] s.subrange(a, a + trim_text(s).len())
                == trim_text(s) && (forall|i: int| 0 <= i < a ==> is_white_space(#[trigger] s[i]))
                && (forall|i: int|
                a + trim_text(s).len() <= i < s.len() ==> is_white_space(#[trigger] s[i])),
{
    lemma_trim_start_split(s);
    let a = s.len() - trim_start_text(s).len();
    let u = trim_start_text(s);
    lemma_trim_end_shape(u);
    lemma_trim_end_tail(u);
    lemma_trim_start_shape(s);
    let t = trim_text(s);
    if t.len() > 0 {
        assert(t[0] == u[0]);
    }
    assert(s.subrange(a, a + t.len()) =~= t) by {
        assert forall|i: int| 0 <= i < t.len() implies s.subrange(a, a + t.len())[i] == t[i] by {
            assert(t[i] == u[i]);
            assert(u[i] == s[a + i]);
        }
    }
    assert forall|i: int| a + t.len() <= i < s.len() implies is_white_space(#[trigger] s[i]) by {
        assert(s[i] == u[i - a]);
    }
    assert(0 <= a && a + t.len() <= s.len());
}

proof fn lemma_trim_start_split(s: Seq<char>)
    ensures
        trim_start_text(s) == s.subrange(s.len() - trim_start_text(s).len(), s.len() as int),
        forall|i: int| 0 <= i < s.len() - trim_start_text(s).len() ==> is_white_space(#[trigger] s[i]),
    decreases s.len(),
{
    if s.len() > 0 && is_white_space(s[0]) {
        let d = s.drop_first();
        lemma_trim_start_split(d);
        lemma_trim_start_shape(d);
        assert(trim_start_text(s) == trim_start_text(d));
        let k = s.len() - trim_start_text(s).len();
        assert(d.subrange(d.len() - trim_start_text(d).len(), d.len() as int) =~= s.subrange(k, s.len() as int));
        assert forall|i: int| 0 <= i < k implies is_white_space(#[trigger] s[i]) by {
            if i > 0 {
                assert(s[i] == d[i - 1]);
            }
        }
    } else {
        assert(s.subrange(0, s.len() as int) =~= s);
    }
}

proof fn lemma_trim_end_tail(s: Seq<char>)
    ensures
        forall|i: int| trim_end_text(s).len() <= i < s.len() ==> is_white_space(#[trigger] s[i]),
    decreases s.len(),
{
    if s.len() > 0 && is_white_space(s.last()) {
        let d = s.drop_last();
        lemma_trim_end_tail(d);
        assert forall|i: int| trim_end_text(s).len() <= i < s.len() implies is_white_space(#[trigger] s[i]) by {
            if i < s.len() - 1 {
                assert(s[i] == d[i]);
            }
        }
    }
}

/// Whether a prompt was answered: a read of 0 bytes means input has ended
/// and the program leaves.
pub fn prompt_answered(bytes_read: usize) -> (r: bool)
    ensures
        r == (bytes_read != 0),
{
    bytes_read != 0
}

} // verus!
