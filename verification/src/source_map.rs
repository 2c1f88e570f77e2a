//! The location resolver.
//!
//! A [`SourceMap`] models what the analyses read of one file's source map:
//! the file's identity and the text of its lines.  Line `i` (0-based) covers
//! the character offsets from `line_start(i)` to `line_start(i) + len(i)`
//! inclusive — the last of these is the line's newline, or, on the final
//! line, the end of the file.  [`resolve`] maps a span to the 1-based line
//! and column of its start and the trimmed text of that line, and maps spans
//! that start outside the file to nothing, never to an error.

use vstd::prelude::*;

use crate::ast::Span;
use crate::logger::{EntryV, LogEntry};

verus! {

/// The file identity and line structure of one parsed source file.
pub struct SourceMap {
    /// The file's name as it was discovered, e.g. `./src/app.tsx`.
    pub file_name: String,
    /// The file's absolute path.
    pub abs_path: String,
    /// The text of each line, without its terminator, in order.
    pub lines: Vec<String>,
}

/// The lines' character sequences.
pub open spec fn line_seqs(map: SourceMap) -> Seq<Seq<char>> {
    map.lines@.map_values(|l: String| l@)
}

/// The character offset at which line `i` starts: every earlier line's
/// length, plus one per line for its newline.
pub open spec fn line_start(lines: Seq<Seq<char>>, i: int) -> int
    decreases i,
{
    if i <= 0 {
        0
    } else {
        line_start(lines, i - 1) + lines[i - 1].len() + 1
    }
}

/// One past the last character offset belonging to any line.
pub open spec fn total_extent(lines: Seq<Seq<char>>) -> int {
    line_start(lines, lines.len() as int)
}

/// The index of the line whose extent contains character offset `lo`.
pub open spec fn line_of(lines: Seq<Seq<char>>, lo: int) -> Option<int>
    decreases lines.len(),
{
    if lines.len() == 0 || lo < 0 {
        None
    } else if lo <= lines[0].len() {
        Some(0)
    } else {
        match line_of(lines.drop_first(), lo - lines[0].len() - 1) {
            Some(i) => Some(i + 1),
            None => None,
        }
    }
}

/// Whether a character counts as trimmable whitespace: the characters
/// with the Unicode `White_Space` property.
pub open spec fn is_space(c: char) -> bool {
    ||| c == ' ' || c == '\t' || c == '\n' || c == '\r' || c == '\u{b}' || c == '\u{c}'
    ||| c == '\u{85}' || c == '\u{a0}' || c == '\u{1680}'
    ||| ('\u{2000}' as u32) <= (c as u32) && (c as u32) <= ('\u{200a}' as u32)
    ||| c == '\u{2028}' || c == '\u{2029}' || c == '\u{202f}' || c == '\u{205f}'
    ||| c == '\u{3000}'
}

/// `s` without its leading whitespace.
pub open spec fn trim_front(s: Seq<char>) -> Seq<char>
    decreases s.len(),
{
    if s.len() > 0 && is_space(s[0]) {
        trim_front(s.drop_first())
    } else {
        s
    }
}

/// `s` without its trailing whitespace.
pub open spec fn trim_back(s: Seq<char>) -> Seq<char>
    decreases s.len(),
{
    if s.len() > 0 && is_space(s.last()) {
        trim_back(s.drop_last())
    } else {
        s
    }
}

/// `s` without leading and trailing whitespace.
pub open spec fn spec_trim(s: Seq<char>) -> Seq<char> {
    trim_back(trim_front(s))
}

impl SourceMap {
    /// The one machine limit the resolver needs: every offset in the file,
    /// and every line length plus one, fits in `usize`.
    pub open spec fn wf(&self) -> bool {
        total_extent(line_seqs(*self)) <= usize::MAX
    }

    /// Decides `wf`, so that a caller holding an arbitrary map can test the
    /// resolver's machine limit before relying on it.
    pub fn check_wf(&self) -> (r: bool)
        ensures
            r == self.wf(),
    {
        let n = self.lines.len();
        let mut i: usize = 0;
        let mut acc: usize = 0;
        while i < n
            invariant
                i <= n,
                n == self.lines@.len(),
                acc == line_start(line_seqs(*self), i as int),
            decreases n - i,
        {
            let len = self.lines[i].as_str().unicode_len();
            proof {
                assert(line_seqs(*self)[i as int] == self.lines@[i as int]@);
                assert(line_start(line_seqs(*self), i as int + 1)
                    == acc + line_seqs(*self)[i as int].len() + 1);
            }
            let room = usize::MAX - acc;
            if room == 0 || len > room - 1 {
                // line i's extent already ends past usize::MAX, and the
                // total only grows from there
                proof {
                    lemma_line_start_mono(line_seqs(*self), i as int + 1, n as int);
                }
                return false;
            }
            acc = acc + len + 1;
            i = i + 1;
        }
        true
    }
}

/// What resolving character offset `lo` against `map` yields: the location
/// (1-based line and column) and trimmed line text when some line's extent
/// contains `lo`, and nothing otherwise.
pub open spec fn resolve_v(map: SourceMap, lo: int) -> Option<EntryV> {
    match line_of(line_seqs(map), lo) {
        None => None,
        Some(i) => Some(
            EntryV {
                file: map.file_name@,
                abs: map.abs_path@,
                line: i + 1,
                column: lo - line_start(line_seqs(map), i) + 1,
                text: spec_trim(line_seqs(map)[i]),
            },
        ),
    }
}

/// Line starts never decrease.
pub proof fn lemma_line_start_mono(lines: Seq<Seq<char>>, i: int, j: int)
    requires
        0 <= i <= j,
    ensures
        line_start(lines, i) <= line_start(lines, j),
    decreases j - i,
{
    if i < j {
        lemma_line_start_mono(lines, i, j - 1);
    }
}

proof fn lemma_line_start_drop(lines: Seq<Seq<char>>, i: int)
    requires
        1 <= i <= lines.len(),
    ensures
        line_start(lines, i) == lines[0].len() + 1 + line_start(lines.drop_first(), i - 1),
    decreases i,
{
    if i > 1 {
        lemma_line_start_drop(lines, i - 1);
    } else {
        assert(line_start(lines, 0) == 0);
        assert(line_start(lines.drop_first(), 0) == 0);
    }
}

/// An offset inside line `i`'s extent resolves to line `i`.
proof fn lemma_line_of_some(lines: Seq<Seq<char>>, lo: int, i: int)
    requires
        0 <= i < lines.len(),
        line_start(lines, i) <= lo <= line_start(lines, i) + lines[i].len(),
    ensures
        line_of(lines, lo) == Some(i),
    decreases i,
{
    lemma_line_start_mono(lines, 0, i);
    if i == 0 {
    } else {
        lemma_line_start_mono(lines, 1, i);
        assert(line_start(lines, 0) == 0);
        assert(line_start(lines, 1) == lines[0].len() + 1);
        lemma_line_start_drop(lines, i);
        lemma_line_of_some(lines.drop_first(), lo - lines[0].len() - 1, i - 1);
    }
}

/// An offset at or past the end of the file resolves to no line.
proof fn lemma_line_of_none(lines: Seq<Seq<char>>, lo: int)
    requires
        lo >= total_extent(lines),
    ensures
        line_of(lines, lo) is None,
    decreases lines.len(),
{
    if lines.len() > 0 {
        lemma_line_start_mono(lines, 1, lines.len() as int);
        assert(line_start(lines, 0) == 0);
        assert(line_start(lines, 1) == lines[0].len() + 1);
        if lo <= lines[0].len() {
            // impossible: lo is at least the total extent, which exceeds
            // the first line's
            assert(false);
        } else {
            lemma_line_start_drop(lines, lines.len() as int);
            assert(total_extent(lines.drop_first()) == total_extent(lines) - lines[0].len() - 1);
            lemma_line_of_none(lines.drop_first(), lo - lines[0].len() - 1);
        }
    }
}

proof fn lemma_trim_front_at(s: Seq<char>, a: int)
    requires
        0 <= a <= s.len(),
        forall|k: int| 0 <= k < a ==> is_space(s[k]),
        a == s.len() || !is_space(s[a]),
    ensures
        trim_front(s) == s.subrange(a, s.len() as int),
    decreases a,
{
    if a == 0 {
        assert(s.subrange(0, s.len() as int) =~= s);
    } else {
        lemma_trim_front_at(s.drop_first(), a - 1);
        assert(s.drop_first().subrange(a - 1, s.drop_first().len() as int)
            =~= s.subrange(a, s.len() as int));
    }
}

proof fn lemma_trim_back_at(s: Seq<char>, b: int)
    requires
        0 <= b <= s.len(),
        forall|k: int| b <= k < s.len() ==> is_space(s[k]),
        b == 0 || !is_space(s[b - 1]),
    ensures
        trim_back(s) == s.subrange(0, b),
    decreases s.len(),
{
    if b == s.len() {
        assert(s.subrange(0, b) =~= s);
    } else {
        assert(is_space(s.last()));
        lemma_trim_back_at(s.drop_last(), b);
        assert(s.drop_last().subrange(0, b) =~= s.subrange(0, b));
    }
}

fn is_space_char(c: char) -> (r: bool)
    ensures
        r == is_space(c),
{
    c == ' ' || c == '\t' || c == '\n' || c == '\r' || c == '\u{b}' || c == '\u{c}'
        || c == '\u{85}' || c == '\u{a0}' || c == '\u{1680}'
        || (('\u{2000}' as u32) <= (c as u32) && (c as u32) <= ('\u{200a}' as u32))
        || c == '\u{2028}' || c == '\u{2029}' || c == '\u{202f}' || c == '\u{205f}'
        || c == '\u{3000}'
}

/// `s` with surrounding whitespace trimmed, as `spec_trim` describes.
pub fn trim_str(s: &str) -> (r: String)
    ensures
        r@ == spec_trim(s@),
{
    let n = s.unicode_len();
    let mut a: usize = 0;
    while a < n && is_space_char(s.get_char(a))
        invariant
            a <= n,
            n == s@.len(),
            forall|k: int| 0 <= k < a ==> is_space(s@[k]),
        decreases n - a,
    {
        a = a + 1;
    }
    let mut b: usize = n;
    while b > a && is_space_char(s.get_char(b - 1))
        invariant
            a <= b <= n,
            n == s@.len(),
            forall|k: int| b <= k < n ==> is_space(s@[k]),
        decreases b,
    {
        b = b - 1;
    }
    let piece = s.substring_char(a, b);
    proof {
        lemma_trim_front_at(s@, a as int);
        let t = s@.subrange(a as int, n as int);
        if a < n && b == a {
            // impossible: the front scan stopped at a non-space character,
            // which the back scan cannot have stepped over
            assert(is_space(s@[a as int]));
            assert(false);
        }
        lemma_trim_back_at(t, b - a);
        assert(t.subrange(0, b - a) =~= s@.subrange(a as int, b as int));
    }
    piece.to_owned()
}

/// Resolves a span against a source map, as `resolve_v` describes: the
/// entry for the line containing the span's start, or nothing when no line
/// contains it.  A failure is a plain `None`, so one unresolvable span
/// never disturbs the spans after it.
pub fn resolve(map: &SourceMap, span: Span) -> (r: Option<LogEntry>)
    requires
        map.wf(),
    ensures
        match r {
            Some(e) => resolve_v(*map, span.lo as int) == Some(e@),
            None => resolve_v(*map, span.lo as int) is None,
        },
{
    let lo = span.lo;
    let n = map.lines.len();
    let mut i: usize = 0;
    let mut acc: usize = 0;
    while i < n
        invariant
            i <= n,
            n == map.lines@.len(),
            map.wf(),
            acc == line_start(line_seqs(*map), i as int),
            lo >= acc,
            lo == span.lo,
        decreases n - i,
    {
        let line_len = map.lines[i].as_str().unicode_len();
        proof {
            lemma_line_start_mono(line_seqs(*map), i as int + 1, n as int);
            assert(line_start(line_seqs(*map), i as int + 1)
                == acc + line_seqs(*map)[i as int].len() + 1);
        }
        if lo - acc <= line_len {
            let text = trim_str(map.lines[i].as_str());
            let e = LogEntry {
                file_name: map.file_name.clone(),
                abs_path: map.abs_path.clone(),
                line: i + 1,
                column: lo - acc + 1,
                text,
            };
            proof {
                lemma_line_of_some(line_seqs(*map), lo as int, i as int);
                assert(line_seqs(*map)[i as int] == map.lines@[i as int]@);
                assert(e@.text == spec_trim(line_seqs(*map)[i as int]));
                assert(e@.column == lo - line_start(line_seqs(*map), i as int) + 1);
                assert(resolve_v(*map, lo as int) == Some(e@));
            }
            return Some(e);
        }
        acc = acc + line_len + 1;
        i = i + 1;
    }
    proof {
        lemma_line_of_none(line_seqs(*map), lo as int);
    }
    None
}

} // verus!
