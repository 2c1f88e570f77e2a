//! Output sinks.
//!
//! A sink consumes resolved matches, one [`LogEntry`] per match, and renders
//! them in one of three formats.  The console and quickfix sinks hand back
//! one finished line per entry at once; the machine-readable (JSON) sink
//! holds every entry until the end of the run and hands back one structured
//! block then.  Sinks never print: the caller decides where the returned
//! lines go.

use vstd::prelude::*;

use crate::utils::{dec_str, usize_to_string};

verus! {

/// One resolved match: where it was found and the trimmed text of the line
/// that starts it.
pub struct LogEntry {
    /// The file's name as it was discovered, e.g. `./src/app.tsx`.
    pub file_name: String,
    /// The file's absolute path.
    pub abs_path: String,
    /// 1-based line number.
    pub line: usize,
    /// 1-based column number, counted in characters.
    pub column: usize,
    /// The trimmed text of the line.
    pub text: String,
}

/// The mathematical value of a [`LogEntry`].
pub struct EntryV {
    pub file: Seq<char>,
    pub abs: Seq<char>,
    pub line: int,
    pub column: int,
    pub text: Seq<char>,
}

impl View for LogEntry {
    type V = EntryV;

    open spec fn view(&self) -> EntryV {
        EntryV {
            file: self.file_name@,
            abs: self.abs_path@,
            line: self.line as int,
            column: self.column as int,
            text: self.text@,
        }
    }
}

/// The three output formats a sink can render.
#[derive(Clone, Copy, PartialEq, Eq, Structural, Debug)]
pub enum SinkKind {
    Console,
    Quickfix,
    Json,
}

/// The abstract state of a sink: its kind and the entries it is holding
/// back for the end of the run.
pub struct SinkV {
    pub kind: SinkKind,
    pub buffered: Seq<EntryV>,
}

/// The line the console sink renders: `<file>:<line>:<col> <text>`.
pub open spec fn console_line(e: EntryV) -> Seq<char> {
    e.file + ":"@ + dec_str(e.line as nat) + ":"@ + dec_str(e.column as nat) + " "@ + e.text
}

/// The line the quickfix sink renders: `<absolute path>:<line>:<col>: <text>`.
pub open spec fn quickfix_line(e: EntryV) -> Seq<char> {
    e.abs + ":"@ + dec_str(e.line as nat) + ":"@ + dec_str(e.column as nat) + ": "@ + e.text
}

/// The character for one hexadecimal digit.
pub open spec fn hex_char(d: int) -> char {
    if d < 10 {
        crate::utils::digit_char(d)
    } else if d == 10 { 'a' }
    else if d == 11 { 'b' }
    else if d == 12 { 'c' }
    else if d == 13 { 'd' }
    else if d == 14 { 'e' }
    else { 'f' }
}

/// How one character is escaped inside a JSON string literal: quotes and
/// backslashes with a backslash, the common control characters with their
/// short escapes, any other control character as `\u00XX`, and everything
/// else stands as itself.
pub open spec fn escape_char(c: char) -> Seq<char> {
    if c == '"' {
        seq!['\\', '"']
    } else if c == '\\' {
        seq!['\\', '\\']
    } else if c == '\n' {
        seq!['\\', 'n']
    } else if c == '\r' {
        seq!['\\', 'r']
    } else if c == '\t' {
        seq!['\\', 't']
    } else if (c as u32) < 32 {
        seq!['\\', 'u', '0', '0', hex_char(c as u32 as int / 16), hex_char(c as u32 as int % 16)]
    } else {
        seq![c]
    }
}

/// A string escaped for use inside a JSON string literal.
pub open spec fn json_escape(s: Seq<char>) -> Seq<char>
    decreases s.len(),
{
    if s.len() == 0 {
        Seq::empty()
    } else {
        escape_char(s[0]) + json_escape(s.drop_first())
    }
}

/// The object the JSON sink renders for one entry:
/// `{"file": ..., "line": ..., "column": ..., "text": ...}`.
pub open spec fn json_line(e: EntryV) -> Seq<char> {
    "{\"file\": \""@ + json_escape(e.abs) + "\", \"line\": "@ + dec_str(e.line as nat)
        + ", \"column\": "@ + dec_str(e.column as nat) + ", \"text\": \""@ + json_escape(e.text)
        + "\"}"@
}

/// What a sink of the given kind renders for one entry.
pub open spec fn render(kind: SinkKind, e: EntryV) -> Seq<char> {
    match kind {
        SinkKind::Console => console_line(e),
        SinkKind::Quickfix => quickfix_line(e),
        SinkKind::Json => json_line(e),
    }
}

/// The entries a sink holds back after consuming one more: the JSON sink
/// appends it to its buffer, the others keep nothing.
pub open spec fn sink_log_buffered(s: SinkV, e: EntryV) -> Seq<EntryV> {
    if s.kind is Json {
        s.buffered.push(e)
    } else {
        s.buffered
    }
}

/// The line a sink hands back on consuming one entry: the JSON sink none at
/// all, the others the entry's rendering.
pub open spec fn sink_log_out(s: SinkV, e: EntryV) -> Option<Seq<char>> {
    if s.kind is Json {
        None
    } else {
        Some(render(s.kind, e))
    }
}

/// Lines joined with single newlines, no terminator.
pub open spec fn join_lines(ls: Seq<Seq<char>>) -> Seq<char>
    decreases ls.len(),
{
    if ls.len() == 0 {
        Seq::empty()
    } else if ls.len() == 1 {
        ls[0]
    } else {
        join_lines(ls.drop_last()) + "\n"@ + ls.last()
    }
}

/// What a sink hands back at the end of the run: the JSON sink its buffered
/// entries, rendered and joined, provided there are any; the others nothing.
pub open spec fn sink_end_out(s: SinkV) -> Option<Seq<char>> {
    if s.kind is Json && s.buffered.len() > 0 {
        Some(join_lines(s.buffered.map_values(|e: EntryV| json_line(e))))
    } else {
        None
    }
}

/// Sink ordering: the machine-readable sink emits no output before the end
/// of the run — it only buffers — while the console and quickfix sinks emit
/// one line per entry the moment it arrives, and nothing at the end.
pub proof fn lemma_sink_ordering(s: SinkV, e: EntryV)
    ensures
        s.kind is Json ==> sink_log_out(s, e) is None
            && sink_log_buffered(s, e) == s.buffered.push(e),
        !(s.kind is Json) ==> sink_log_out(s, e) == Some(render(s.kind, e))
            && sink_end_out(s) is None,
{
}

/// The destination abstraction for matches: consumes entries one at a time,
/// then is told that the run is over.  Its behaviour is pinned by the
/// abstract sink state [`SinkV`] and the transition functions above.
pub trait Logger: Sized {
    /// The sink's kind and the entries it currently holds back.
    spec fn sink(&self) -> SinkV;

    /// Consumes one entry; hands back the line to emit now, if this sink
    /// emits incrementally.
    fn log(&mut self, entry: LogEntry) -> (out: Option<String>)
        ensures
            final(self).sink().kind == old(self).sink().kind,
            final(self).sink().buffered == sink_log_buffered(old(self).sink(), entry@),
            match out {
                Some(line) => sink_log_out(old(self).sink(), entry@) == Some(line@),
                None => sink_log_out(old(self).sink(), entry@) is None,
            },
    ;

    /// Marks the end of the run; hands back the buffered block, if this
    /// sink buffers and holds anything.
    fn end(&mut self) -> (out: Option<String>)
        ensures
            final(self).sink().kind == old(self).sink().kind,
            final(self).sink().buffered == Seq::<EntryV>::empty(),
            match out {
                Some(block) => sink_end_out(old(self).sink()) == Some(block@),
                None => sink_end_out(old(self).sink()) is None,
            },
    ;
}

/// Sink that renders `<file>:<line>:<col> <text>`, one line per entry.
pub struct ConsoleLogger;

/// Sink that renders `<absolute path>:<line>:<col>: <text>`, one line per
/// entry, the convention editor quickfix lists consume.
pub struct QuickfixLogger;

/// Sink that buffers every entry and renders them as one JSON object per
/// line at the end of the run.
pub struct JsonLogger {
    entries: Vec<LogEntry>,
}

/// The closed set of sinks one run can use.
pub enum LoggerType {
    Console(ConsoleLogger),
    Quickfix(QuickfixLogger),
    Json(JsonLogger),
}

fn hex_str(d: usize) -> (r: &'static str)
    requires
        d < 16,
    ensures
        r@ == seq![hex_char(d as int)],
{
    let r: &'static str = match d {
        0 => "0",
        1 => "1",
        2 => "2",
        3 => "3",
        4 => "4",
        5 => "5",
        6 => "6",
        7 => "7",
        8 => "8",
        9 => "9",
        10 => "a",
        11 => "b",
        12 => "c",
        13 => "d",
        14 => "e",
        _ => "f",
    };
    proof {
        reveal_strlit("0");
        reveal_strlit("1");
        reveal_strlit("2");
        reveal_strlit("3");
        reveal_strlit("4");
        reveal_strlit("5");
        reveal_strlit("6");
        reveal_strlit("7");
        reveal_strlit("8");
        reveal_strlit("9");
        reveal_strlit("a");
        reveal_strlit("b");
        reveal_strlit("c");
        reveal_strlit("d");
        reveal_strlit("e");
        reveal_strlit("f");
        assert(r@ =~= seq![hex_char(d as int)]);
    }
    r
}

proof fn lemma_json_escape_push(s: Seq<char>, c: char)
    ensures
        json_escape(s.push(c)) == json_escape(s) + escape_char(c),
    decreases s.len(),
{
    if s.len() == 0 {
        let sc = s.push(c);
        assert(sc[0] == c);
        assert(sc.drop_first() =~= Seq::<char>::empty());
        assert(json_escape(sc) == escape_char(sc[0]) + json_escape(sc.drop_first()));
        assert(json_escape(s.push(c)) =~= json_escape(s) + escape_char(c));
    } else {
        assert(s.push(c).drop_first() =~= s.drop_first().push(c));
        lemma_json_escape_push(s.drop_first(), c);
        assert(json_escape(s.push(c)) =~= json_escape(s) + escape_char(c));
    }
}

/// Escapes a string for use inside a JSON string literal, as `json_escape`
/// describes.
pub fn json_escape_str(s: &str) -> (r: String)
    ensures
        r@ == json_escape(s@),
{
    let n = s.unicode_len();
    let mut r = String::new();
    proof {
        assert(s@.subrange(0, 0) =~= Seq::<char>::empty());
    }
    let mut i: usize = 0;
    while i < n
        invariant
            i <= n,
            n == s@.len(),
            r@ == json_escape(s@.subrange(0, i as int)),
        decreases n - i,
    {
        let c = s.get_char(i);
        if c == '"' {
            r.append("\\\"");
            proof {
                reveal_strlit("\\\"");
                assert("\\\""@ =~= escape_char(c));
            }
        } else if c == '\\' {
            r.append("\\\\");
            proof {
                reveal_strlit("\\\\");
                assert("\\\\"@ =~= escape_char(c));
            }
        } else if c == '\n' {
            r.append("\\n");
            proof {
                reveal_strlit("\\n");
                assert("\\n"@ =~= escape_char(c));
            }
        } else if c == '\r' {
            r.append("\\r");
            proof {
                reveal_strlit("\\r");
                assert("\\r"@ =~= escape_char(c));
            }
        } else if c == '\t' {
            r.append("\\t");
            proof {
                reveal_strlit("\\t");
                assert("\\t"@ =~= escape_char(c));
            }
        } else if (c as u32) < 32 {
            let u = c as u32;
            let ghost r0 = r@;
            r.append("\\u00");
            r.append(hex_str((u / 16) as usize));
            r.append(hex_str((u % 16) as usize));
            proof {
                reveal_strlit("\\u00");
                assert(r@ =~= r0 + escape_char(c));
            }
        } else {
            let piece = s.substring_char(i, i + 1);
            r.append(piece);
            proof {
                assert(piece@ =~= escape_char(c));
            }
        }
        proof {
            assert(s@.subrange(0, i as int + 1) =~= s@.subrange(0, i as int).push(s@[i as int]));
            lemma_json_escape_push(s@.subrange(0, i as int), s@[i as int]);
        }
        i = i + 1;
    }
    proof {
        assert(s@.subrange(0, n as int) =~= s@);
    }
    r
}

fn console_format(e: &LogEntry) -> (r: String)
    ensures
        r@ == console_line(e@),
{
    let mut r = String::new();
    r.append(e.file_name.as_str());
    r.append(":");
    let line = usize_to_string(e.line);
    r.append(line.as_str());
    r.append(":");
    let column = usize_to_string(e.column);
    r.append(column.as_str());
    r.append(" ");
    r.append(e.text.as_str());
    proof {
        assert(r@ =~= console_line(e@));
    }
    r
}

fn quickfix_format(e: &LogEntry) -> (r: String)
    ensures
        r@ == quickfix_line(e@),
{
    let mut r = String::new();
    r.append(e.abs_path.as_str());
    r.append(":");
    let line = usize_to_string(e.line);
    r.append(line.as_str());
    r.append(":");
    let column = usize_to_string(e.column);
    r.append(column.as_str());
    r.append(": ");
    r.append(e.text.as_str());
    proof {
        assert(r@ =~= quickfix_line(e@));
    }
    r
}

fn json_format(e: &LogEntry) -> (r: String)
    ensures
        r@ == json_line(e@),
{
    let mut r = String::new();
    r.append("{\"file\": \"");
    let abs = json_escape_str(e.abs_path.as_str());
    r.append(abs.as_str());
    r.append("\", \"line\": ");
    let line = usize_to_string(e.line);
    r.append(line.as_str());
    r.append(", \"column\": ");
    let column = usize_to_string(e.column);
    r.append(column.as_str());
    r.append(", \"text\": \"");
    let text = json_escape_str(e.text.as_str());
    r.append(text.as_str());
    r.append("\"}");
    proof {
        assert(r@ =~= json_line(e@));
    }
    r
}

impl ConsoleLogger {
    pub fn new() -> (l: ConsoleLogger)
        ensures
            l.sink().kind == SinkKind::Console,
            l.sink().buffered == Seq::<EntryV>::empty(),
    {
        ConsoleLogger
    }
}

impl Logger for ConsoleLogger {
    open spec fn sink(&self) -> SinkV {
        SinkV { kind: SinkKind::Console, buffered: Seq::empty() }
    }

    fn log(&mut self, entry: LogEntry) -> (out: Option<String>) {
        Some(console_format(&entry))
    }

    fn end(&mut self) -> (out: Option<String>) {
        None
    }
}

impl QuickfixLogger {
    pub fn new() -> (l: QuickfixLogger)
        ensures
            l.sink().kind == SinkKind::Quickfix,
            l.sink().buffered == Seq::<EntryV>::empty(),
    {
        QuickfixLogger
    }
}

impl Logger for QuickfixLogger {
    open spec fn sink(&self) -> SinkV {
        SinkV { kind: SinkKind::Quickfix, buffered: Seq::empty() }
    }

    fn log(&mut self, entry: LogEntry) -> (out: Option<String>) {
        Some(quickfix_format(&entry))
    }

    fn end(&mut self) -> (out: Option<String>) {
        None
    }
}

impl JsonLogger {
    pub fn new() -> (l: JsonLogger)
        ensures
            l.sink().kind == SinkKind::Json,
            l.sink().buffered == Seq::<EntryV>::empty(),
    {
        let l = JsonLogger { entries: Vec::new() };
        proof {
            assert(l.sink().buffered =~= Seq::<EntryV>::empty());
        }
        l
    }
}

impl Logger for JsonLogger {
    closed spec fn sink(&self) -> SinkV {
        SinkV {
            kind: SinkKind::Json,
            buffered: self.entries@.map_values(|e: LogEntry| e@),
        }
    }

    fn log(&mut self, entry: LogEntry) -> (out: Option<String>) {
        let ghost before = self.sink().buffered;
        self.entries.push(entry);
        proof {
            assert(self.sink().buffered =~= before.push(entry@));
        }
        None
    }

    fn end(&mut self) -> (out: Option<String>) {
        let ghost jlines = self.entries@.map_values(|e: LogEntry| json_line(e@));
        if self.entries.len() == 0 {
            proof {
                assert(self.sink().buffered =~= Seq::<EntryV>::empty());
            }
            return None;
        }
        let mut block = String::new();
        let mut i: usize = 0;
        while i < self.entries.len()
            invariant
                i <= self.entries@.len(),
                jlines == self.entries@.map_values(|e: LogEntry| json_line(e@)),
                block@ == join_lines(jlines.take(i as int)),
            decreases self.entries@.len() - i,
        {
            if i > 0 {
                block.append("\n");
            }
            let line = json_format(&self.entries[i]);
            block.append(line.as_str());
            proof {
                assert(jlines.take(i as int + 1).drop_last() =~= jlines.take(i as int));
                if i == 0 {
                    assert(block@ =~= join_lines(jlines.take(1)));
                } else {
                    assert(block@ =~= join_lines(jlines.take(i as int + 1)));
                }
            }
            i = i + 1;
        }
        proof {
            assert(jlines.take(self.entries@.len() as int) =~= jlines);
            assert(old(self).sink().buffered.map_values(|e: EntryV| json_line(e)) =~= jlines);
        }
        self.entries = Vec::new();
        proof {
            assert(self.sink().buffered =~= Seq::<EntryV>::empty());
        }
        Some(block)
    }
}

/// Every machine-readable sink is of the buffering kind: whatever state it
/// is in, its `log` hands back no line and appends the entry to its buffer,
/// so no machine-readable output exists before the end of the run.
pub proof fn lemma_json_logger_defers(l: JsonLogger, e: EntryV)
    ensures
        l.sink().kind is Json,
        sink_log_out(l.sink(), e) is None,
        sink_log_buffered(l.sink(), e) == l.sink().buffered.push(e),
{
}

impl Logger for LoggerType {
    open spec fn sink(&self) -> SinkV {
        match self {
            LoggerType::Console(l) => l.sink(),
            LoggerType::Quickfix(l) => l.sink(),
            LoggerType::Json(l) => l.sink(),
        }
    }

    fn log(&mut self, entry: LogEntry) -> (out: Option<String>) {
        match self {
            LoggerType::Console(l) => l.log(entry),
            LoggerType::Quickfix(l) => l.log(entry),
            LoggerType::Json(l) => l.log(entry),
        }
    }

    fn end(&mut self) -> (out: Option<String>) {
        match self {
            LoggerType::Console(l) => l.end(),
            LoggerType::Quickfix(l) => l.end(),
            LoggerType::Json(l) => l.end(),
        }
    }
}

/// The output-format selector of one run.
#[derive(Clone, Copy, PartialEq, Eq, Structural, Debug)]
pub enum OutputFormat {
    Console,
    Json,
    Quickfix,
}

/// The sink kind a format selector picks.
pub open spec fn kind_of_format(format: OutputFormat) -> SinkKind {
    match format {
        OutputFormat::Console => SinkKind::Console,
        OutputFormat::Json => SinkKind::Json,
        OutputFormat::Quickfix => SinkKind::Quickfix,
    }
}

/// A fresh sink of the requested format.
pub fn get_logger(format: OutputFormat) -> (l: LoggerType)
    ensures
        l.sink().kind == kind_of_format(format),
        l.sink().buffered == Seq::<EntryV>::empty(),
{
    match format {
        OutputFormat::Console => LoggerType::Console(ConsoleLogger::new()),
        OutputFormat::Quickfix => LoggerType::Quickfix(QuickfixLogger::new()),
        OutputFormat::Json => LoggerType::Json(JsonLogger::new()),
    }
}

} // verus!
