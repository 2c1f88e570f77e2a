//! The query pipeline.
//!
//! A [`Processor`] owns one query and one sink for the duration of a run.
//! For every parsed file it asks the query for the spans it selects,
//! resolves each span to a location and line snippet, drops the spans no
//! line contains, and forwards every resolved entry, in order, to the sink.
//! The discovery of files, the parsing, and the printing of the returned
//! lines belong to the surrounding program; everything the run decides is
//! here.

use vstd::prelude::*;

use crate::ast::{Module, Span};
use crate::logger::{
    render, sink_end_out, EntryV, Logger, SinkKind, SinkV,
};
use crate::parser::{ParseError, ParsedModule};
use crate::source_map::{resolve, resolve_v, SourceMap};
use crate::utils::dec_str_int;

verus! {

/// One query over a parsed module: where the run starts, and which spans of
/// a module it selects.  The two query kinds implement this contract; a run
/// uses exactly one of them.
pub trait ProcessorRequest: Sized {
    /// The spans this query selects in one module, in document order.
    spec fn spec_spans(&self, m: Module) -> Seq<Span>;

    /// The root directory the run searches.
    spec fn root(&self) -> Seq<char>;

    /// Returns the root directory the run searches.
    fn path(&self) -> (r: &String)
        ensures
            r@ == self.root(),
    ;

    /// Returns the spans this query selects in the parsed file's module,
    /// in document order.
    fn analyze(&self, parsed: &ParsedModule) -> (r: Vec<Span>)
        ensures
            r@ == self.spec_spans(parsed.module),
    ;
}

/// The entry one span contributes: its resolution, or nothing when no line
/// contains its start.
pub open spec fn maybe_entry(map: SourceMap, span: Span) -> Seq<EntryV> {
    match resolve_v(map, span.lo as int) {
        Some(e) => seq![e],
        None => Seq::empty(),
    }
}

/// The resolved entries of a span sequence, in order, unresolvable spans
/// silently dropped.
pub open spec fn entries_v(map: SourceMap, spans: Seq<Span>) -> Seq<EntryV>
    decreases spans.len(),
{
    if spans.len() == 0 {
        Seq::empty()
    } else {
        maybe_entry(map, spans[0]) + entries_v(map, spans.drop_first())
    }
}

proof fn lemma_entries_v_push(map: SourceMap, spans: Seq<Span>, span: Span)
    ensures
        entries_v(map, spans.push(span)) == entries_v(map, spans) + maybe_entry(map, span),
    decreases spans.len(),
{
    if spans.len() == 0 {
        let sp = spans.push(span);
        assert(sp[0] == span);
        assert(sp.drop_first() =~= Seq::<Span>::empty());
        assert(entries_v(map, sp) == maybe_entry(map, sp[0]) + entries_v(map, sp.drop_first()));
        assert(entries_v(map, spans.push(span)) =~= entries_v(map, spans) + maybe_entry(map, span));
    } else {
        assert(spans.push(span).drop_first() =~= spans.drop_first().push(span));
        lemma_entries_v_push(map, spans.drop_first(), span);
        assert(entries_v(map, spans.push(span)) =~= entries_v(map, spans) + maybe_entry(map, span));
    }
}

/// The lines a sink of this kind emits while consuming these entries: one
/// rendered line per entry, except that the machine-readable sink emits
/// nothing until the end of the run.
pub open spec fn sink_outputs(kind: SinkKind, entries: Seq<EntryV>) -> Seq<Seq<char>> {
    if kind is Json {
        Seq::empty()
    } else {
        entries.map_values(|e: EntryV| render(kind, e))
    }
}

/// The entries a sink of this kind holds back while consuming these
/// entries: all of them for the machine-readable sink, none otherwise.
pub open spec fn sink_buffer_delta(kind: SinkKind, entries: Seq<EntryV>) -> Seq<EntryV> {
    if kind is Json {
        entries
    } else {
        Seq::empty()
    }
}

/// The resolved entries of a whole run: each file's entries in the order
/// the files were supplied, document order within each file.
pub open spec fn run_entries<R: ProcessorRequest>(req: R, files: Seq<ParsedModule>) -> Seq<EntryV>
    decreases files.len(),
{
    if files.len() == 0 {
        Seq::empty()
    } else {
        entries_v(files[0].source_map, req.spec_spans(files[0].module))
            + run_entries(req, files.drop_first())
    }
}

/// Every line a whole run emits, in order: the incremental lines while the
/// files are processed, then the end-of-run block if the sink buffers.
pub open spec fn run_output<R: ProcessorRequest>(
    req: R,
    kind: SinkKind,
    files: Seq<ParsedModule>,
) -> Seq<Seq<char>> {
    sink_outputs(kind, run_entries(req, files)) + (match sink_end_out(
        SinkV { kind, buffered: run_entries(req, files) },
    ) {
        Some(block) => seq![block],
        None => Seq::empty(),
    })
}

/// Determinism: what a run emits is a function of the query, the sink kind
/// and the parsed files alone, so two runs over the same inputs emit
/// byte-identical lines in the same order.
pub proof fn lemma_run_deterministic<R: ProcessorRequest>(
    req: R,
    kind: SinkKind,
    files: Seq<ParsedModule>,
    out1: Seq<Seq<char>>,
    out2: Seq<Seq<char>>,
)
    requires
        out1 == run_output(req, kind, files),
        out2 == run_output(req, kind, files),
    ensures
        out1 == out2,
{
}

proof fn lemma_run_entries_push<R: ProcessorRequest>(
    req: R,
    files: Seq<ParsedModule>,
    f: ParsedModule,
)
    ensures
        run_entries(req, files.push(f)) == run_entries(req, files) + entries_v(
            f.source_map,
            req.spec_spans(f.module),
        ),
    decreases files.len(),
{
    if files.len() == 0 {
        let fs = files.push(f);
        assert(fs[0] == f);
        assert(fs.drop_first() =~= Seq::<ParsedModule>::empty());
        assert(run_entries(req, fs) == entries_v(fs[0].source_map, req.spec_spans(fs[0].module))
            + run_entries(req, fs.drop_first()));
        assert(run_entries(req, files.push(f)) =~= run_entries(req, files) + entries_v(
            f.source_map,
            req.spec_spans(f.module),
        ));
    } else {
        assert(files.push(f).drop_first() =~= files.drop_first().push(f));
        lemma_run_entries_push(req, files.drop_first(), f);
        assert(run_entries(req, files.push(f)) =~= run_entries(req, files) + entries_v(
            f.source_map,
            req.spec_spans(f.module),
        ));
    }
}

/// The diagnostic reported for one unparsable file.
pub open spec fn error_message(path: Seq<char>, err: ParseError) -> Seq<char> {
    match err {
        ParseError::IO(code) => "error: Failed to load "@ + path + " with status code "@
            + (match code {
            Some(c) => dec_str_int(c as int),
            None => "unknown"@,
        }) + "."@,
        ParseError::Parse(msg) => "error: Encountered parsing error while reading "@ + path
            + ".\n  "@ + msg@,
    }
}

/// One run's orchestrator: the query and the sink it drives.
pub struct Processor<L: Logger, R: ProcessorRequest> {
    pub request: R,
    pub logger: L,
}

impl<L: Logger, R: ProcessorRequest> Processor<L, R> {
    pub fn new(request: R, logger: L) -> (p: Processor<L, R>)
        ensures
            p.request == request,
            p.logger == logger,
    {
        Processor { request, logger }
    }

    /// Analyzes one parsed file: resolves the spans the query selects, in
    /// document order, drops the unresolvable ones, hands every resolved
    /// entry to the sink, and returns the lines the sink emitted for them.
    /// One unresolvable span never disturbs the entries after it.
    pub fn analyze(&mut self, parsed: &ParsedModule) -> (out: Vec<String>)
        requires
            parsed.source_map.wf(),
        ensures
            final(self).request == old(self).request,
            final(self).logger.sink().kind == old(self).logger.sink().kind,
            final(self).logger.sink().buffered == old(self).logger.sink().buffered
                + sink_buffer_delta(
                old(self).logger.sink().kind,
                entries_v(parsed.source_map, old(self).request.spec_spans(parsed.module)),
            ),
            out@.map_values(|s: String| s@) == sink_outputs(
                old(self).logger.sink().kind,
                entries_v(parsed.source_map, old(self).request.spec_spans(parsed.module)),
            ),
    {
        let ghost kind0 = old(self).logger.sink().kind;
        let ghost buffered0 = old(self).logger.sink().buffered;
        let spans = self.request.analyze(parsed);
        let mut out: Vec<String> = Vec::new();
        let mut j: usize = 0;
        proof {
            assert(spans@.take(0) =~= Seq::<Span>::empty());
            assert(out@.map_values(|s: String| s@) =~= Seq::<Seq<char>>::empty());
        }
        while j < spans.len()
            invariant
                j <= spans@.len(),
                parsed.source_map.wf(),
                spans@ == old(self).request.spec_spans(parsed.module),
                self.request == old(self).request,
                self.logger.sink().kind == kind0,
                kind0 == old(self).logger.sink().kind,
                buffered0 == old(self).logger.sink().buffered,
                self.logger.sink().buffered == buffered0 + sink_buffer_delta(
                    kind0,
                    entries_v(parsed.source_map, spans@.take(j as int)),
                ),
                out@.map_values(|s: String| s@) == sink_outputs(
                    kind0,
                    entries_v(parsed.source_map, spans@.take(j as int)),
                ),
            decreases spans@.len() - j,
        {
            let span = spans[j];
            match resolve(&parsed.source_map, span) {
                Some(entry) => {
                    let ghost e = entry@;
                    let ghost out_before = out@;
                    let line = self.logger.log(entry);
                    match line {
                        Some(line) => {
                            proof {
                                assert(line@ == render(kind0, e));
                            }
                            out.push(line);
                            proof {
                                assert(out@.map_values(|s: String| s@) =~= out_before.map_values(
                                    |s: String| s@,
                                ).push(render(kind0, e)));
                            }
                        },
                        None => {},
                    }
                    proof {
                        assert(maybe_entry(parsed.source_map, span) =~= seq![e]);
                    }
                },
                None => {
                    proof {
                        assert(maybe_entry(parsed.source_map, span)
                            =~= Seq::<EntryV>::empty());
                    }
                },
            }
            proof {
                assert(spans@.take(j as int + 1) =~= spans@.take(j as int).push(span));
                lemma_entries_v_push(parsed.source_map, spans@.take(j as int), span);
                let entries_after = entries_v(parsed.source_map, spans@.take(j as int + 1));
                assert(self.logger.sink().buffered =~= buffered0 + sink_buffer_delta(
                    kind0,
                    entries_after,
                ));
                assert(out@.map_values(|s: String| s@) =~= sink_outputs(kind0, entries_after));
            }
            j = j + 1;
        }
        proof {
            assert(spans@.take(spans@.len() as int) =~= spans@);
        }
        out
    }

    /// Ends the run: returns the sink's end-of-run block, if it buffered
    /// anything.
    pub fn end(&mut self) -> (out: Option<String>)
        ensures
            final(self).request == old(self).request,
            final(self).logger.sink().kind == old(self).logger.sink().kind,
            final(self).logger.sink().buffered == Seq::<EntryV>::empty(),
            match out {
                Some(block) => sink_end_out(old(self).logger.sink()) == Some(block@),
                None => sink_end_out(old(self).logger.sink()) is None,
            },
    {
        self.logger.end()
    }

    /// Processes parsed files in the order supplied — no reordering, no
    /// deduplication — then ends the run, and returns every line the sink
    /// emitted, as `run_output` describes.
    pub fn process_all(&mut self, files: &Vec<ParsedModule>) -> (out: Vec<String>)
        requires
            old(self).logger.sink().buffered == Seq::<EntryV>::empty(),
            forall|i: int| 0 <= i < files@.len() ==> (#[trigger] files@[i]).source_map.wf(),
        ensures
            final(self).request == old(self).request,
            out@.map_values(|s: String| s@) == run_output(
                old(self).request,
                old(self).logger.sink().kind,
                files@,
            ),
    {
        let ghost kind0 = old(self).logger.sink().kind;
        let mut out: Vec<String> = Vec::new();
        let mut k: usize = 0;
        proof {
            assert(files@.take(0) =~= Seq::<ParsedModule>::empty());
            assert(out@.map_values(|s: String| s@) =~= Seq::<Seq<char>>::empty());
        }
        while k < files.len()
            invariant
                k <= files@.len(),
                forall|i: int| 0 <= i < files@.len() ==> (#[trigger] files@[i]).source_map.wf(),
                self.request == old(self).request,
                self.logger.sink().kind == kind0,
                kind0 == old(self).logger.sink().kind,
                self.logger.sink().buffered == sink_buffer_delta(
                    kind0,
                    run_entries(old(self).request, files@.take(k as int)),
                ),
                out@.map_values(|s: String| s@) == sink_outputs(
                    kind0,
                    run_entries(old(self).request, files@.take(k as int)),
                ),
            decreases files@.len() - k,
        {
            let ghost entries_before = run_entries(old(self).request, files@.take(k as int));
            let mut lines = self.analyze(&files[k]);
            let ghost file_entries = entries_v(
                files@[k as int].source_map,
                old(self).request.spec_spans(files@[k as int].module),
            );
            let ghost lines_view = lines@;
            let ghost out_before = out@;
            out.append(&mut lines);
            proof {
                assert(files@.take(k as int + 1) =~= files@.take(k as int).push(files@[k as int]));
                lemma_run_entries_push(old(self).request, files@.take(k as int), files@[k as int]);
                let entries_after = run_entries(old(self).request, files@.take(k as int + 1));
                assert(self.logger.sink().buffered =~= sink_buffer_delta(kind0, entries_after));
                assert(out@ == out_before + lines_view);
                assert forall|t: int| 0 <= t < lines_view.len() implies #[trigger] lines_view[t]@
                    == sink_outputs(kind0, file_entries)[t] by {
                    assert(lines_view.map_values(|s: String| s@)[t] == lines_view[t]@);
                }
                assert forall|t: int| 0 <= t < out_before.len() implies #[trigger] out_before[t]@
                    == sink_outputs(kind0, entries_before)[t] by {
                    assert(out_before.map_values(|s: String| s@)[t] == out_before[t]@);
                }
                assert(lines_view.len() == sink_outputs(kind0, file_entries).len());
                assert(out_before.len() == sink_outputs(kind0, entries_before).len());
                assert(entries_after == entries_before + file_entries);
                assert(out@.map_values(|s: String| s@).len() == sink_outputs(
                    kind0,
                    entries_after,
                ).len());
                assert(out@.map_values(|s: String| s@) =~= sink_outputs(kind0, entries_after));
            }
            k = k + 1;
        }
        proof {
            assert(files@.take(files@.len() as int) =~= files@);
        }
        let ghost all_entries = run_entries(old(self).request, files@);
        match self.end() {
            Some(block) => {
                proof {
                    assert(SinkV { kind: kind0, buffered: sink_buffer_delta(kind0, all_entries) }
                        == SinkV { kind: kind0, buffered: all_entries }
                        || !(kind0 is Json));
                    assert(out@.push(block).map_values(|s: String| s@) =~= out@.map_values(
                        |s: String| s@,
                    ).push(block@));
                }
                out.push(block);
            },
            None => {},
        }
        proof {
            assert(out@.map_values(|s: String| s@) =~= run_output(
                old(self).request,
                kind0,
                files@,
            ));
        }
        out
    }

    /// The diagnostic for one file the parser rejected, as `error_message`
    /// describes.  The file is reported and skipped; the run goes on.
    pub fn print_error(&self, path: &String, err: &ParseError) -> (r: String)
        ensures
            r@ == error_message(path@, *err),
    {
        let mut r = String::new();
        match err {
            ParseError::IO(code) => {
                r.append("error: Failed to load ");
                r.append(path.as_str());
                r.append(" with status code ");
                match code {
                    Some(c) => {
                        let code_str = crate::utils::i32_to_string(*c);
                        r.append(code_str.as_str());
                    },
                    None => {
                        r.append("unknown");
                    },
                }
                r.append(".");
            },
            ParseError::Parse(msg) => {
                r.append("error: Encountered parsing error while reading ");
                r.append(path.as_str());
                r.append(".\n  ");
                r.append(msg.as_str());
            },
        }
        proof {
            assert(r@ =~= error_message(path@, *err));
        }
        r
    }
}

} // verus!
