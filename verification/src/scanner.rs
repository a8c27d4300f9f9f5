//! Reading what `clamscan` prints, and the decisions of a running scan: what
//! each output line reports and how the scan ends.
use vstd::prelude::*;
use crate::text::{
    find_char, is_ws, lemma_find_char_bound, lemma_find_char_concat, strip_cr, trim_start,
    chars_eq, chars_of, contains, contains_exec, i32_to_chars, join, line_spans, lines,
    lowercase, lowercase_chars, parse_unsigned, parse_unsigned_exec, replace, replace_exec, rfind,
    rfind_exec, second_field, second_field_exec, signed_decimal, slice_of, span_texts, spans_in,
    starts_with, starts_with_exec, string_from, string_of, trim, trim_chars, views,
};

use crate::config::{clamscan_args, opt_view, push_str, AppConfig};

verus! {

broadcast use vstd::string::group_string_axioms;

/// What `clamscan` said of one file.
#[derive(Debug, Clone, Copy, PartialEq, Eq, Structural)]
pub enum FileStatus {
    Clean,
    Infected,
    Error,
    Skipped,
}

/// What the user asked to scan.
#[derive(Debug, Clone, Copy, PartialEq, Eq, Structural)]
pub enum ScanType {
    File,
    Directory,
    Home,
    FullSystem,
    Custom,
}

/// One file reported by `clamscan`.
#[derive(Debug)]
pub struct ScanResult {
    pub path: String,
    pub status: FileStatus,
    pub threat: Option<String>,
}

/// Path, status and threat name of a result.
pub type ResultView = (Seq<char>, FileStatus, Option<Seq<char>>);

impl View for ScanResult {
    type V = ResultView;

    open spec fn view(&self) -> ResultView {
        (
            self.path@,
            self.status,
            match self.threat {
                Some(t) => Some(t@),
                None => None,
            },
        )
    }
}

fn clone_opt_string(o: &Option<String>) -> (r: Option<String>)
    ensures
        r == *o,
{
    match o {
        Some(s) => Some(s.clone()),
        None => None,
    }
}

impl Clone for ScanResult {
    fn clone(&self) -> (r: Self)
        ensures
            r == *self,
    {
        ScanResult { path: self.path.clone(), status: self.status, threat: clone_opt_string(&self.threat) }
    }
}

pub open spec fn result_views(s: Seq<ScanResult>) -> Seq<ResultView> {
    s.map_values(|r: ScanResult| r@)
}

// ---------------------------------------------------------------------------
// One line of output
// ---------------------------------------------------------------------------
/// A line that reports no file: blank, a `-----` rule or the start banner.
pub open spec fn is_banner_line(line: Seq<char>) -> bool {
    trim(line).len() == 0 || starts_with(line, "-----"@) || starts_with(line, "Scan started"@)
}

/// The file reported by a line `<path>: <threat> FOUND`, `<path>: OK` or
/// `<path>: <reason> ERROR`; the path is what precedes the last `: `.
pub open spec fn result_of_line(t: Seq<char>) -> Option<ResultView> {
    if contains(t, "FOUND"@) {
        match rfind(t, ": "@) {
            Some(pos) => Some(
                (
                    t.take(pos),
                    FileStatus::Infected,
                    Some(trim(replace(t.skip(pos + 2), "FOUND"@, ""@))),
                ),
            ),
            None => None,
        }
    } else if contains(t, "OK"@) {
        match rfind(t, ": "@) {
            Some(pos) => Some((t.take(pos), FileStatus::Clean, None)),
            None => None,
        }
    } else if contains(t, "ERROR"@) {
        match rfind(t, ": "@) {
            Some(pos) => Some((t.take(pos), FileStatus::Error, None)),
            None => None,
        }
    } else {
        None
    }
}

/// A line that reports a threat (`FOUND` and a `: ` separator) always
/// gives an infected result, whatever else it holds (an `OK` or `ERROR` in
/// the file's name does not matter): its path is what precedes the last
/// `: `, its threat the rest without `FOUND`. A clean result comes only
/// from a line without `FOUND` that holds `OK`, an error result only from
/// one that holds neither but `ERROR`, and every result's path is what
/// precedes the last `: `.
pub proof fn law_found_lines_are_infected(t: Seq<char>)
    ensures
        contains(t, "FOUND"@) ==> match rfind(t, ": "@) {
            Some(pos) => result_of_line(t) == Some(
                (
                    t.take(pos),
                    FileStatus::Infected,
                    Some(trim(replace(t.skip(pos + 2), "FOUND"@, ""@))),
                ),
            ),
            None => result_of_line(t) is None,
        },
        result_of_line(t) matches Some(r) ==> (rfind(t, ": "@) matches Some(pos) && r.0 == t.take(
            pos,
        )),
        result_of_line(t) matches Some(r) ==> (r.1 == FileStatus::Infected <==> contains(
            t,
            "FOUND"@,
        )),
        result_of_line(t) matches Some(r) ==> (r.1 == FileStatus::Clean ==> !contains(t, "FOUND"@)
            && contains(t, "OK"@) && r.2 is None),
        result_of_line(t) matches Some(r) ==> (r.1 == FileStatus::Error ==> !contains(t, "FOUND"@)
            && !contains(t, "OK"@) && contains(t, "ERROR"@) && r.2 is None),
        result_of_line(t) matches Some(r) ==> r.1 != FileStatus::Skipped,
        !contains(t, "FOUND"@) && !contains(t, "OK"@) && !contains(t, "ERROR"@) ==> result_of_line(
            t,
        ) is None,
{
}

/// The file a line of the saved output reports, read after trimming it.
pub open spec fn line_result(line: Seq<char>) -> Option<ResultView> {
    let t = trim(line);
    if t.len() == 0 || starts_with(t, "-----"@) || starts_with(t, "Scan started"@) {
        None
    } else {
        result_of_line(t)
    }
}

/// The files reported by the given lines, in order.
pub open spec fn output_results(ls: Seq<Seq<char>>) -> Seq<ResultView>
    decreases ls.len(),
{
    if ls.len() == 0 {
        seq![]
    } else {
        output_results(ls.drop_last()) + match line_result(ls.last()) {
            Some(r) => seq![r],
            None => seq![],
        }
    }
}

// ---------------------------------------------------------------------------
// Joined outputs
// ---------------------------------------------------------------------------
proof fn lemma_trim_start_push(y: Seq<char>, c: char)
    requires
        is_ws(c),
    ensures
        trim_start(y.push(c)) == if trim_start(y).len() == 0 {
            Seq::<char>::empty()
        } else {
            trim_start(y).push(c)
        },
    decreases y.len(),
{
    if y.len() == 0 {
        assert(seq![c].drop_first() =~= Seq::<char>::empty());
        assert(y.push(c) =~= seq![c]);
        assert(trim_start(Seq::<char>::empty()) == Seq::<char>::empty());
        assert(trim_start(y) == y);
    } else {
        assert(y.push(c)[0] == y[0]);
        assert(y.push(c).drop_first() =~= y.drop_first().push(c));
        if is_ws(y[0]) {
            lemma_trim_start_push(y.drop_first(), c);
        }
    }
}

/// A carriage return at the end of a line is white space that `trim` drops.
proof fn lemma_trim_strip_cr(x: Seq<char>)
    ensures
        trim(strip_cr(x)) == trim(x),
{
    if x.len() > 0 && x.last() == '\r' {
        let y = x.drop_last();
        assert(x =~= y.push('\r'));
        lemma_trim_start_push(y, '\r');
        if trim_start(y).len() > 0 {
            assert(trim_start(y).push('\r').drop_last() =~= trim_start(y));
        }
    }
}

proof fn lemma_output_results_add(x: Seq<Seq<char>>, y: Seq<Seq<char>>)
    ensures
        output_results(x + y) == output_results(x) + output_results(y),
    decreases y.len(),
{
    if y.len() == 0 {
        assert(x + y =~= x);
        assert(output_results(x) + output_results(y) =~= output_results(x));
    } else {
        assert((x + y).drop_last() =~= x + y.drop_last());
        assert((x + y).last() == y.last());
        lemma_output_results_add(x, y.drop_last());
        let tail = match line_result(y.last()) {
            Some(r) => seq![r],
            None => Seq::<ResultView>::empty(),
        };
        assert(output_results(x) + output_results(y.drop_last()) + tail =~= output_results(x) + (
        output_results(y.drop_last()) + tail));
    }
}

proof fn lemma_output_results_one(l: Seq<char>)
    ensures
        output_results(seq![l]) == match line_result(l) {
            Some(r) => seq![r],
            None => Seq::<ResultView>::empty(),
        },
{
    assert(seq![l].drop_last() =~= Seq::<Seq<char>>::empty());
    assert(seq![l].last() == l);
    assert(output_results(Seq::<Seq<char>>::empty()) == Seq::<ResultView>::empty());
    let tail = match line_result(l) {
        Some(r) => seq![r],
        None => Seq::<ResultView>::empty(),
    };
    assert(Seq::<ResultView>::empty() + tail =~= tail);
}

proof fn lemma_joined(a: Seq<char>, b: Seq<char>)
    ensures
        output_results(lines(a + seq!['\n'] + b)) == output_results(lines(a)) + output_results(
            lines(b),
        ),
    decreases a.len(),
{
    let nl = seq!['\n'];
    let j = a + nl + b;
    let i = find_char(a, '\n');
    assert(j =~= a + (nl + b));
    lemma_find_char_concat(a, nl + b, '\n');
    lemma_find_char_bound(a, '\n');
    if i < a.len() {
        let rest = a.skip((i + 1) as int);
        assert(j.take(i as int) =~= a.take(i as int));
        assert(j.skip((i + 1) as int) =~= rest + nl + b);
        let first = seq![strip_cr(a.take(i as int))];
        assert(lines(j) == first + lines(rest + nl + b));
        assert(lines(a) == first + lines(rest));
        lemma_joined(rest, b);
        lemma_output_results_add(first, lines(rest + nl + b));
        lemma_output_results_add(first, lines(rest));
        assert(output_results(first) + (output_results(lines(rest)) + output_results(lines(b)))
            =~= output_results(first) + output_results(lines(rest)) + output_results(lines(b)));
    } else {
        assert((nl + b)[0] == '\n');
        assert(find_char(nl + b, '\n') == 0);
        assert(j.take(a.len() as int) =~= a);
        assert(j.skip((a.len() + 1) as int) =~= b);
        let first = seq![strip_cr(a)];
        assert(lines(j) == first + lines(b));
        lemma_output_results_add(first, lines(b));
        lemma_output_results_one(strip_cr(a));
        lemma_trim_strip_cr(a);
        if a.len() == 0 {
            assert(lines(a) =~= Seq::<Seq<char>>::empty());
            assert(output_results(lines(a)) =~= Seq::<ResultView>::empty());
            assert(strip_cr(a) =~= a);
        } else {
            assert(lines(a) == seq![a]);
            lemma_output_results_one(a);
        }
    }
}

/// Reading two outputs joined by a line break gives the results of the
/// first followed by those of the second.
pub proof fn law_joined_outputs(a: Seq<char>, b: Seq<char>)
    ensures
        output_results(lines(a + "\n"@ + b)) == output_results(lines(a)) + output_results(lines(b)),
{
    reveal_strlit("\n");
    assert("\n"@ =~= seq!['\n']);
    lemma_joined(a, b);
}

/// The count that a summary line such as `Scanned files: 12` adds, read
/// from its trimmed lower-case form; other lines add nothing.
pub open spec fn summary_value(lower: Seq<char>) -> nat {
    if starts_with(lower, "scanned directories:"@) || starts_with(lower, "scanned files:"@) {
        match second_field(lower, ':') {
            Some(v) => match parse_unsigned(trim(v), u64::MAX as nat) {
                Some(n) => n,
                None => 0,
            },
            None => 0,
        }
    } else {
        0
    }
}

/// `a + b` modulo 2^64: `u64` addition that wraps.
pub open spec fn wrap_add(a: nat, b: nat) -> nat {
    (a + b) % 0x1_0000_0000_0000_0000
}

/// The sum of the summary counts of the given lines.
pub open spec fn summary_total(ls: Seq<Seq<char>>) -> nat
    decreases ls.len(),
{
    if ls.len() == 0 {
        0
    } else {
        wrap_add(summary_total(ls.drop_last()), summary_value(lowercase(trim(ls.last()))))
    }
}

/// The number of files scanned according to the whole output: the sum of
/// its summary counts, or, when that is zero, the number of file lines.
pub open spec fn summary_files(output: Seq<char>) -> nat {
    let t = summary_total(lines(output));
    if t == 0 {
        output_results(lines(output)).len()
    } else {
        t
    }
}

fn lit(s: &str) -> (v: Vec<char>)
    ensures
        v@ == s@,
{
    chars_of(s)
}

/// `result_of_line` of `t`.
fn result_of_line_exec(t: &Vec<char>) -> (r: Option<ScanResult>)
    ensures
        r matches Some(x) ==> result_of_line(t@) == Some(x@),
        r is None ==> result_of_line(t@) is None,
{
    let status = if contains_exec(t, &lit("FOUND")) {
        FileStatus::Infected
    } else if contains_exec(t, &lit("OK")) {
        FileStatus::Clean
    } else if contains_exec(t, &lit("ERROR")) {
        FileStatus::Error
    } else {
        return None;
    };
    let sep = lit(": ");
    proof {
        reveal_strlit(": ");
    }
    match rfind_exec(t, &sep) {
        None => None,
        Some(pos) => {
            let n = t.len();
            assert(pos + 2 <= n);
            let path = slice_of(t, 0, pos);
            assert(path@ =~= t@.take(pos as int));
            let threat = if status == FileStatus::Infected {
                let rest = slice_of(t, pos + 2, n);
                assert(rest@ =~= t@.skip(pos + 2));
                let found = lit("FOUND");
                proof {
                    reveal_strlit("FOUND");
                }
                let replaced = replace_exec(&rest, &found, &lit(""));
                let tr = trim_chars(&replaced);
                Some(string_from(&tr))
            } else {
                None
            };
            Some(ScanResult { path: string_from(&path), status, threat })
        },
    }
}

/// `line_result` of `line`.
fn line_result_exec(line: &Vec<char>) -> (r: Option<ScanResult>)
    ensures
        r matches Some(x) ==> line_result(line@) == Some(x@),
        r is None ==> line_result(line@) is None,
{
    let t = trim_chars(line);
    if t.len() == 0 || starts_with_exec(&t, &lit("-----")) || starts_with_exec(
        &t,
        &lit("Scan started"),
    ) {
        None
    } else {
        result_of_line_exec(&t)
    }
}

/// `summary_value` of a trimmed lower-case line.
fn summary_value_exec(lower: &Vec<char>) -> (n: u64)
    ensures
        n == summary_value(lower@),
{
    if starts_with_exec(lower, &lit("scanned directories:")) || starts_with_exec(
        lower,
        &lit("scanned files:"),
    ) {
        match second_field_exec(lower, ':') {
            Some(v) => {
                let t = trim_chars(&v);
                match parse_unsigned_exec(&t, u64::MAX) {
                    Some(n) => n,
                    None => 0,
                }
            },
            None => 0,
        }
    } else {
        0
    }
}

/// The count that a summary line adds; `lower` is the trimmed line in lower
/// case.
pub fn summary_count(lower: &str) -> (n: u64)
    ensures
        n == summary_value(lower@),
{
    let v = chars_of(lower);
    summary_value_exec(&v)
}

/// The files reported in a saved `clamscan` output, in order.
pub fn parse_clamscan_output(output: &str) -> (r: Vec<ScanResult>)
    ensures
        result_views(r@) == output_results(lines(output@)),
{
    let v = chars_of(output);
    parse_output_chars(&v)
}

fn parse_output_chars(v: &Vec<char>) -> (r: Vec<ScanResult>)
    ensures
        result_views(r@) == output_results(lines(v@)),
{
    let spans = line_spans(v);
    let mut r: Vec<ScanResult> = Vec::new();
    let mut i: usize = 0;
    while i < spans.len()
        invariant
            spans_in(v@, spans@),
            span_texts(v@, spans@) == lines(v@),
            i <= spans@.len(),
            result_views(r@) == output_results(lines(v@).take(i as int)),
        decreases spans@.len() - i,
    {
        let line = slice_of(v, spans[i].0, spans[i].1);
        let ghost before = r@;
        match line_result_exec(&line) {
            Some(x) => {
                r.push(x);
            },
            None => {},
        }
        proof {
            let ls = lines(v@).take(i + 1);
            assert(ls.drop_last() =~= lines(v@).take(i as int));
            assert(ls.last() == line@);
            assert(result_views(r@) =~= output_results(ls));
        }
        i = i + 1;
    }
    proof {
        assert(lines(v@).take(spans@.len() as int) =~= lines(v@));
    }
    r
}

/// The totals read from the end of a `clamscan` output.
#[derive(Debug)]
pub struct ScanSummary {
    pub files_scanned: u64,
}

/// The number of files that a `clamscan` output says were scanned.
pub fn parse_clamscan_summary(output: &str) -> (s: ScanSummary)
    ensures
        s.files_scanned == summary_files(output@),
{
    let v = chars_of(output);
    summary_of_chars(&v)
}

fn summary_of_chars(v: &Vec<char>) -> (s: ScanSummary)
    ensures
        s.files_scanned == summary_files(v@),
{
    let spans = line_spans(v);
    let mut total: u64 = 0;
    let mut i: usize = 0;
    while i < spans.len()
        invariant
            spans_in(v@, spans@),
            span_texts(v@, spans@) == lines(v@),
            i <= spans@.len(),
            total == summary_total(lines(v@).take(i as int)),
        decreases spans@.len() - i,
    {
        let line = slice_of(v, spans[i].0, spans[i].1);
        let t = trim_chars(&line);
        let lower = lowercase_chars(&t);
        let n = summary_value_exec(&lower);
        total = total.wrapping_add(n);
        proof {
            let ls = lines(v@).take(i + 1);
            assert(ls.drop_last() =~= lines(v@).take(i as int));
            assert(ls.last() == line@);
        }
        i = i + 1;
    }
    proof {
        assert(lines(v@).take(spans@.len() as int) =~= lines(v@));
    }
    if total == 0 {
        let parsed = parse_output_chars(v);
        ScanSummary { files_scanned: parsed.len() as u64 }
    } else {
        ScanSummary { files_scanned: total }
    }
}

// ---------------------------------------------------------------------------
// A running scan
// ---------------------------------------------------------------------------
/// What a running scan reports to the user as the output comes in.
#[derive(Debug)]
pub enum ScanEvent {
    Progress { current_file: String, files_scanned: u64, known_threats: u64, total_files: u64 },
    FileResult(ScanResult),
}

/// The spec form of a `ScanEvent`.
pub enum EventView {
    Progress(Seq<char>, u64, u64, u64),
    FileResult(ResultView),
}

pub open spec fn event_view(e: ScanEvent) -> EventView {
    match e {
        ScanEvent::Progress { current_file, files_scanned, known_threats, total_files } => {
            EventView::Progress(current_file@, files_scanned, known_threats, total_files)
        },
        ScanEvent::FileResult(r) => EventView::FileResult(r@),
    }
}

pub open spec fn event_views(s: Seq<ScanEvent>) -> Seq<EventView> {
    s.map_values(|e: ScanEvent| event_view(e))
}

/// The state of a scan while `clamscan` runs: the files counted so far, the
/// files reported and every output line read.
pub struct ScanSession {
    pub total_files: u64,
    pub files_scanned: u64,
    pub results: Vec<ScanResult>,
    pub lines: Vec<String>,
}

/// Counter, results and the events to send after reading one output line.
pub open spec fn session_step(
    files: u64,
    results: Seq<ResultView>,
    total_files: u64,
    line: Seq<char>,
) -> (u64, Seq<ResultView>, Seq<EventView>) {
    if is_banner_line(line) {
        (files, results, seq![])
    } else {
        match result_of_line(line) {
            Some(r) => {
                let f = wrap_add(files as nat, 1) as u64;
                (
                    f,
                    results.push(r),
                    seq![EventView::FileResult(r), EventView::Progress(r.0, f, 0, total_files)],
                )
            },
            None => (
                wrap_add(files as nat, summary_value(lowercase(trim(line)))) as u64,
                results,
                seq![],
            ),
        }
    }
}

/// How `clamscan` ended.
#[derive(Debug)]
pub enum ExitReport {
    /// It exited with this code.
    Code(i32),
    /// It was killed by a signal.
    Signal,
    /// Waiting for it failed, with this error text.
    WaitFailed(String),
}

/// How a scan ends.
#[derive(Debug)]
pub enum ScanOutcome {
    Cancelled,
    Completed { files_scanned: u64, results: Vec<ScanResult>, warning: Option<String> },
    Error(String),
}

/// The spec form of a `ScanOutcome`.
pub enum OutcomeView {
    Cancelled,
    Completed(u64, Seq<ResultView>, Option<Seq<char>>),
    Error(Seq<char>),
}

pub open spec fn outcome_view(o: ScanOutcome) -> OutcomeView {
    match o {
        ScanOutcome::Cancelled => OutcomeView::Cancelled,
        ScanOutcome::Completed { files_scanned, results, warning } => OutcomeView::Completed(
            files_scanned,
            result_views(results@),
            match warning {
                Some(w) => Some(w@),
                None => None,
            },
        ),
        ScanOutcome::Error(e) => OutcomeView::Error(e@),
    }
}

/// The infected results, in order.
pub open spec fn infected(rs: Seq<ResultView>) -> Seq<ResultView> {
    rs.filter(|r: ResultView| r.1 == FileStatus::Infected)
}

/// The last line of `ls` that is not blank.
pub open spec fn last_nonblank(ls: Seq<Seq<char>>) -> Option<Seq<char>>
    decreases ls.len(),
{
    if ls.len() == 0 {
        None
    } else if trim(ls.last()).len() > 0 {
        Some(ls.last())
    } else {
        last_nonblank(ls.drop_last())
    }
}

/// Why `clamscan` failed, from what it wrote to its error output.
pub open spec fn failure_reason(stderr: Seq<char>) -> Seq<char> {
    match last_nonblank(lines(stderr)) {
        Some(l) => l,
        None => "unknown error"@,
    }
}

/// The warning of a scan that skipped files it could not read.
pub open spec fn skipped_warning(in_snap: bool) -> Seq<char> {
    if in_snap {
        "some files were skipped because the snap sandbox cannot read hidden or system files"@
    } else {
        "some files could not be read and were skipped"@
    }
}

/// How a scan ends: `lines` and `results` are what the session gathered,
/// `counted` its file counter.  The summary at the end of the output, when
/// it counts any file, overrides the counter.  Exit codes 0 and 1 complete
/// the scan; code 2 completes it with a warning when anything was scanned
/// and fails it otherwise; anything else fails it.
pub open spec fn scan_end(
    lines_read: Seq<Seq<char>>,
    counted: u64,
    results: Seq<ResultView>,
    cancelled: bool,
    exit: ExitReport,
    stderr: Seq<char>,
    in_snap: bool,
) -> OutcomeView {
    let s = summary_files(join(lines_read, "\n"@));
    let files: u64 = if s > 0 {
        s as u64
    } else {
        counted
    };
    if cancelled {
        OutcomeView::Cancelled
    } else {
        match exit {
            ExitReport::Code(c) => if c == 0 || c == 1 {
                OutcomeView::Completed(files, infected(results), None)
            } else if c == 2 {
                if files == 0 && results.len() == 0 {
                    OutcomeView::Error(
                        "clamscan failed (exit code 2): "@ + failure_reason(stderr),
                    )
                } else {
                    OutcomeView::Completed(files, infected(results), Some(skipped_warning(in_snap)))
                }
            } else {
                OutcomeView::Error(
                    "clamscan exited unexpectedly ("@ + signed_decimal(c as int) + ")"@,
                )
            },
            ExitReport::Signal => OutcomeView::Error(
                "clamscan exited unexpectedly (killed by signal)"@,
            ),
            ExitReport::WaitFailed(e) => OutcomeView::Error("Scan failed: "@ + e@),
        }
    }
}

/// How a scan ends, over all inputs. A cancelled scan is cancelled,
/// whatever the exit. Exit codes 0 and 1 complete the scan with no
/// warning. Exit code 2 completes it with the skipped-files warning as soon
/// as any file was counted (the summary count when it is positive, else
/// the counter) or any result was read, and fails it only when neither
/// happened. Any other exit fails it. A completed scan reports that file
/// count and the infected results, in order.
pub proof fn law_scan_end(
    lines_read: Seq<Seq<char>>,
    counted: u64,
    results: Seq<ResultView>,
    stderr: Seq<char>,
    in_snap: bool,
    code: i32,
)
    ensures
        forall|exit: ExitReport|
            #[trigger] scan_end(lines_read, counted, results, true, exit, stderr, in_snap)
                == OutcomeView::Cancelled,
        ({
            let s = summary_files(join(lines_read, "\n"@));
            let files: u64 = if s > 0 {
                s as u64
            } else {
                counted
            };
            let end = scan_end(lines_read, counted, results, false, ExitReport::Code(code), stderr, in_snap);
            let warning = if in_snap {
                "some files were skipped because the snap sandbox cannot read hidden or system files"@
            } else {
                "some files could not be read and were skipped"@
            };
            &&& (code == 0 || code == 1) ==> end == OutcomeView::Completed(files, infected(results), None)
            &&& (code == 2 && (files > 0 || results.len() > 0)) ==> end == OutcomeView::Completed(
                files,
                infected(results),
                Some(warning),
            )
            &&& (code == 2 && files == 0 && results.len() == 0) ==> end is Error
            &&& (code != 0 && code != 1 && code != 2) ==> end is Error
        }),
        scan_end(lines_read, counted, results, false, ExitReport::Signal, stderr, in_snap) is Error,
        forall|e: String|
            #[trigger] scan_end(
                lines_read,
                counted,
                results,
                false,
                ExitReport::WaitFailed(e),
                stderr,
                in_snap,
            ) is Error,
        forall|i: int|
            0 <= i < infected(results).len() ==> #[trigger] infected(results)[i].1
                == FileStatus::Infected,
{
    assert forall|i: int|
        0 <= i < infected(results).len() implies #[trigger] infected(results)[i].1
        == FileStatus::Infected by {
        results.lemma_filter_pred(|r: ResultView| r.1 == FileStatus::Infected, i);
    }
}

impl ScanSession {
    /// A session for a scan of `total_files` files (an estimate).
    pub fn new(total_files: u64) -> (s: ScanSession)
        ensures
            s.total_files == total_files,
            s.files_scanned == 0,
            s.results@.len() == 0,
            s.lines@.len() == 0,
    {
        ScanSession { total_files, files_scanned: 0, results: Vec::new(), lines: Vec::new() }
    }

    /// Reads one line of `clamscan` output; returns what to report.
    pub fn process_line(&mut self, line: &str) -> (events: Vec<ScanEvent>)
        ensures
            final(self).total_files == old(self).total_files,
            views(final(self).lines@) == views(old(self).lines@).push(line@),
            ({
                let step = session_step(
                    old(self).files_scanned,
                    result_views(old(self).results@),
                    old(self).total_files,
                    line@,
                );
                &&& final(self).files_scanned == step.0
                &&& result_views(final(self).results@) == step.1
                &&& event_views(events@) == step.2
            }),
    {
        let ghost old_results = result_views(self.results@);
        self.lines.push(String::from_str(line));
        proof {
            assert(views(self.lines@) =~= views(old(self).lines@).push(line@));
        }
        let mut events: Vec<ScanEvent> = Vec::new();
        let v = chars_of(line);
        let t = trim_chars(&v);
        if t.len() == 0 || starts_with_exec(&v, &lit("-----")) || starts_with_exec(
            &v,
            &lit("Scan started"),
        ) {
            assert(event_views(events@) =~= seq![]);
            return events;
        }
        match result_of_line_exec(&v) {
            Some(r) => {
                self.files_scanned = self.files_scanned.wrapping_add(1);
                let copy = r.clone();
                let current = r.path.clone();
                self.results.push(copy);
                events.push(ScanEvent::FileResult(r));
                events.push(
                    ScanEvent::Progress {
                        current_file: current,
                        files_scanned: self.files_scanned,
                        known_threats: 0,
                        total_files: self.total_files,
                    },
                );
                proof {
                    assert(result_views(self.results@) =~= old_results.push(copy@));
                    assert(event_views(events@) =~= seq![
                        event_view(events@[0]),
                        event_view(events@[1]),
                    ]);
                }
            },
            None => {
                let lower = lowercase_chars(&t);
                let n = summary_value_exec(&lower);
                self.files_scanned = self.files_scanned.wrapping_add(n);
                assert(event_views(events@) =~= seq![]);
            },
        }
        events
    }

    /// How the scan ends, once `clamscan` has closed its output:
    /// `cancelled` says whether the user cancelled it, `exit` how the
    /// process ended, `stderr` what it wrote to its error output.
    pub fn finish(&self, cancelled: bool, exit: ExitReport, stderr: &str, in_snap: bool) -> (o:
        ScanOutcome)
        ensures
            outcome_view(o) == scan_end(
                views(self.lines@),
                self.files_scanned,
                result_views(self.results@),
                cancelled,
                exit,
                stderr@,
                in_snap,
            ),
    {
        if cancelled {
            return ScanOutcome::Cancelled;
        }
        let full = crate::text::join_strings(&self.lines, "\n");
        let fv = chars_of(full.as_str());
        let summary = summary_of_chars(&fv);
        let files = if summary.files_scanned > 0 {
            summary.files_scanned
        } else {
            self.files_scanned
        };
        match exit {
            ExitReport::Code(c) => {
                if c == 0 || c == 1 {
                    ScanOutcome::Completed {
                        files_scanned: files,
                        results: infected_results(&self.results),
                        warning: None,
                    }
                } else if c == 2 {
                    if files == 0 && self.results.len() == 0 {
                        let mut msg = String::from_str("clamscan failed (exit code 2): ");
                        let reason = failure_reason_exec(stderr);
                        msg.append(reason.as_str());
                        ScanOutcome::Error(msg)
                    } else {
                        let warning = if in_snap {
                            String::from_str(
                                "some files were skipped because the snap sandbox cannot read hidden or system files",
                            )
                        } else {
                            String::from_str("some files could not be read and were skipped")
                        };
                        ScanOutcome::Completed {
                            files_scanned: files,
                            results: infected_results(&self.results),
                            warning: Some(warning),
                        }
                    }
                } else {
                    let mut msg = String::from_str("clamscan exited unexpectedly (");
                    let code = string_from(&i32_to_chars(c));
                    msg.append(code.as_str());
                    msg.append(")");
                    ScanOutcome::Error(msg)
                }
            },
            ExitReport::Signal => ScanOutcome::Error(
                String::from_str("clamscan exited unexpectedly (killed by signal)"),
            ),
            ExitReport::WaitFailed(e) => {
                let mut msg = String::from_str("Scan failed: ");
                msg.append(e.as_str());
                ScanOutcome::Error(msg)
            },
        }
    }
}

/// `failure_reason(stderr)`.
#[verifier::rlimit(30)]
fn failure_reason_exec(stderr: &str) -> (r: String)
    ensures
        r@ == failure_reason(stderr@),
{
    let v = chars_of(stderr);
    let spans = line_spans(&v);
    let ghost ls = lines(v@);
    let mut k = spans.len();
    assert(ls.take(k as int) =~= ls);
    while k > 0
        invariant
            spans_in(v@, spans@),
            span_texts(v@, spans@) == ls,
            ls == lines(v@),
            v@ == stderr@,
            k <= spans@.len(),
            last_nonblank(ls) == last_nonblank(ls.take(k as int)),
        decreases k,
    {
        let line = slice_of(&v, spans[k - 1].0, spans[k - 1].1);
        let t = trim_chars(&line);
        proof {
            let pre = ls.take(k as int);
            assert(pre.last() == line@);
            assert(pre.drop_last() =~= ls.take(k - 1));
        }
        if t.len() > 0 {
            assert(last_nonblank(ls.take(k as int)) == Some(line@));
            assert(failure_reason(stderr@) == line@);
            let r = string_from(&line);
            return r;
        }
        k = k - 1;
    }
    proof {
        assert(ls.take(0) =~= Seq::<Seq<char>>::empty());
    }
    String::from_str("unknown error")
}

/// The infected results, in order.
pub fn infected_results(results: &Vec<ScanResult>) -> (r: Vec<ScanResult>)
    ensures
        result_views(r@) == infected(result_views(results@)),
{
    let ghost all = result_views(results@);
    let mut r: Vec<ScanResult> = Vec::new();
    let mut i: usize = 0;
    while i < results.len()
        invariant
            i <= results@.len(),
            all == result_views(results@),
            result_views(r@) == infected(all.take(i as int)),
        decreases results@.len() - i,
    {
        proof {
            reveal_with_fuel(Seq::filter, 1);
            assert(all.take(i + 1).drop_last() =~= all.take(i as int));
        }
        if results[i].status == FileStatus::Infected {
            r.push(results[i].clone());
        }
        proof {
            assert(result_views(r@) =~= infected(all.take(i + 1)));
        }
        i = i + 1;
    }
    proof {
        assert(all.take(all.len() as int) =~= all);
    }
    r
}

/// The paths of the given results, in order.
pub fn result_paths(results: &Vec<ScanResult>) -> (r: Vec<String>)
    ensures
        views(r@) == result_views(results@).map_values(|x: ResultView| x.0),
{
    let mut r: Vec<String> = Vec::new();
    let mut i: usize = 0;
    while i < results.len()
        invariant
            i <= results@.len(),
            views(r@) == result_views(results@).take(i as int).map_values(|x: ResultView| x.0),
        decreases results@.len() - i,
    {
        let ghost before = r@;
        r.push(results[i].path.clone());
        proof {
            let rv = result_views(results@);
            assert(rv.take(i + 1) =~= rv.take(i as int).push(results@[i as int]@));
            assert(views(r@) =~= views(before).push(results@[i as int].path@));
            assert(views(r@) =~= rv.take(i + 1).map_values(|x: ResultView| x.0));
        }
        i = i + 1;
    }
    proof {
        assert(result_views(results@).take(results@.len() as int) =~= result_views(results@));
    }
    r
}

// ---------------------------------------------------------------------------
// Starting a scan
// ---------------------------------------------------------------------------
/// The arguments that point a scan inside a snap at the bundled signature
/// database and certificates, when their directories are known.
pub open spec fn snap_args(
    in_snap: bool,
    database_dir: Option<Seq<char>>,
    cvdcerts_dir: Option<Seq<char>>,
) -> Seq<Seq<char>> {
    if in_snap {
        (match database_dir {
            Some(d) => seq!["--database"@, d],
            None => seq![],
        }) + (match cvdcerts_dir {
            Some(c) => seq!["--cvdcertsdir"@, c],
            None => seq![],
        })
    } else {
        seq![]
    }
}

/// The arguments of `clamscan` for a scan of `target`: the options of the
/// configuration, the snap's directories, then the target.
pub fn scan_command_args(
    config: &AppConfig,
    in_snap: bool,
    snap_database_dir: Option<&str>,
    snap_cvdcerts_dir: Option<&str>,
    target: &str,
) -> (args: Vec<String>)
    ensures
        views(args@) == clamscan_args(*config) + snap_args(
            in_snap,
            opt_view(snap_database_dir),
            opt_view(snap_cvdcerts_dir),
        ) + seq![target@],
{
    let mut args = config.to_clamscan_args();
    let ghost base = views(args@);
    if in_snap {
        match snap_database_dir {
            Some(d) => {
                push_str(&mut args, "--database");
                push_str(&mut args, d);
            },
            None => {},
        }
        match snap_cvdcerts_dir {
            Some(c) => {
                push_str(&mut args, "--cvdcertsdir");
                push_str(&mut args, c);
            },
            None => {},
        }
    }
    push_str(&mut args, target);
    assert(views(args@) =~= base + snap_args(
        in_snap,
        opt_view(snap_database_dir),
        opt_view(snap_cvdcerts_dir),
    ) + seq![target@]);
    args
}

/// The error of a scan whose signature database could not be made ready.
pub fn database_failure_message(error: &str) -> (r: String)
    ensures
        r@ == "Could not prepare the virus database: "@ + error@,
{
    let mut r = String::from_str("Could not prepare the virus database: ");
    r.append(error);
    r
}

/// The error of a scan whose `clamscan` could not be started.
pub fn launch_failure_message(error: &str) -> (r: String)
    ensures
        r@ == "Failed to start clamscan: "@ + error@ + ". Is ClamAV installed?"@,
{
    let mut r = String::from_str("Failed to start clamscan: ");
    r.append(error);
    r.append(". Is ClamAV installed?");
    r
}

} // verus!
