//! The user's scan settings and the command line they give `clamscan`.
use vstd::prelude::*;
use crate::text::{
    chars_of, decimal, is_ws, join, join_strings, line_spans, lines, span_texts, spans_in,
    string_of, trim, trim_chars, trim_end, trim_start, u64_to_string, views, find_char,
    lemma_find_char_bound, strip_cr,
};
use crate::paths::{join_path, path_join};

verus! {

broadcast use vstd::string::group_string_axioms;

/// The settings, as the settings page edits them and `config.json` holds them.
#[derive(Debug, Clone)]
pub struct AppConfig {
    pub scan_archives: bool,
    pub scan_elf: bool,
    pub scan_pdf: bool,
    pub scan_mail: bool,
    pub scan_ole2: bool,
    pub detect_pua: bool,
    pub heuristic_scan: bool,
    pub scan_follow_symlinks: bool,
    pub exclude_paths: Vec<String>,
    pub max_file_size_mb: u64,
    pub max_scan_time_sec: u64,
    pub quarantine_dir: String,
    pub history_limit: usize,
}

/// Appends a copy of `s`.
pub(crate) fn push_str(args: &mut Vec<String>, s: &str)
    ensures
        views(final(args)@) == views(old(args)@).push(s@),
{
    args.push(String::from_str(s));
    assert(views(final(args)@) =~= views(old(args)@).push(s@));
}

/// The option for a setting: `yes` when it is on, `no` (if any) when off.
pub open spec fn choice(on: bool, yes: Seq<char>, no: Option<Seq<char>>) -> Seq<Seq<char>> {
    if on {
        seq![yes]
    } else {
        match no {
            Some(n) => seq![n],
            None => seq![],
        }
    }
}

fn push_choice(args: &mut Vec<String>, on: bool, yes: &str, no: Option<&str>)
    ensures
        views(final(args)@) == views(old(args)@) + choice(on, yes@, opt_view(no)),
{
    if on {
        push_str(args, yes);
    } else {
        match no {
            Some(n) => push_str(args, n),
            None => {},
        }
    }
    assert(views(args@) =~= views(old(args)@) + choice(on, yes@, opt_view(no)));
}

/// The base directory that stands in when the platform names none.
pub open spec fn base_or_tmp(base: Option<Seq<char>>) -> Seq<char> {
    match base {
        Some(b) => b,
        None => "/tmp"@,
    }
}

pub open spec fn opt_view(o: Option<&str>) -> Option<Seq<char>> {
    match o {
        Some(s) => Some(s@),
        None => None,
    }
}

/// The application's directory under a platform directory.
pub open spec fn app_dir(base: Option<Seq<char>>) -> Seq<char> {
    path_join(base_or_tmp(base), "clamtk-rs"@)
}

fn base_or_tmp_exec(base: Option<&str>) -> (r: String)
    ensures
        r@ == base_or_tmp(opt_view(base)),
{
    match base {
        Some(b) => String::from_str(b),
        None => String::from_str("/tmp"),
    }
}

/// The number of seconds a scan may take, in the milliseconds that
/// `--max-scantime` expects, taken modulo 2^64 as `u64` multiplication
/// wraps.
pub open spec fn scan_time_ms(sec: u64) -> nat {
    (sec as nat * 1000) % 0x1_0000_0000_0000_0000
}

/// `--exclude-dir` and the path, for each excluded path in order.
pub open spec fn exclude_args(paths: Seq<Seq<char>>) -> Seq<Seq<char>>
    decreases paths.len(),
{
    if paths.len() == 0 {
        seq![]
    } else {
        exclude_args(paths.drop_last()) + seq!["--exclude-dir"@, paths.last()]
    }
}

/// The options given to `clamscan` for a configuration.
pub open spec fn clamscan_args(c: AppConfig) -> Seq<Seq<char>> {
    option_args(c) + exclude_args(views(c.exclude_paths@)) + seq!["--infected"@, "--bell"@]
}

/// The options of `clamscan_args` before the excluded paths.
pub open spec fn option_args(c: AppConfig) -> Seq<Seq<char>> {
    arg_archive(c) + arg_elf(c) + arg_pdf(c) + arg_mail(c) + arg_ole2(c) + arg_pua(c) + arg_heuristic(
        c,
    ) + arg_symlinks(c) + arg_limits(c)
}

pub open spec fn arg_archive(c: AppConfig) -> Seq<Seq<char>> {
    choice(c.scan_archives, "--archive-verbose"@, Some("--no-archive"@))
}

pub open spec fn arg_elf(c: AppConfig) -> Seq<Seq<char>> {
    choice(c.scan_elf, "--scan-elf=yes"@, None)
}

pub open spec fn arg_pdf(c: AppConfig) -> Seq<Seq<char>> {
    choice(c.scan_pdf, "--scan-pdf=yes"@, Some("--scan-pdf=no"@))
}

pub open spec fn arg_mail(c: AppConfig) -> Seq<Seq<char>> {
    choice(c.scan_mail, "--scan-mail=yes"@, Some("--scan-mail=no"@))
}

pub open spec fn arg_ole2(c: AppConfig) -> Seq<Seq<char>> {
    choice(c.scan_ole2, "--scan-ole2=yes"@, Some("--scan-ole2=no"@))
}

pub open spec fn arg_pua(c: AppConfig) -> Seq<Seq<char>> {
    choice(c.detect_pua, "--detect-pua=yes"@, None)
}

pub open spec fn arg_heuristic(c: AppConfig) -> Seq<Seq<char>> {
    choice(c.heuristic_scan, "--heuristic-scan-precedence=yes"@, None)
}

pub open spec fn arg_symlinks(c: AppConfig) -> Seq<Seq<char>> {
    choice(!c.scan_follow_symlinks, "--follow-file-symlinks=0"@, None)
}

pub open spec fn arg_limits(c: AppConfig) -> Seq<Seq<char>> {
    seq![
        "--max-filesize="@ + decimal(c.max_file_size_mb as nat) + "M"@,
        "--max-scantime="@ + decimal(scan_time_ms(c.max_scan_time_sec)),
        "--recursive"@,
    ]
}

/// The excluded paths of the settings text: its lines, trimmed, without
/// the empty ones.
pub open spec fn exclude_list(ls: Seq<Seq<char>>) -> Seq<Seq<char>>
    decreases ls.len(),
{
    if ls.len() == 0 {
        seq![]
    } else {
        exclude_list(ls.drop_last()) + if trim(ls.last()).len() > 0 {
            seq![trim(ls.last())]
        } else {
            seq![]
        }
    }
}

/// An excluded path as the settings text can hold it: not empty, without
/// surrounding white space and without a line break.
pub open spec fn is_plain_path(p: Seq<char>) -> bool {
    &&& p.len() > 0
    &&& trim(p) == p
    &&& forall|i: int| 0 <= i < p.len() ==> p[i] != '\n'
}

impl AppConfig {
    /// The configuration a new user starts with; `data_dir` is the
    /// platform's data directory, if it names one.
    pub fn default_in(data_dir: Option<&str>) -> (c: AppConfig)
        ensures
            c.scan_archives && c.scan_elf && c.scan_pdf && c.scan_mail && c.scan_ole2,
            !c.detect_pua,
            c.heuristic_scan,
            !c.scan_follow_symlinks,
            views(c.exclude_paths@) == seq!["/proc"@, "/sys"@, "/dev"@],
            c.max_file_size_mb == 25,
            c.max_scan_time_sec == 600,
            c.quarantine_dir@ == path_join(app_dir(opt_view(data_dir)), "quarantine"@),
            c.history_limit == 100,
    {
        let base = base_or_tmp_exec(data_dir);
        let app = join_path(base.as_str(), "clamtk-rs");
        let quarantine_dir = join_path(app.as_str(), "quarantine");
        let mut exclude_paths: Vec<String> = Vec::new();
        exclude_paths.push(String::from_str("/proc"));
        exclude_paths.push(String::from_str("/sys"));
        exclude_paths.push(String::from_str("/dev"));
        assert(views(exclude_paths@) =~= seq!["/proc"@, "/sys"@, "/dev"@]);
        AppConfig {
            scan_archives: true,
            scan_elf: true,
            scan_pdf: true,
            scan_mail: true,
            scan_ole2: true,
            detect_pua: false,
            heuristic_scan: true,
            scan_follow_symlinks: false,
            exclude_paths,
            max_file_size_mb: 25,
            max_scan_time_sec: 600,
            quarantine_dir,
            history_limit: 100,
        }
    }

    /// The settings directory under the platform's configuration directory.
    pub fn config_dir(config_base: Option<&str>) -> (r: String)
        ensures
            r@ == app_dir(opt_view(config_base)),
    {
        let base = base_or_tmp_exec(config_base);
        join_path(base.as_str(), "clamtk-rs")
    }

    /// `config.json` in the settings directory.
    pub fn config_file(config_base: Option<&str>) -> (r: String)
        ensures
            r@ == path_join(app_dir(opt_view(config_base)), "config.json"@),
    {
        let dir = Self::config_dir(config_base);
        join_path(dir.as_str(), "config.json")
    }

    /// The data directory under the platform's data directory.
    pub fn data_dir(data_base: Option<&str>) -> (r: String)
        ensures
            r@ == app_dir(opt_view(data_base)),
    {
        let base = base_or_tmp_exec(data_base);
        join_path(base.as_str(), "clamtk-rs")
    }

    /// `history.json` in the data directory.
    pub fn history_file(data_base: Option<&str>) -> (r: String)
        ensures
            r@ == path_join(app_dir(opt_view(data_base)), "history.json"@),
    {
        let dir = Self::data_dir(data_base);
        join_path(dir.as_str(), "history.json")
    }

    fn option_args_exec(&self) -> (args: Vec<String>)
        ensures
            views(args@) == option_args(*self),
    {
        let mut args: Vec<String> = Vec::new();
        push_choice(&mut args, self.scan_archives, "--archive-verbose", Some("--no-archive"));
        push_choice(&mut args, self.scan_elf, "--scan-elf=yes", None);
        push_choice(&mut args, self.scan_pdf, "--scan-pdf=yes", Some("--scan-pdf=no"));
        push_choice(&mut args, self.scan_mail, "--scan-mail=yes", Some("--scan-mail=no"));
        push_choice(&mut args, self.scan_ole2, "--scan-ole2=yes", Some("--scan-ole2=no"));
        push_choice(&mut args, self.detect_pua, "--detect-pua=yes", None);
        push_choice(&mut args, self.heuristic_scan, "--heuristic-scan-precedence=yes", None);
        push_choice(&mut args, !self.scan_follow_symlinks, "--follow-file-symlinks=0", None);
        self.push_limits(&mut args);
        assert(views(args@) =~= option_args(*self));
        args
    }

    fn push_limits(&self, args: &mut Vec<String>)
        ensures
            views(final(args)@) == views(old(args)@) + arg_limits(*self),
    {
        let mut size = String::from_str("--max-filesize=");
        let mb = u64_to_string(self.max_file_size_mb);
        size.append(mb.as_str());
        size.append("M");
        push_str(args, size.as_str());
        let mut time = String::from_str("--max-scantime=");
        let ms = u64_to_string(self.max_scan_time_sec.wrapping_mul(1000));
        time.append(ms.as_str());
        push_str(args, time.as_str());
        push_str(args, "--recursive");
        assert(views(args@) =~= views(old(args)@) + arg_limits(*self));
    }

    /// The options for `clamscan` that this configuration asks for; the
    /// target is appended by the scanner.
    pub fn to_clamscan_args(&self) -> (args: Vec<String>)
        ensures
            views(args@) == clamscan_args(*self),
    {
        let mut args = self.option_args_exec();
        let ghost base = views(args@);
        let ghost paths = views(self.exclude_paths@);
        proof {
            assert(paths.take(0) =~= Seq::<Seq<char>>::empty());
            assert(base + exclude_args(paths.take(0)) =~= base);
        }
        let mut i: usize = 0;
        while i < self.exclude_paths.len()
            invariant
                i <= self.exclude_paths@.len(),
                paths == views(self.exclude_paths@),
                views(args@) == base + exclude_args(paths.take(i as int)),
            decreases self.exclude_paths@.len() - i,
        {
            push_str(&mut args, "--exclude-dir");
            push_str(&mut args, self.exclude_paths[i].as_str());
            proof {
                assert(paths.take(i + 1).drop_last() =~= paths.take(i as int));
                assert(paths.take(i + 1).last() == self.exclude_paths@[i as int]@);
                assert(views(args@) =~= base + exclude_args(paths.take(i + 1)));
            }
            i = i + 1;
        }
        push_str(&mut args, "--infected");
        push_str(&mut args, "--bell");
        proof {
            assert(paths.take(paths.len() as int) =~= paths);
            assert(views(args@) =~= clamscan_args(*self));
        }
        args
    }

    /// The excluded paths as the settings page shows them, one per line.
    pub fn exclude_paths_text(&self) -> (r: String)
        ensures
            r@ == join(views(self.exclude_paths@), "\n"@),
    {
        join_strings(&self.exclude_paths, "\n")
    }
}

/// The excluded paths written in the settings page, one per line.
pub fn parse_exclude_paths(text: &str) -> (r: Vec<String>)
    ensures
        views(r@) == exclude_list(lines(text@)),
{
    let v = chars_of(text);
    let spans = line_spans(&v);
    let mut r: Vec<String> = Vec::new();
    let mut i: usize = 0;
    while i < spans.len()
        invariant
            spans_in(v@, spans@),
            span_texts(v@, spans@) == lines(v@),
            i <= spans@.len(),
            views(r@) == exclude_list(lines(v@).take(i as int)),
        decreases spans@.len() - i,
    {
        let line = crate::text::slice_of(&v, spans[i].0, spans[i].1);
        let t = trim_chars(&line);
        let ghost before = views(r@);
        if t.len() > 0 {
            r.push(crate::text::string_from(&t));
        }
        proof {
            let ls = lines(v@).take(i + 1);
            assert(ls.drop_last() =~= lines(v@).take(i as int));
            assert(ls.last() == line@);
            assert(views(r@) =~= exclude_list(ls));
        }
        i = i + 1;
    }
    proof {
        assert(lines(v@).take(spans@.len() as int) =~= lines(v@));
    }
    r
}

// ---------------------------------------------------------------------------
// The settings text gives back the paths it shows
// ---------------------------------------------------------------------------
proof fn lemma_join_front(ps: Seq<Seq<char>>, sep: Seq<char>)
    requires
        ps.len() >= 2,
    ensures
        join(ps, sep) == ps[0] + sep + join(ps.drop_first(), sep),
    decreases ps.len(),
{
    if ps.len() > 2 {
        let dl = ps.drop_last();
        lemma_join_front(dl, sep);
        assert(dl.drop_first() =~= ps.drop_first().drop_last());
        assert(ps.drop_first().last() == ps.last());
        assert(dl[0] == ps[0]);
        assert(join(ps.drop_first(), sep) == join(dl.drop_first(), sep) + sep + ps.last());
        assert(join(ps, sep) == join(dl, sep) + sep + ps.last());
        assert(join(ps, sep) =~= ps[0] + sep + join(ps.drop_first(), sep));
    } else {
        assert(ps.drop_last() =~= seq![ps[0]]);
        assert(ps.drop_first() =~= seq![ps[1]]);
        assert(join(ps.drop_last(), sep) == ps[0]);
        assert(join(ps.drop_first(), sep) == ps[1]);
    }
}

proof fn lemma_plain_last(p: Seq<char>)
    requires
        p.len() > 0,
        trim(p) == p,
    ensures
        !is_ws(p.last()),
{
    if is_ws(p.last()) {
        lemma_trim_end_shorter(trim_start(p));
        lemma_trim_start_shorter(p);
        assert(trim_start(p).len() > 0 && trim_start(p).last() == p.last()) by {
            lemma_trim_start_suffix(p);
        }
    }
}

proof fn lemma_trim_start_shorter(s: Seq<char>)
    ensures
        trim_start(s).len() <= s.len(),
    decreases s.len(),
{
    if s.len() > 0 && is_ws(s[0]) {
        lemma_trim_start_shorter(s.drop_first());
    }
}

proof fn lemma_trim_end_shorter(s: Seq<char>)
    ensures
        trim_end(s).len() <= s.len(),
        s.len() > 0 && is_ws(s.last()) ==> trim_end(s).len() < s.len(),
    decreases s.len(),
{
    if s.len() > 0 && is_ws(s.last()) {
        lemma_trim_end_shorter(s.drop_last());
    }
}

/// `trim_start(s)` is a suffix of `s`.
proof fn lemma_trim_start_suffix(s: Seq<char>)
    ensures
        trim_start(s) == s.skip(s.len() - trim_start(s).len()),
    decreases s.len(),
{
    if s.len() > 0 && is_ws(s[0]) {
        lemma_trim_start_suffix(s.drop_first());
        lemma_trim_start_shorter(s.drop_first());
        assert(s.drop_first().skip(s.drop_first().len() - trim_start(s).len()) =~= s.skip(
            s.len() - trim_start(s).len(),
        ));
    } else {
        assert(s.skip(0) =~= s);
    }
}

proof fn lemma_lines_of_join(ps: Seq<Seq<char>>)
    requires
        forall|i: int| 0 <= i < ps.len() ==> is_plain_path(#[trigger] ps[i]),
    ensures
        lines(join(ps, "\n"@)) == ps,
    decreases ps.len(),
{
    reveal_strlit("\n");
    if ps.len() == 0 {
        assert(lines(join(ps, "\n"@)) =~= ps);
    } else {
        let p = ps[0];
        assert(is_plain_path(p));
        lemma_find_char(p, '\n', p.len() as int);
        if ps.len() == 1 {
            assert(join(ps, "\n"@) == p);
            assert(lines(p) =~= seq![p]);
            assert(ps =~= seq![p]);
        } else {
            lemma_join_front(ps, "\n"@);
            let rest = join(ps.drop_first(), "\n"@);
            let s = p + "\n"@ + rest;
            lemma_find_char(s, '\n', p.len() as int);
            assert(s.take(p.len() as int) =~= p);
            lemma_plain_last(p);
            assert(strip_cr(p) == p);
            assert(s.skip((p.len() + 1) as int) =~= rest);
            assert forall|i: int| 0 <= i < ps.drop_first().len() implies is_plain_path(
                #[trigger] ps.drop_first()[i],
            ) by {
                assert(ps.drop_first()[i] == ps[i + 1]);
            }
            lemma_lines_of_join(ps.drop_first());
            assert(lines(s) =~= seq![p] + ps.drop_first());
            assert(ps =~= seq![p] + ps.drop_first());
        }
    }
}

proof fn lemma_find_char(s: Seq<char>, c: char, j: int)
    requires
        0 <= j <= s.len(),
        forall|k: int| 0 <= k < j ==> s[k] != c,
        j == s.len() || s[j] == c,
    ensures
        find_char(s, c) == j,
{
    crate::text::lemma_find_char(s, c, j);
}

proof fn lemma_exclude_list_plain(ps: Seq<Seq<char>>)
    requires
        forall|i: int| 0 <= i < ps.len() ==> is_plain_path(#[trigger] ps[i]),
    ensures
        exclude_list(ps) == ps,
    decreases ps.len(),
{
    if ps.len() > 0 {
        assert forall|i: int| 0 <= i < ps.drop_last().len() implies is_plain_path(
            #[trigger] ps.drop_last()[i],
        ) by {
            assert(ps.drop_last()[i] == ps[i]);
        }
        lemma_exclude_list_plain(ps.drop_last());
        assert(is_plain_path(ps[ps.len() - 1]));
        assert(ps =~= ps.drop_last() + seq![ps.last()]);
    }
}

proof fn lemma_contains_add(a: Seq<Seq<char>>, b: Seq<Seq<char>>, x: Seq<char>)
    ensures
        (a + b).contains(x) <==> a.contains(x) || b.contains(x),
{
    if a.contains(x) {
        let i = choose|i: int| 0 <= i < a.len() && a[i] == x;
        assert((a + b)[i] == x);
    }
    if b.contains(x) {
        let i = choose|i: int| 0 <= i < b.len() && b[i] == x;
        assert((a + b)[a.len() + i] == x);
    }
    if (a + b).contains(x) {
        let i = choose|i: int| 0 <= i < (a + b).len() && (a + b)[i] == x;
        if i < a.len() {
            assert(a[i] == x);
        } else {
            assert(b[i - a.len()] == x);
        }
    }
}

proof fn lemma_choice_contains(on: bool, yes: Seq<char>, no: Option<Seq<char>>, x: Seq<char>)
    ensures
        choice(on, yes, no).contains(x) <==> (on && x == yes) || (!on && no == Some(x)),
{
    let s = choice(on, yes, no);
    if s.len() == 1 {
        assert(s[0] == x ==> s.contains(x));
    }
}

/// The lengths and a few characters of the option words, which tell them
/// apart.
proof fn lemma_option_words()
    ensures
        "--archive-verbose"@.len() == 17 && "--archive-verbose"@[2] == 'a',
        "--no-archive"@.len() == 12 && "--no-archive"@[2] == 'n',
        "--scan-elf=yes"@.len() == 14 && "--scan-elf=yes"@[2] == 's' && "--scan-elf=yes"@[7] == 'e',
        "--scan-pdf=yes"@.len() == 14 && "--scan-pdf=yes"@[2] == 's' && "--scan-pdf=yes"@[7] == 'p',
        "--scan-pdf=no"@.len() == 13 && "--scan-pdf=no"@[2] == 's' && "--scan-pdf=no"@[7] == 'p',
        "--scan-mail=yes"@.len() == 15 && "--scan-mail=yes"@[2] == 's' && "--scan-mail=yes"@[7]
            == 'm',
        "--scan-mail=no"@.len() == 14 && "--scan-mail=no"@[2] == 's' && "--scan-mail=no"@[7] == 'm',
        "--scan-ole2=yes"@.len() == 15 && "--scan-ole2=yes"@[2] == 's' && "--scan-ole2=yes"@[7]
            == 'o',
        "--scan-ole2=no"@.len() == 14 && "--scan-ole2=no"@[2] == 's' && "--scan-ole2=no"@[7] == 'o',
        "--detect-pua=yes"@.len() == 16 && "--detect-pua=yes"@[2] == 'd',
        "--heuristic-scan-precedence=yes"@.len() == 31 && "--heuristic-scan-precedence=yes"@[2]
            == 'h',
        "--follow-file-symlinks=0"@.len() == 24 && "--follow-file-symlinks=0"@[2] == 'f',
        "--max-filesize="@.len() == 15 && "--max-filesize="@[2] == 'm',
        "--max-scantime="@.len() == 15 && "--max-scantime="@[2] == 'm',
        "--recursive"@.len() == 11 && "--recursive"@[2] == 'r',
{
    reveal_strlit("--archive-verbose");
    reveal_strlit("--no-archive");
    reveal_strlit("--scan-elf=yes");
    reveal_strlit("--scan-pdf=yes");
    reveal_strlit("--scan-pdf=no");
    reveal_strlit("--scan-mail=yes");
    reveal_strlit("--scan-mail=no");
    reveal_strlit("--scan-ole2=yes");
    reveal_strlit("--scan-ole2=no");
    reveal_strlit("--detect-pua=yes");
    reveal_strlit("--heuristic-scan-precedence=yes");
    reveal_strlit("--follow-file-symlinks=0");
    reveal_strlit("--max-filesize=");
    reveal_strlit("--max-scantime=");
    reveal_strlit("--recursive");
}

/// Which words the options before the excluded paths hold, for a word
/// that is not one of the limits (its third character is neither `m` nor
/// `r`).
proof fn lemma_option_contains(c: AppConfig, x: Seq<char>)
    requires
        x.len() > 7,
        x[2] != 'm',
        x[2] != 'r',
    ensures
        option_args(c).contains(x) <==> (c.scan_archives && x == "--archive-verbose"@) || (
        !c.scan_archives && x == "--no-archive"@) || (c.scan_elf && x == "--scan-elf=yes"@) || (
        c.scan_pdf && x == "--scan-pdf=yes"@) || (!c.scan_pdf && x == "--scan-pdf=no"@) || (
        c.scan_mail && x == "--scan-mail=yes"@) || (!c.scan_mail && x == "--scan-mail=no"@) || (
        c.scan_ole2 && x == "--scan-ole2=yes"@) || (!c.scan_ole2 && x == "--scan-ole2=no"@) || (
        c.detect_pua && x == "--detect-pua=yes"@) || (c.heuristic_scan && x
            == "--heuristic-scan-precedence=yes"@) || (!c.scan_follow_symlinks && x
            == "--follow-file-symlinks=0"@),
{
    lemma_option_words();
    let a1 = arg_archive(c);
    let a2 = a1 + arg_elf(c);
    let a3 = a2 + arg_pdf(c);
    let a4 = a3 + arg_mail(c);
    let a5 = a4 + arg_ole2(c);
    let a6 = a5 + arg_pua(c);
    let a7 = a6 + arg_heuristic(c);
    let a8 = a7 + arg_symlinks(c);
    assert(option_args(c) == a8 + arg_limits(c));
    lemma_contains_add(a8, arg_limits(c), x);
    lemma_contains_add(a7, arg_symlinks(c), x);
    lemma_contains_add(a6, arg_heuristic(c), x);
    lemma_contains_add(a5, arg_pua(c), x);
    lemma_contains_add(a4, arg_ole2(c), x);
    lemma_contains_add(a3, arg_mail(c), x);
    lemma_contains_add(a2, arg_pdf(c), x);
    lemma_contains_add(a1, arg_elf(c), x);
    lemma_choice_contains(c.scan_archives, "--archive-verbose"@, Some("--no-archive"@), x);
    lemma_choice_contains(c.scan_elf, "--scan-elf=yes"@, None, x);
    lemma_choice_contains(c.scan_pdf, "--scan-pdf=yes"@, Some("--scan-pdf=no"@), x);
    lemma_choice_contains(c.scan_mail, "--scan-mail=yes"@, Some("--scan-mail=no"@), x);
    lemma_choice_contains(c.scan_ole2, "--scan-ole2=yes"@, Some("--scan-ole2=no"@), x);
    lemma_choice_contains(c.detect_pua, "--detect-pua=yes"@, None, x);
    lemma_choice_contains(c.heuristic_scan, "--heuristic-scan-precedence=yes"@, None, x);
    lemma_choice_contains(!c.scan_follow_symlinks, "--follow-file-symlinks=0"@, None, x);
    let l = arg_limits(c);
    let size = "--max-filesize="@ + decimal(c.max_file_size_mb as nat) + "M"@;
    let time = "--max-scantime="@ + decimal(scan_time_ms(c.max_scan_time_sec));
    assert(size[2] == 'm');
    assert(time[2] == 'm');
    assert(l[0] == size && l[1] == time && l[2] == "--recursive"@);
    if l.contains(x) {
        let i = choose|i: int| 0 <= i < l.len() && l[i] == x;
        assert(l[i][2] == x[2]);
    }
}

/// The word before each excluded path; `i` only names the place.
spec fn exclude_word(i: int) -> Seq<char> {
    "--exclude-dir"@
}

proof fn lemma_exclude_args(paths: Seq<Seq<char>>)
    ensures
        exclude_args(paths).len() == 2 * paths.len(),
        forall|i: int|
            0 <= i < paths.len() ==> #[trigger] exclude_args(paths)[2 * i + 1] == paths[i],
        forall|i: int| 0 <= i < paths.len() ==> exclude_args(paths)[2 * i] == exclude_word(i),
    decreases paths.len(),
{
    if paths.len() > 0 {
        let p = paths.drop_last();
        lemma_exclude_args(p);
        let e = exclude_args(p);
        let tail = seq!["--exclude-dir"@, paths.last()];
        assert(exclude_args(paths) == e + tail);
        assert forall|i: int|
            0 <= i < paths.len() implies #[trigger] exclude_args(paths)[2 * i + 1] == paths[i] by {
            if i < p.len() {
                assert(e[2 * i + 1] == p[i]);
                assert((e + tail)[2 * i + 1] == e[2 * i + 1]);
            } else {
                assert((e + tail)[2 * i + 1] == tail[1]);
            }
        }
        assert forall|i: int| 0 <= i < paths.len() implies exclude_args(paths)[2 * i]
            == exclude_word(i) by {
            if i < p.len() {
                assert(e[2 * i] == exclude_word(i));
                assert((e + tail)[2 * i] == e[2 * i]);
            } else {
                assert((e + tail)[2 * i] == tail[0]);
            }
        }
    }
}

/// Each option of a scan's command line is decided by its own setting
/// alone. Among the options before the excluded paths, `--scan-pdf=yes`
/// stands exactly when PDF scanning is on and `--scan-pdf=no` exactly when
/// it is off, and so for mail, OLE2 and archives (`--archive-verbose` /
/// `--no-archive`); `--scan-elf=yes`, `--detect-pua=yes` and
/// `--heuristic-scan-precedence=yes` stand exactly when their settings are
/// on, `--follow-file-symlinks=0` exactly when links are not followed.
/// Then comes `--exclude-dir` with each excluded path in order, and last
/// `--infected` and `--bell`.
pub proof fn law_scan_options(c: AppConfig)
    ensures
        ({
            let args = clamscan_args(c);
            let paths = views(c.exclude_paths@);
            let n = args.len() - 2 * paths.len() - 2;
            let o = args.take(n);
            &&& n >= 0
            &&& (o.contains("--archive-verbose"@) <==> c.scan_archives)
            &&& (o.contains("--no-archive"@) <==> !c.scan_archives)
            &&& (o.contains("--scan-elf=yes"@) <==> c.scan_elf)
            &&& (o.contains("--scan-pdf=yes"@) <==> c.scan_pdf)
            &&& (o.contains("--scan-pdf=no"@) <==> !c.scan_pdf)
            &&& (o.contains("--scan-mail=yes"@) <==> c.scan_mail)
            &&& (o.contains("--scan-mail=no"@) <==> !c.scan_mail)
            &&& (o.contains("--scan-ole2=yes"@) <==> c.scan_ole2)
            &&& (o.contains("--scan-ole2=no"@) <==> !c.scan_ole2)
            &&& (o.contains("--detect-pua=yes"@) <==> c.detect_pua)
            &&& (o.contains("--heuristic-scan-precedence=yes"@) <==> c.heuristic_scan)
            &&& (o.contains("--follow-file-symlinks=0"@) <==> !c.scan_follow_symlinks)
            &&& forall|i: int|
                0 <= i < paths.len() ==> #[trigger] args[n + 2 * i + 1] == paths[i]
            &&& forall|i: int| 0 <= i < paths.len() ==> #[trigger] args[n + 2 * i] == "--exclude-dir"@
            &&& args[args.len() - 2] == "--infected"@
            &&& args[args.len() - 1] == "--bell"@
        }),
{
    let args = clamscan_args(c);
    let paths = views(c.exclude_paths@);
    let opts = option_args(c);
    lemma_exclude_args(paths);
    let n = args.len() - 2 * paths.len() - 2;
    let ex = exclude_args(paths);
    let last = seq!["--infected"@, "--bell"@];
    assert(args == opts + ex + last);
    assert(n == opts.len());
    assert(args.take(n) =~= opts);
    assert(args[args.len() - 2] == last[0]);
    assert(args[args.len() - 1] == last[1]);
    lemma_option_words();
    lemma_option_contains(c, "--archive-verbose"@);
    lemma_option_contains(c, "--no-archive"@);
    lemma_option_contains(c, "--scan-elf=yes"@);
    lemma_option_contains(c, "--scan-pdf=yes"@);
    lemma_option_contains(c, "--scan-pdf=no"@);
    lemma_option_contains(c, "--scan-mail=yes"@);
    lemma_option_contains(c, "--scan-mail=no"@);
    lemma_option_contains(c, "--scan-ole2=yes"@);
    lemma_option_contains(c, "--scan-ole2=no"@);
    lemma_option_contains(c, "--detect-pua=yes"@);
    lemma_option_contains(c, "--heuristic-scan-precedence=yes"@);
    lemma_option_contains(c, "--follow-file-symlinks=0"@);
    assert forall|i: int| 0 <= i < paths.len() implies #[trigger] args[n + 2 * i + 1] == paths[i] by {
        assert(ex[2 * i + 1] == paths[i]);
        assert(args[n + 2 * i + 1] == ex[2 * i + 1]);
    }
    assert forall|i: int| 0 <= i < paths.len() implies #[trigger] args[n + 2 * i]
        == "--exclude-dir"@ by {
        assert(ex[2 * i] == exclude_word(i));
        assert(args[n + 2 * i] == ex[2 * i]);
    }
}

/// Reading back the settings text written for a list of excluded paths gives
/// that list, when every path is non-empty, has no surrounding white space
/// and no line break.
pub proof fn law_exclude_paths_round_trip(paths: Seq<Seq<char>>)
    requires
        forall|i: int| 0 <= i < paths.len() ==> is_plain_path(#[trigger] paths[i]),
    ensures
        exclude_list(lines(join(paths, "\n"@))) == paths,
{
    lemma_lines_of_join(paths);
    lemma_exclude_list_plain(paths);
}

} // verus!
