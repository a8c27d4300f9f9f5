//! What the ClamAV installation reports about itself, and the set-up of the
//! signature database that a confined (snap) installation keeps privately.
use vstd::prelude::*;
use crate::text::{
    chars_eq, chars_of, contains, contains_exec, line_spans, lines, lowercase, rfind, rfind_exec,
    slice_of, span_texts, spans_in, splitn, splitn_spans, string_from, string_of, to_lowercase,
    trim, trim_chars, views,
};
use crate::paths::{join_path, parent_of, path_join, path_parent};

verus! {

broadcast use vstd::string::group_string_axioms;

/// The engine and signature information shown to the user.
#[derive(Debug)]
pub struct ClamAvInfo {
    pub signature_version: String,
    pub signature_count: String,
    pub build_info: String,
    pub is_clamscan_available: bool,
    pub is_freshclam_available: bool,
    pub is_clamd_available: bool,
}

impl Clone for ClamAvInfo {
    fn clone(&self) -> (r: Self)
        ensures
            r == *self,
    {
        ClamAvInfo {
            signature_version: self.signature_version.clone(),
            signature_count: self.signature_count.clone(),
            build_info: self.build_info.clone(),
            is_clamscan_available: self.is_clamscan_available,
            is_freshclam_available: self.is_freshclam_available,
            is_clamd_available: self.is_clamd_available,
        }
    }
}

/// Signature version, signature count and build text, in that order.
pub type VersionFields = (Seq<char>, Seq<char>, Seq<char>);

/// The fields taken from the pieces of a `/`-separated version text: the
/// second piece is the count, the third the version, the first the build.
pub open spec fn fields_from_parts(acc: VersionFields, parts: Seq<Seq<char>>) -> VersionFields {
    (
        if parts.len() >= 3 {
            trim(parts[2])
        } else {
            acc.0
        },
        if parts.len() >= 2 {
            trim(parts[1])
        } else {
            acc.1
        },
        trim(parts[0]),
    )
}

/// A line whose lower-case form mentions `clamav` and holds a `/` is a
/// version line, e.g. `ClamAV 1.0.7/27320/Wed Jan  8 08:28:22 2025`.
pub open spec fn is_version_line(lower: Seq<char>) -> bool {
    contains(lower, "clamav"@) && contains(lower, "/"@)
}

/// The fields after reading one line whose lower-case form is `lower`.
pub open spec fn version_line_step(acc: VersionFields, line: Seq<char>, lower: Seq<char>) -> VersionFields {
    if is_version_line(lower) {
        fields_from_parts(acc, splitn(line, 3, '/'))
    } else {
        acc
    }
}

/// The fields after reading the given lines in order, starting from
/// `Unknown`, `Unknown` and an empty build text.
pub open spec fn version_lines(ls: Seq<Seq<char>>) -> VersionFields
    decreases ls.len(),
{
    if ls.len() == 0 {
        ("Unknown"@, "Unknown"@, Seq::<char>::empty())
    } else {
        version_line_step(version_lines(ls.drop_last()), ls.last(), lowercase(ls.last()))
    }
}

/// What `clamscan --version` output says: the last version line wins; when
/// no line gave a version, the whole output is read as one compact
/// `build/count/version` text, whose build part is only taken when no build
/// was found before.
pub open spec fn parse_version(output: Seq<char>) -> VersionFields {
    let acc = version_lines(lines(output));
    if acc.0 == "Unknown"@ {
        let parts = splitn(output, 3, '/');
        let f = fields_from_parts(acc, parts);
        (f.0, f.1, if acc.2.len() == 0 { f.2 } else { acc.2 })
    } else {
        acc
    }
}

/// The text that stands for the version output when `clamscan` could not run.
pub open spec fn version_text(output: Option<Seq<char>>) -> Seq<char> {
    match output {
        Some(o) => o,
        None => "Not found"@,
    }
}

fn unknown_chars() -> (r: Vec<char>)
    ensures
        r@ == "Unknown"@,
{
    chars_of("Unknown")
}

/// Applies the pieces of a version text to the fields read so far.
fn apply_parts(
    acc: (Vec<char>, Vec<char>, Vec<char>),
    v: &Vec<char>,
    spans: &Vec<(usize, usize)>,
) -> (r: (Vec<char>, Vec<char>, Vec<char>))
    requires
        spans@.len() >= 1,
        spans_in(v@, spans@),
    ensures
        (r.0@, r.1@, r.2@) == fields_from_parts((acc.0@, acc.1@, acc.2@), span_texts(v@, spans@)),
{
    let (a0, a1, _a2) = acc;
    let ghost parts = span_texts(v@, spans@);
    let p0 = slice_of(v, spans[0].0, spans[0].1);
    let build = trim_chars(&p0);
    let count = if spans.len() >= 2 {
        let p1 = slice_of(v, spans[1].0, spans[1].1);
        trim_chars(&p1)
    } else {
        a1
    };
    let version = if spans.len() >= 3 {
        let p2 = slice_of(v, spans[2].0, spans[2].1);
        trim_chars(&p2)
    } else {
        a0
    };
    (version, count, build)
}

/// Reads one line of `clamscan --version` output; `line_lower` is the
/// lower-case form of `line`.
pub fn apply_version_line(
    fields: (String, String, String),
    line: &str,
    line_lower: &str,
) -> (r: (String, String, String))
    ensures
        (r.0@, r.1@, r.2@) == version_line_step(
            (fields.0@, fields.1@, fields.2@),
            line@,
            line_lower@,
        ),
{
    let lower = chars_of(line_lower);
    let clamav = chars_of("clamav");
    let slash = chars_of("/");
    if contains_exec(&lower, &clamav) && contains_exec(&lower, &slash) {
        let v = chars_of(line);
        let spans = splitn_spans(&v, 3, '/');
        proof {
            assert(span_texts(v@, spans@).len() >= 1);
        }
        let acc = (
            chars_of(fields.0.as_str()),
            chars_of(fields.1.as_str()),
            chars_of(fields.2.as_str()),
        );
        let r = apply_parts(acc, &v, &spans);
        (string_from(&r.0), string_from(&r.1), string_from(&r.2))
    } else {
        fields
    }
}

/// Signature version, signature count and build text from the output of
/// `clamscan --version`.
pub fn parse_clamscan_version(output: &str) -> (r: (String, String, String))
    ensures
        (r.0@, r.1@, r.2@) == parse_version(output@),
{
    let v = chars_of(output);
    let spans = line_spans(&v);
    let mut fields = (string_from(&unknown_chars()), string_from(&unknown_chars()), String::new());
    let mut i: usize = 0;
    while i < spans.len()
        invariant
            spans_in(v@, spans@),
            span_texts(v@, spans@) == lines(v@),
            i <= spans@.len(),
            (fields.0@, fields.1@, fields.2@) == version_lines(lines(v@).take(i as int)),
        decreases spans@.len() - i,
    {
        let line = string_of(&v, spans[i].0, spans[i].1);
        let lower = to_lowercase(line.as_str());
        fields = apply_version_line(fields, line.as_str(), lower.as_str());
        proof {
            let ls = lines(v@).take(i + 1);
            assert(ls.drop_last() =~= lines(v@).take(i as int));
            assert(ls.last() == line@);
        }
        i = i + 1;
    }
    proof {
        assert(lines(v@).take(spans@.len() as int) =~= lines(v@));
    }
    let unknown = unknown_chars();
    let version_now = chars_of(fields.0.as_str());
    if chars_eq(&version_now, &unknown) {
        let spans3 = splitn_spans(&v, 3, '/');
        proof {
            assert(span_texts(v@, spans3@).len() >= 1);
        }
        let build_before = chars_of(fields.2.as_str());
        let acc = (version_now, chars_of(fields.1.as_str()), chars_of(fields.2.as_str()));
        let f = apply_parts(acc, &v, &spans3);
        let build = if build_before.len() == 0 {
            f.2
        } else {
            build_before
        };
        (string_from(&f.0), string_from(&f.1), string_from(&build))
    } else {
        fields
    }
}

/// The information gathered about the installation: `version_output` is the
/// trimmed standard output of `clamscan --version` (none when it could not
/// be run), and the three flags say which programs were found.
pub fn detect_clamav(
    version_output: Option<&str>,
    is_clamscan_available: bool,
    is_freshclam_available: bool,
    is_clamd_available: bool,
) -> (info: ClamAvInfo)
    ensures
        ({
            let f = parse_version(version_text(match version_output {
                Some(o) => Some(o@),
                None => None,
            }));
            &&& info.signature_version@ == f.0
            &&& info.signature_count@ == f.1
            &&& info.build_info@ == f.2
        }),
        info.is_clamscan_available == is_clamscan_available,
        info.is_freshclam_available == is_freshclam_available,
        info.is_clamd_available == is_clamd_available,
{
    let (signature_version, signature_count, build_info) = match version_output {
        Some(o) => parse_clamscan_version(o),
        None => parse_clamscan_version("Not found"),
    };
    ClamAvInfo {
        signature_version,
        signature_count,
        build_info,
        is_clamscan_available,
        is_freshclam_available,
        is_clamd_available,
    }
}

/// The information that stands when nothing could be detected.
pub fn unknown_info() -> (info: ClamAvInfo)
    ensures
        is_unknown(info),
{
    ClamAvInfo {
        signature_version: string_from(&unknown_chars()),
        signature_count: string_from(&unknown_chars()),
        build_info: String::new(),
        is_clamscan_available: false,
        is_freshclam_available: false,
        is_clamd_available: false,
    }
}

/// Whether `info` is the information that stands when nothing could be
/// detected: unknown signatures, no build text, no program found.
pub open spec fn is_unknown(info: ClamAvInfo) -> bool {
    &&& info.signature_version@ == "Unknown"@
    &&& info.signature_count@ == "Unknown"@
    &&& info.build_info@ == Seq::<char>::empty()
    &&& !info.is_clamscan_available
    &&& !info.is_freshclam_available
    &&& !info.is_clamd_available
}

/// A read of the cache: `read` is what it gives back of `cache`.
pub open spec fn cache_read(cache: Option<ClamAvInfo>, read: Option<ClamAvInfo>) -> bool {
    read == cache
}

/// A refresh of the cache: the information detected, or the unknown
/// information when detection failed, is returned as `r` and replaces
/// whatever was cached.
pub open spec fn cache_refresh(
    detected: Option<ClamAvInfo>,
    after: Option<ClamAvInfo>,
    r: ClamAvInfo,
) -> bool {
    &&& after == Some(r)
    &&& match detected {
        Some(d) => r == d,
        None => is_unknown(r),
    }
}

/// The cached information, when there is one; without one the caller
/// detects it and stores it with `refresh_info`.
pub fn get_info(cache: &Option<ClamAvInfo>) -> (r: Option<ClamAvInfo>)
    ensures
        cache_read(*cache, r),
{
    match cache {
        Some(info) => Some(info.clone()),
        None => None,
    }
}

/// Stores freshly detected information in the cache and returns it; when
/// detection failed, the unknown information is stored instead.
pub fn refresh_info(cache: &mut Option<ClamAvInfo>, detected: Option<ClamAvInfo>) -> (r: ClamAvInfo)
    ensures
        cache_refresh(detected, *final(cache), r),
{
    let info = match detected {
        Some(d) => d,
        None => unknown_info(),
    };
    *cache = Some(info.clone());
    info
}

/// After a refresh, reading the cache gives back exactly what the refresh
/// returned: the detected information, or the unknown information when
/// detection failed.
pub proof fn law_refresh_then_get(
    detected: Option<ClamAvInfo>,
    after: Option<ClamAvInfo>,
    r: ClamAvInfo,
    read: Option<ClamAvInfo>,
)
    requires
        cache_refresh(detected, after, r),
        cache_read(after, read),
    ensures
        read == Some(r),
        detected matches Some(d) ==> read == Some(d),
        detected is None ==> (read matches Some(i) && is_unknown(i)),
{
}

/// The arguments of `clamscan --version`; inside a snap the bundled
/// database directory is named so that its signatures are reported.
pub fn version_args(snap_database_dir: Option<&str>) -> (args: Vec<String>)
    ensures
        views(args@) == match snap_database_dir {
            Some(d) => seq!["--version"@, "--database"@, d@],
            None => seq!["--version"@],
        },
{
    let mut args: Vec<String> = Vec::new();
    args.push(String::from_str("--version"));
    match snap_database_dir {
        Some(d) => {
            args.push(String::from_str("--database"));
            args.push(String::from_str(d));
        },
        None => {},
    }
    proof {
        assert(views(args@) =~= match snap_database_dir {
            Some(d) => seq!["--version"@, "--database"@, d@],
            None => seq!["--version"@],
        });
    }
    args
}

/// The database directory of a snap installation: `clamav` under the
/// snap's per-user data directory (`$SNAP_USER_DATA`).
pub open spec fn snap_database_path(snap_user_data: Seq<char>) -> Seq<char> {
    path_join(snap_user_data, "clamav"@)
}

/// Where the snap's `freshclam.conf` is written, given the parent of the
/// database directory: `freshclam.conf` in it, when there is one.
pub fn freshclam_config_in(parent: Option<String>) -> (r: Option<String>)
    ensures
        match parent {
            None => r is None,
            Some(p) => r matches Some(c) && c@ == path_join(p@, "freshclam.conf"@),
        },
{
    match parent {
        None => None,
        Some(p) => Some(join_path(p.as_str(), "freshclam.conf")),
    }
}

/// Where the snap's `freshclam.conf` is written: beside the database
/// directory, in its parent.
pub fn snap_freshclam_config_path(snap_user_data: Option<&str>) -> (r: Option<String>)
    ensures
        match snap_user_data {
            None => r is None,
            Some(d) => match path_parent(snap_database_path(d@)) {
                None => r is None,
                Some(p) => r matches Some(c) && c@ == path_join(p, "freshclam.conf"@),
            },
        },
{
    match snap_user_data {
        None => None,
        Some(d) => {
            let db = join_path(d, "clamav");
            freshclam_config_in(parent_of(db.as_str()))
        },
    }
}

/// The `freshclam.conf` for the snap's bundled freshclam.
pub open spec fn freshclam_config(db_dir: Seq<char>, certs_dir: Seq<char>) -> Seq<char> {
    "DatabaseDirectory "@ + db_dir + "\nDatabaseMirror database.clamav.net\ncvdcertsdir "@
        + certs_dir
        + "\nTestDatabases no\nLogTime true\nConnectTimeout 30\nReceiveTimeout 30\nMaxAttempts 5\n"@
}

/// The contents of the snap's `freshclam.conf`.
pub fn freshclam_config_text(db_dir: &str, certs_dir: &str) -> (r: String)
    ensures
        r@ == freshclam_config(db_dir@, certs_dir@),
{
    let mut r = String::from_str("DatabaseDirectory ");
    r.append(db_dir);
    r.append("\nDatabaseMirror database.clamav.net\ncvdcertsdir ");
    r.append(certs_dir);
    r.append("\nTestDatabases no\nLogTime true\nConnectTimeout 30\nReceiveTimeout 30\nMaxAttempts 5\n");
    r
}

/// `Path::extension` of a file name: the part after the last `.`, unless
/// there is no `.`, the only one starts the name, or the name is `..`.
pub open spec fn file_extension(name: Seq<char>) -> Option<Seq<char>> {
    if name == ".."@ {
        None
    } else {
        match rfind(name, "."@) {
        None => None,
            Some(i) => if i == 0 {
                None
            } else {
                Some(name.skip(i + 1))
            },
        }
    }
}

/// A signature database file ends in `.cvd` or `.cld`.
pub open spec fn is_database_name(name: Seq<char>) -> bool {
    file_extension(name) == Some("cvd"@) || file_extension(name) == Some("cld"@)
}

/// Whether a file of the database directory is a signature database.
pub fn is_database_file(file_name: &str) -> (r: bool)
    ensures
        r == is_database_name(file_name@),
{
    let v = chars_of(file_name);
    let n = v.len();
    let dot = chars_of(".");
    match rfind_exec(&v, &dot) {
        None => false,
        Some(i) => {
            if i == 0 {
                false
            } else {
                proof {
                    assert(dot@.len() == 1) by {
                        reveal_strlit(".");
                    }
                    assert(i + 1 <= n);
                }
                let ext = slice_of(&v, i + 1, v.len());
                assert(ext@ =~= v@.skip(i + 1));
                proof {
                    reveal_strlit("..");
                    reveal_strlit("cvd");
                    reveal_strlit("cld");
                    if v@ == ".."@ {
                        assert(ext@.len() == 0);
                    }
                }
                let cvd = chars_of("cvd");
                let cld = chars_of("cld");
                chars_eq(&ext, &cvd) || chars_eq(&ext, &cld)
            }
        },
    }
}

/// Whether the database directory, whose file names are given, holds a
/// usable signature database.
pub fn snap_database_available(file_names: &Vec<String>) -> (r: bool)
    ensures
        r == exists|i: int| 0 <= i < file_names@.len() && is_database_name(#[trigger] file_names@[i]@),
{
    let mut i: usize = 0;
    while i < file_names.len()
        invariant
            i <= file_names@.len(),
            forall|k: int| 0 <= k < i ==> !is_database_name(#[trigger] file_names@[k]@),
        decreases file_names@.len() - i,
    {
        if is_database_file(file_names[i].as_str()) {
            return true;
        }
        i = i + 1;
    }
    false
}

/// Whether the database has to be downloaded before a scan: only inside a
/// snap, and only when it is not there yet.
pub fn needs_database_download(in_snap: bool, database_available: bool) -> (r: bool)
    ensures
        r == (in_snap && !database_available),
{
    in_snap && !database_available
}

/// The error when the download of the database failed: the last line of
/// what freshclam wrote to its error output.
pub open spec fn download_failure(stderr: Seq<char>) -> Seq<char> {
    let ls = lines(trim(stderr));
    "Could not download the virus database: "@ + if ls.len() > 0 {
        ls.last()
    } else {
        "unknown error"@
    }
}

/// The message for a failed download of the virus database.
pub fn download_failure_message(stderr: &str) -> (r: String)
    ensures
        r@ == download_failure(stderr@),
{
    let v = chars_of(stderr);
    let t = trim_chars(&v);
    let spans = line_spans(&t);
    let mut r = String::from_str("Could not download the virus database: ");
    if spans.len() > 0 {
        let k = spans.len() - 1;
        let last = string_of(&t, spans[k].0, spans[k].1);
        r.append(last.as_str());
    } else {
        r.append("unknown error");
    }
    r
}

} // verus!
