//! Display helpers and the reading of the system files that tell where the
//! user's home is and which distribution runs.
use vstd::prelude::*;
use vstd::utf8::encode_utf8;
use crate::text::{
    lemma_find_char_bound, lemma_find_char_concat,
    decimal, digit, digit_char, u64_to_string,
    chars_eq, chars_of, find_char, find_ws, is_ws, is_whitespace, line_spans, lines,
    parse_unsigned, parse_unsigned_exec, slice_of, span_texts, spans_in, starts_with,
    starts_with_exec, string_from, string_of, trim, trim_chars, words, lemma_find_ws,
    find_char_from,
};
use crate::paths::{join_path, path_join};
use crate::scanner::ScanType;

verus! {

broadcast use vstd::string::group_string_axioms;

// ---------------------------------------------------------------------------
// Byte lengths
// ---------------------------------------------------------------------------
/// The number of bytes of the UTF-8 encoding of `c`.
pub open spec fn utf8_width(c: char) -> nat {
    let u = c as u32;
    if u <= 0x7f {
        1
    } else if u <= 0x7ff {
        2
    } else if u <= 0xffff {
        3
    } else {
        4
    }
}

/// The number of bytes of the UTF-8 encoding of `s` (`str::len`).
pub open spec fn utf8_len(s: Seq<char>) -> nat
    decreases s.len(),
{
    if s.len() == 0 {
        0
    } else {
        utf8_len(s.drop_last()) + utf8_width(s.last())
    }
}

proof fn lemma_utf8_len_add(a: Seq<char>, b: Seq<char>)
    ensures
        utf8_len(a + b) == utf8_len(a) + utf8_len(b),
    decreases b.len(),
{
    if b.len() == 0 {
        assert(a + b =~= a);
    } else {
        lemma_utf8_len_add(a, b.drop_last());
        assert((a + b).drop_last() =~= a + b.drop_last());
        assert((a + b).last() == b.last());
    }
}

/// `utf8_len` is the length of vstd's UTF-8 encoding.
pub proof fn lemma_utf8_len_encoding(s: Seq<char>)
    ensures
        utf8_len(s) == encode_utf8(s).len(),
    decreases s.len(),
{
    if s.len() > 0 {
        lemma_utf8_len_encoding(s.drop_first());
        lemma_utf8_len_add(seq![s[0]], s.drop_first());
        assert(seq![s[0]] + s.drop_first() =~= s);
        assert(seq![s[0]].drop_last() =~= Seq::<char>::empty());
        assert(utf8_len(Seq::<char>::empty()) == 0);
        assert(seq![s[0]].last() == s[0]);
        assert(utf8_len(seq![s[0]]) == utf8_width(s[0]));
        vstd::utf8::char_is_scalar(s[0]);
        let u = s[0] as u32;
        assert(encode_utf8(s) == vstd::utf8::encode_scalar(u) + encode_utf8(s.drop_first()));
        assert(vstd::utf8::encode_scalar(u).len() == utf8_width(s[0]));
    }
}

/// Prefix lengths grow strictly with the prefix.
proof fn lemma_utf8_prefix_grows(s: Seq<char>, j: int, k: int)
    requires
        0 <= j < k <= s.len(),
    ensures
        utf8_len(s.take(j)) < utf8_len(s.take(k)),
    decreases k - j,
{
    assert(s.take(k).drop_last() =~= s.take(k - 1));
    if j < k - 1 {
        lemma_utf8_prefix_grows(s, j, k - 1);
    }
}

fn utf8_width_exec(c: char) -> (w: usize)
    ensures
        w == utf8_width(c),
{
    let u = c as u32;
    if u <= 0x7f {
        1
    } else if u <= 0x7ff {
        2
    } else if u <= 0xffff {
        3
    } else {
        4
    }
}

/// `truncate_path` only cuts at a character boundary, and only when the
/// cut leaves room for the `...` mark: this is when it does not panic.
pub open spec fn truncation_ok(path: Seq<char>, max_len: nat) -> bool {
    utf8_len(path) > max_len ==> {
        &&& max_len >= 3
        &&& exists|k: int|
            0 <= k <= path.len() && #[trigger] utf8_len(path.take(k)) == utf8_len(path) - max_len
                + 3
    }
}

/// Whether `truncate_path(path, max_len)` can be called.
pub fn can_truncate(path: &str, max_len: usize) -> (r: bool)
    ensures
        r == truncation_ok(path@, max_len as nat),
{
    let v = chars_of(path);
    proof {
        lemma_utf8_len_encoding(v@);
    }
    let n = path.as_bytes().len();
    if n <= max_len {
        return true;
    }
    if max_len < 3 {
        return false;
    }
    let start = n - max_len + 3;
    let k = prefix_reaching(&v, start);
    proof {
        if utf8_len(v@.take(k as int)) != start {
            assert forall|j: int|
                0 <= j <= v@.len() implies #[trigger] utf8_len(v@.take(j)) != start by {
                if j < k {
                    lemma_utf8_prefix_grows(v@, j, k as int);
                } else if j > k {
                    lemma_utf8_prefix_grows(v@, k as int, j);
                }
            }
        }
    }
    utf8_len_of_take(&v, k) == start
}

/// The shortest prefix of `v` whose encoding has at least `start` bytes,
/// or all of `v`.
fn prefix_reaching(v: &Vec<char>, start: usize) -> (k: usize)
    requires
        utf8_len(v@) <= usize::MAX,
    ensures
        k <= v@.len(),
        k < v@.len() ==> utf8_len(v@.take(k as int)) >= start,
        forall|j: int| 0 <= j < k ==> utf8_len(v@.take(j)) < start,
{
    let mut k: usize = 0;
    let mut w: usize = 0;
    assert(v@.take(0) =~= Seq::<char>::empty());
    while k < v.len() && w < start
        invariant
            k <= v@.len(),
            w == utf8_len(v@.take(k as int)),
            utf8_len(v@) <= usize::MAX,
            forall|j: int| 0 <= j < k ==> utf8_len(v@.take(j)) < start,
        decreases v@.len() - k,
    {
        let c = v[k];
        assert(v@.take(k + 1).drop_last() =~= v@.take(k as int));
        proof {
            lemma_utf8_len_add(v@.take(k + 1), v@.skip(k + 1));
            assert(v@.take(k + 1) + v@.skip(k + 1) =~= v@);
        }
        w = w + utf8_width_exec(c);
        k = k + 1;
    }
    k
}

/// The bytes of the encoding of `v.take(k)`.
fn utf8_len_of_take(v: &Vec<char>, k: usize) -> (n: usize)
    requires
        k <= v@.len(),
        utf8_len(v@) <= usize::MAX,
    ensures
        n == utf8_len(v@.take(k as int)),
{
    let mut i: usize = 0;
    let mut w: usize = 0;
    assert(v@.take(0) =~= Seq::<char>::empty());
    while i < k
        invariant
            i <= k <= v@.len(),
            utf8_len(v@) <= usize::MAX,
            w == utf8_len(v@.take(i as int)),
        decreases k - i,
    {
        assert(v@.take(i + 1).drop_last() =~= v@.take(i as int));
        proof {
            lemma_utf8_len_add(v@.take(i + 1), v@.skip(i + 1));
            assert(v@.take(i + 1) + v@.skip(i + 1) =~= v@);
        }
        w = w + utf8_width_exec(v[i]);
        i = i + 1;
    }
    w
}

/// The text that `truncate_path` shows for a long path: `...` and the end
/// of the path, so that the whole is `max_len` bytes long.
pub open spec fn truncated(path: Seq<char>, max_len: nat, out: Seq<char>) -> bool {
    if utf8_len(path) <= max_len {
        out == path
    } else {
        exists|k: int|
            0 <= k <= path.len() && #[trigger] utf8_len(path.take(k)) == utf8_len(path) - max_len
                + 3 && out == "..."@ + path.skip(k)
    }
}

/// A path shortened for display to at most `max_len` bytes: a longer one
/// loses its beginning, which `...` replaces.
pub fn truncate_path(path: &str, max_len: usize) -> (r: String)
    requires
        truncation_ok(path@, max_len as nat),
    ensures
        truncated(path@, max_len as nat, r@),
{
    let v = chars_of(path);
    proof {
        lemma_utf8_len_encoding(v@);
    }
    let n = path.as_bytes().len();
    if n <= max_len {
        return String::from_str(path);
    }
    let start = n - max_len + 3;
    let k = prefix_reaching(&v, start);
    proof {
        let k0 = choose|k0: int|
            0 <= k0 <= v@.len() && #[trigger] utf8_len(v@.take(k0)) == utf8_len(v@) - max_len + 3;
        if k0 < k {
        } else if k0 > k {
            lemma_utf8_prefix_grows(v@, k as int, k0);
            if k == v@.len() {
                assert(false);
            }
        }
        assert(k0 == k);
    }
    let tail = slice_of(&v, k, v.len());
    let mut r = String::from_str("...");
    let t = string_from(&tail);
    r.append(t.as_str());
    assert(tail@ =~= v@.skip(k as int));
    r
}

/// A path shortened with `truncate_path` keeps to the length limit.
pub proof fn law_truncated_fits(path: Seq<char>, max_len: nat, out: Seq<char>)
    requires
        truncation_ok(path, max_len),
        truncated(path, max_len, out),
    ensures
        utf8_len(out) <= max_len,
        utf8_len(path) <= max_len ==> out == path,
{
    if utf8_len(path) > max_len {
        let k = choose|k: int|
            0 <= k <= path.len() && #[trigger] utf8_len(path.take(k)) == utf8_len(path) - max_len
                + 3 && out == "..."@ + path.skip(k);
        lemma_utf8_len_add(path.take(k), path.skip(k));
        assert(path.take(k) + path.skip(k) =~= path);
        lemma_utf8_len_add("..."@, path.skip(k));
        assert(utf8_len("..."@) == 3) by {
            reveal_strlit("...");
            let d = "..."@;
            assert(d =~= seq!['.', '.', '.']);
            assert(seq!['.', '.', '.'].drop_last() =~= seq!['.', '.']);
            assert(seq!['.', '.'].drop_last() =~= seq!['.']);
            assert(seq!['.'].drop_last() =~= Seq::<char>::empty());
            assert(utf8_len(Seq::<char>::empty()) == 0);
            assert(utf8_len(seq!['.']) == 1);
            assert(utf8_len(seq!['.', '.']) == 2);
            assert(utf8_len(seq!['.', '.', '.']) == 3);
        }
    }
}

// ---------------------------------------------------------------------------
// Sizes
// ---------------------------------------------------------------------------
/// The gap between neighbouring `f64` values around `n`: the least power of
/// two `p`, starting from the given one, with `n < 2^53 * p`.
pub open spec fn double_spacing(n: nat, p: nat) -> nat
    decreases n - p,
{
    if p == 0 || n < 9007199254740992 * p {
        p
    } else {
        double_spacing(n, 2 * p)
    }
}

/// The value of `n as f64`: `n` rounded to the nearest multiple of the
/// spacing of the doubles around it, ties going to the even multiple.
pub open spec fn as_double(n: nat) -> nat {
    let p = double_spacing(n, 1);
    let q = n / p;
    let r = n % p;
    if 2 * r > p || (2 * r == p && q % 2 == 1) {
        (q + 1) * p
    } else {
        q * p
    }
}

/// `x / unit` in hundredths, rounded to the nearest, ties going to the even
/// last digit: what `{:.2}` writes of the quotient.
pub open spec fn hundredths(x: nat, unit: nat) -> nat {
    let h = x * 100 / unit;
    let r = x * 100 % unit;
    if 2 * r > unit || (2 * r == unit && h % 2 == 1) {
        h + 1
    } else {
        h
    }
}

/// A number of hundredths written with two decimals.
pub open spec fn two_places(h: nat) -> Seq<char> {
    decimal(h / 100) + "."@ + seq![digit_char((h % 100) / 10), digit_char(h % 10)]
}

/// A size in bytes as the pages show it: in GB, MB or KB (powers of 1024)
/// with two decimals from a kilobyte on, in bytes below.
pub open spec fn size_text(bytes: nat) -> Seq<char> {
    if bytes >= 1073741824 {
        two_places(hundredths(as_double(bytes), 1073741824)) + " GB"@
    } else if bytes >= 1048576 {
        two_places(hundredths(as_double(bytes), 1048576)) + " MB"@
    } else if bytes >= 1024 {
        two_places(hundredths(as_double(bytes), 1024)) + " KB"@
    } else {
        decimal(bytes) + " B"@
    }
}

/// `n as f64`, as an integer.
fn as_double_exec(n: u64) -> (d: u128)
    ensures
        d == as_double(n as nat),
        d <= n + 4096,
{
    let mut p: u128 = 1;
    while p * 9007199254740992 <= n as u128
        invariant
            1 <= p <= 4096,
            double_spacing(n as nat, p as nat) == double_spacing(n as nat, 1),
        decreases n - p,
    {
        assert(p < 2048) by {
            assert(n < 18446744073709551616);
        }
        p = p * 2;
    }
    let q = n as u128 / p;
    let r = n as u128 % p;
    assert(q * p + r == n && r < p) by (nonlinear_arith)
        requires
            q == n as int / p as int,
            r == n as int % p as int,
            p > 0,
    ;
    if 2 * r > p || (2 * r == p && q % 2 == 1) {
        assert((q + 1) * p == q * p + p) by (nonlinear_arith);
        (q + 1) * p
    } else {
        q * p
    }
}

/// `x / unit` in hundredths, rounded as `{:.2}` rounds.
fn hundredths_exec(x: u128, unit: u128) -> (h: u128)
    requires
        1024 <= unit <= 1073741824,
        x <= 18446744073709555712,
    ensures
        h == hundredths(x as nat, unit as nat),
        h <= x * 100 / 1024 + 1,
{
    let t = x * 100;
    let h = t / unit;
    let r = t % unit;
    assert(h <= t / 1024) by (nonlinear_arith)
        requires
            h == t as int / unit as int,
            unit >= 1024,
            t >= 0,
    {
        vstd::arithmetic::div_mod::lemma_div_is_ordered_by_denominator(t as int, 1024, unit as int);
    }
    if 2 * r > unit || (2 * r == unit && h % 2 == 1) {
        h + 1
    } else {
        h
    }
}

/// A number of hundredths written with two decimals.
fn two_places_exec(h: u64) -> (s: String)
    ensures
        s@ == two_places(h as nat),
{
    let mut s = u64_to_string(h / 100);
    s.append(".");
    let mut tail: Vec<char> = Vec::new();
    tail.push(digit((h % 100) / 10));
    tail.push(digit(h % 10));
    let t = string_from(&tail);
    s.append(t.as_str());
    assert(tail@ =~= seq![digit_char(((h % 100) / 10) as nat), digit_char((h % 10) as nat)]);
    s
}

/// Format a file size in human-readable format.
pub fn format_size(bytes: u64) -> (r: String)
    ensures
        r@ == size_text(bytes as nat),
{
    if bytes < 1024 {
        let mut r = u64_to_string(bytes);
        r.append(" B");
        return r;
    }
    let unit: u128 = if bytes >= 1073741824 {
        1073741824
    } else if bytes >= 1048576 {
        1048576
    } else {
        1024
    };
    let d = as_double_exec(bytes);
    let h = hundredths_exec(d, unit);
    assert(h < 18446744073709551616) by {
        assert(d * 100 / 1024 <= 18446744073709555712 * 100 / 1024) by (nonlinear_arith)
            requires
                d <= 18446744073709555712,
        {
            vstd::arithmetic::div_mod::lemma_div_is_ordered(
                d * 100int,
                18446744073709555712int * 100,
                1024,
            );
        }
    }
    let mut r = two_places_exec(h as u64);
    if bytes >= 1073741824 {
        r.append(" GB");
    } else if bytes >= 1048576 {
        r.append(" MB");
    } else {
        r.append(" KB");
    }
    r
}

// ---------------------------------------------------------------------------
// Scan types
// ---------------------------------------------------------------------------
/// The name of a scan type in the history.
pub open spec fn scan_type_name(t: ScanType) -> Seq<char> {
    match t {
        ScanType::File => "File Scan"@,
        ScanType::Directory => "Directory Scan"@,
        ScanType::Home => "Home Directory Scan"@,
        ScanType::FullSystem => "Full System Scan"@,
        ScanType::Custom => "Custom Scan"@,
    }
}

/// The name of a scan type as the history shows it.
pub fn scan_type_display(scan_type: &ScanType) -> (r: &'static str)
    ensures
        r@ == scan_type_name(*scan_type),
{
    match scan_type {
        ScanType::File => "File Scan",
        ScanType::Directory => "Directory Scan",
        ScanType::Home => "Home Directory Scan",
        ScanType::FullSystem => "Full System Scan",
        ScanType::Custom => "Custom Scan",
    }
}

// ---------------------------------------------------------------------------
// Snap directories
// ---------------------------------------------------------------------------
/// The signature database of a snap installation: `clamav` in the snap's
/// per-user data directory (`$SNAP_USER_DATA`), when there is one.
pub fn snap_database_dir(snap_user_data: Option<&str>) -> (r: Option<String>)
    ensures
        match snap_user_data {
            Some(d) => r matches Some(p) && p@ == path_join(d@, "clamav"@),
            None => r is None,
        },
{
    match snap_user_data {
        Some(d) => Some(join_path(d, "clamav")),
        None => None,
    }
}

/// The code-signing certificates bundled with a snap installation
/// (`etc/clamav/certs` in `$SNAP`), when there is one.
pub fn snap_cvdcerts_dir(snap: Option<&str>) -> (r: Option<String>)
    ensures
        match snap {
            Some(d) => r matches Some(p) && p@ == path_join(d@, "etc/clamav/certs"@),
            None => r is None,
        },
{
    match snap {
        Some(d) => Some(join_path(d, "etc/clamav/certs")),
        None => None,
    }
}

// ---------------------------------------------------------------------------
// Words and fields
// ---------------------------------------------------------------------------
proof fn lemma_words_skip_ws(s: Seq<char>, a: int)
    requires
        0 <= a <= s.len(),
        forall|k: int| 0 <= k < a ==> is_ws(s[k]),
    ensures
        words(s) == words(s.skip(a)),
    decreases a,
{
    if a > 0 {
        assert(s.drop_first().skip(a - 1) =~= s.skip(a));
        lemma_words_skip_ws(s.drop_first(), a - 1);
    } else {
        assert(s.skip(0) =~= s);
    }
}

/// The spans of the words of `v` (`split_whitespace`).
pub fn word_spans(v: &Vec<char>) -> (spans: Vec<(usize, usize)>)
    ensures
        spans_in(v@, spans@),
        span_texts(v@, spans@) == words(v@),
{
    let n = v.len();
    let mut spans: Vec<(usize, usize)> = Vec::new();
    let mut pos: usize = 0;
    proof {
        assert(v@.skip(0) =~= v@);
        assert(span_texts(v@, spans@) =~= seq![]);
    }
    while pos < n
        invariant
            pos <= n == v@.len(),
            spans_in(v@, spans@),
            words(v@) == span_texts(v@, spans@) + words(v@.skip(pos as int)),
        decreases n - pos,
    {
        let ghost s = v@.skip(pos as int);
        let ghost old_spans = spans@;
        if is_whitespace(v[pos]) {
            proof {
                assert(s.drop_first() =~= v@.skip(pos + 1));
            }
            pos = pos + 1;
        } else {
            let mut b = pos + 1;
            while b < n && !is_whitespace(v[b])
                invariant
                    pos < b <= n == v@.len(),
                    forall|k: int| pos <= k < b ==> !is_ws(v@[k]),
                decreases n - b,
            {
                b = b + 1;
            }
            spans.push((pos, b));
            proof {
                assert forall|k: int| 0 <= k < b - pos implies !is_ws(s[k]) by {
                    assert(s[k] == v@[pos + k]);
                }
                lemma_find_ws(s, b - pos);
                assert(s.take(b - pos) =~= v@.subrange(pos as int, b as int));
                assert(s.skip(b - pos) =~= v@.skip(b as int));
                assert(span_texts(v@, spans@) =~= span_texts(v@, old_spans) + seq![
                    v@.subrange(pos as int, b as int),
                ]);
            }
            pos = b;
        }
    }
    proof {
        assert(v@.skip(n as int) =~= Seq::<char>::empty());
        assert(span_texts(v@, spans@) + words(v@.skip(n as int)) =~= span_texts(v@, spans@));
    }
    spans
}

/// `s.split(c)`: the pieces between the occurrences of `c`.
pub open spec fn split(s: Seq<char>, c: char) -> Seq<Seq<char>>
    decreases s.len(),
{
    let i = find_char(s, c);
    if i < s.len() {
        seq![s.take(i as int)] + split(s.skip((i + 1) as int), c)
    } else {
        seq![s]
    }
}

/// The spans of `split(v, c)`.
pub fn split_spans(v: &Vec<char>, c: char) -> (spans: Vec<(usize, usize)>)
    ensures
        spans_in(v@, spans@),
        span_texts(v@, spans@) == split(v@, c),
{
    let n = v.len();
    let mut spans: Vec<(usize, usize)> = Vec::new();
    let mut pos: usize = 0;
    proof {
        assert(v@.skip(0) =~= v@);
        assert(span_texts(v@, spans@) =~= seq![]);
    }
    loop
        invariant
            pos <= n == v@.len(),
            spans_in(v@, spans@),
            split(v@, c) == span_texts(v@, spans@) + split(v@.skip(pos as int), c),
        decreases n - pos,
    {
        let ghost s = v@.skip(pos as int);
        let ghost old_spans = spans@;
        let j = find_char_from(v, c, pos);
        if j < n {
            spans.push((pos, j));
            proof {
                assert(s.take(j - pos) =~= v@.subrange(pos as int, j as int));
                assert(s.skip(j - pos + 1) =~= v@.skip(j + 1));
                assert(span_texts(v@, spans@) =~= span_texts(v@, old_spans) + seq![
                    v@.subrange(pos as int, j as int),
                ]);
            }
            pos = j + 1;
        } else {
            spans.push((pos, n));
            proof {
                assert(s =~= v@.subrange(pos as int, n as int));
                assert(span_texts(v@, spans@) =~= span_texts(v@, old_spans) + seq![s]);
            }
            return spans;
        }
    }
}

// ---------------------------------------------------------------------------
// /proc/self/status
// ---------------------------------------------------------------------------
/// The real UID on a `Uid:` line of `/proc/self/status`: its first number.
pub open spec fn uid_field(rest: Seq<char>) -> Option<nat> {
    let ws = words(rest);
    if ws.len() == 0 {
        None
    } else {
        parse_unsigned(ws[0], u32::MAX as nat)
    }
}

/// What the first `Uid:` line of the given lines says.
pub open spec fn status_uid(ls: Seq<Seq<char>>) -> Option<nat>
    decreases ls.len(),
{
    if ls.len() == 0 {
        None
    } else if starts_with(ls[0], "Uid:"@) {
        uid_field(ls[0].skip(4))
    } else {
        status_uid(ls.drop_first())
    }
}

/// The real UID of the process, read from the text of `/proc/self/status`.
pub fn uid_from_status(status: &str) -> (r: Option<u32>)
    ensures
        r matches Some(u) ==> status_uid(lines(status@)) == Some(u as nat),
        r is None ==> status_uid(lines(status@)) is None,
{
    let v = chars_of(status);
    let spans = line_spans(&v);
    let ghost ls = lines(v@);
    let prefix = chars_of("Uid:");
    proof {
        reveal_strlit("Uid:");
    }
    let mut i: usize = 0;
    assert(ls.skip(0) =~= ls);
    while i < spans.len()
        invariant
            spans_in(v@, spans@),
            span_texts(v@, spans@) == ls,
            ls == lines(v@),
            v@ == status@,
            prefix@ == "Uid:"@,
            i <= spans@.len(),
            status_uid(ls) == status_uid(ls.skip(i as int)),
        decreases spans@.len() - i,
    {
        let line = slice_of(&v, spans[i].0, spans[i].1);
        proof {
            assert(ls.skip(i as int)[0] == line@);
            assert(ls.skip(i as int).drop_first() =~= ls.skip(i + 1));
        }
        if starts_with_exec(&line, &prefix) {
            proof {
                reveal_strlit("Uid:");
            }
            let rest = slice_of(&line, 4, line.len());
            assert(rest@ =~= line@.skip(4));
            let ws = word_spans(&rest);
            if ws.len() == 0 {
                return None;
            }
            let w = slice_of(&rest, ws[0].0, ws[0].1);
            return match parse_unsigned_exec(&w, u32::MAX as u64) {
                Some(n) => Some(n as u32),
                None => None,
            };
        }
        i = i + 1;
    }
    proof {
        assert(ls.skip(i as int) =~= Seq::<Seq<char>>::empty());
    }
    None
}

// ---------------------------------------------------------------------------
// /etc/passwd
// ---------------------------------------------------------------------------
/// The home directory on a `/etc/passwd` line of the user `uid`: the sixth
/// `:`-separated field, when the third is that UID.
pub open spec fn passwd_entry_home(line: Seq<char>, uid: u32) -> Option<Seq<char>> {
    let fields = split(line, ':');
    if fields.len() >= 6 && parse_unsigned(fields[2], u32::MAX as nat) == Some(uid as nat) {
        Some(fields[5])
    } else {
        None
    }
}

/// The home directory of `uid` on the first line that names it.
pub open spec fn passwd_home(ls: Seq<Seq<char>>, uid: u32) -> Option<Seq<char>>
    decreases ls.len(),
{
    if ls.len() == 0 {
        None
    } else {
        match passwd_entry_home(ls[0], uid) {
            Some(h) => Some(h),
            None => passwd_home(ls.drop_first(), uid),
        }
    }
}

/// The first line that is the entry of `uid` (six or more fields, the
/// third reading as `uid`) gives the home directory.
proof fn lemma_passwd_home_first(ls: Seq<Seq<char>>, uid: u32, i: int)
    requires
        0 <= i < ls.len(),
        split(ls[i], ':').len() >= 6,
        parse_unsigned(split(ls[i], ':')[2], u32::MAX as nat) == Some(uid as nat),
        forall|k: int|
            0 <= k < i ==> !(#[trigger] split(ls[k], ':').len() >= 6 && parse_unsigned(
                split(ls[k], ':')[2],
                u32::MAX as nat,
            ) == Some(uid as nat)),
    ensures
        passwd_home(ls, uid) == Some(split(ls[i], ':')[5]),
    decreases i,
{
    if i > 0 {
        assert(!(split(ls[0], ':').len() >= 6 && parse_unsigned(split(ls[0], ':')[2], u32::MAX as nat)
            == Some(uid as nat)));
        let rest = ls.drop_first();
        assert forall|k: int|
            0 <= k < i - 1 implies !(#[trigger] split(rest[k], ':').len() >= 6 && parse_unsigned(
                split(rest[k], ':')[2],
                u32::MAX as nat,
            ) == Some(uid as nat)) by {
            assert(rest[k] == ls[k + 1]);
            assert(split(ls[k + 1], ':').len() >= 0);
        }
        assert(rest[i - 1] == ls[i]);
        lemma_passwd_home_first(rest, uid, i - 1);
    }
}

proof fn lemma_passwd_home_none(ls: Seq<Seq<char>>, uid: u32)
    requires
        forall|k: int|
            0 <= k < ls.len() ==> !(#[trigger] split(ls[k], ':').len() >= 6 && parse_unsigned(
                split(ls[k], ':')[2],
                u32::MAX as nat,
            ) == Some(uid as nat)),
    ensures
        passwd_home(ls, uid) is None,
    decreases ls.len(),
{
    if ls.len() > 0 {
        assert(split(ls[0], ':').len() >= 0);
        let rest = ls.drop_first();
        assert forall|k: int|
            0 <= k < rest.len() implies !(#[trigger] split(rest[k], ':').len() >= 6 && parse_unsigned(
                split(rest[k], ':')[2],
                u32::MAX as nat,
            ) == Some(uid as nat)) by {
            assert(rest[k] == ls[k + 1]);
            assert(split(ls[k + 1], ':').len() >= 0);
        }
        lemma_passwd_home_none(rest, uid);
    }
}

/// The home directory of `uid` is the sixth `:`-separated field of the
/// first line whose third field, the user id, reads as `uid` (the group
/// id and the other fields play no part); with no such line there is none.
pub proof fn law_passwd_home_by_uid(ls: Seq<Seq<char>>, uid: u32)
    ensures
        forall|i: int|
            0 <= i < ls.len() && #[trigger] split(ls[i], ':').len() >= 6 && parse_unsigned(
                split(ls[i], ':')[2],
                u32::MAX as nat,
            ) == Some(uid as nat) && (forall|k: int|
                0 <= k < i ==> !(#[trigger] split(ls[k], ':').len() >= 6 && parse_unsigned(
                    split(ls[k], ':')[2],
                    u32::MAX as nat,
                ) == Some(uid as nat))) ==> passwd_home(ls, uid) == Some(split(ls[i], ':')[5]),
        (forall|k: int|
            0 <= k < ls.len() ==> !(#[trigger] split(ls[k], ':').len() >= 6 && parse_unsigned(
                split(ls[k], ':')[2],
                u32::MAX as nat,
            ) == Some(uid as nat))) ==> passwd_home(ls, uid) is None,
{
    assert forall|i: int|
        0 <= i < ls.len() && #[trigger] split(ls[i], ':').len() >= 6 && parse_unsigned(
            split(ls[i], ':')[2],
            u32::MAX as nat,
        ) == Some(uid as nat) && (forall|k: int|
            0 <= k < i ==> !(#[trigger] split(ls[k], ':').len() >= 6 && parse_unsigned(
                split(ls[k], ':')[2],
                u32::MAX as nat,
            ) == Some(uid as nat))) implies passwd_home(ls, uid) == Some(split(ls[i], ':')[5]) by {
        lemma_passwd_home_first(ls, uid, i);
    }
    if forall|k: int|
        0 <= k < ls.len() ==> !(#[trigger] split(ls[k], ':').len() >= 6 && parse_unsigned(
            split(ls[k], ':')[2],
            u32::MAX as nat,
        ) == Some(uid as nat)) {
        lemma_passwd_home_none(ls, uid);
    }
}

/// Splitting at `c` a text that starts with a piece holding no `c`.
proof fn lemma_split_piece(a: Seq<char>, rest: Seq<char>, c: char)
    requires
        forall|k: int| 0 <= k < a.len() ==> a[k] != c,
    ensures
        split(a + seq![c] + rest, c) == seq![a] + split(rest, c),
        split(a, c) == seq![a],
{
    lemma_find_char_bound(a, c);
    let s = a + seq![c] + rest;
    assert(s =~= a + (seq![c] + rest));
    lemma_find_char_concat(a, seq![c] + rest, c);
    assert((seq![c] + rest)[0] == c);
    assert(find_char(seq![c] + rest, c) == 0);
    assert(s.take(a.len() as int) =~= a);
    assert(s.skip((a.len() + 1) as int) =~= rest);
}

/// An entry `name:password:uid:gid:gecos:home:shell` whose fields hold no
/// `:` gives its home directory exactly when its uid field reads as `uid`,
/// whatever its group id and other fields are.
pub proof fn law_passwd_entry(
    name: Seq<char>,
    password: Seq<char>,
    user_id: Seq<char>,
    group_id: Seq<char>,
    gecos: Seq<char>,
    home: Seq<char>,
    shell: Seq<char>,
    uid: u32,
)
    requires
        forall|k: int| 0 <= k < name.len() ==> name[k] != ':',
        forall|k: int| 0 <= k < password.len() ==> password[k] != ':',
        forall|k: int| 0 <= k < user_id.len() ==> user_id[k] != ':',
        forall|k: int| 0 <= k < group_id.len() ==> group_id[k] != ':',
        forall|k: int| 0 <= k < gecos.len() ==> gecos[k] != ':',
        forall|k: int| 0 <= k < home.len() ==> home[k] != ':',
        forall|k: int| 0 <= k < shell.len() ==> shell[k] != ':',
    ensures
        ({
            let sep = seq![':'];
            let line = name + sep + password + sep + user_id + sep + group_id + sep + gecos + sep
                + home + sep + shell;
            passwd_entry_home(line, uid) == if parse_unsigned(user_id, u32::MAX as nat) == Some(
                uid as nat,
            ) {
                Some(home)
            } else {
                None
            }
        }),
{
    let sep = seq![':'];
    let t6 = shell;
    let t5 = home + sep + t6;
    let t4 = gecos + sep + t5;
    let t3 = group_id + sep + t4;
    let t2 = user_id + sep + t3;
    let t1 = password + sep + t2;
    let line = name + sep + t1;
    assert(name + sep + password + sep + user_id + sep + group_id + sep + gecos + sep + home + sep
        + shell =~= line);
    lemma_split_piece(shell, seq![], ':');
    lemma_split_piece(home, t6, ':');
    lemma_split_piece(gecos, t5, ':');
    lemma_split_piece(group_id, t4, ':');
    lemma_split_piece(user_id, t3, ':');
    lemma_split_piece(password, t2, ':');
    lemma_split_piece(name, t1, ':');
    assert(split(line, ':') =~= seq![name, password, user_id, group_id, gecos, home, shell]);
}

/// The home directory of the user `uid`, read from the text of `/etc/passwd`.
#[verifier::spinoff_prover]
pub fn home_from_passwd(passwd: &str, uid: u32) -> (r: Option<String>)
    ensures
        r matches Some(h) ==> passwd_home(lines(passwd@), uid) == Some(h@),
        r is None ==> passwd_home(lines(passwd@), uid) is None,
{
    let v = chars_of(passwd);
    let spans = line_spans(&v);
    let ghost ls = lines(v@);
    let mut i: usize = 0;
    assert(ls.skip(0) =~= ls);
    while i < spans.len()
        invariant
            spans_in(v@, spans@),
            span_texts(v@, spans@) == ls,
            ls == lines(v@),
            v@ == passwd@,
            i <= spans@.len(),
            passwd_home(ls, uid) == passwd_home(ls.skip(i as int), uid),
        decreases spans@.len() - i,
    {
        let line = slice_of(&v, spans[i].0, spans[i].1);
        proof {
            assert(ls.skip(i as int)[0] == line@);
            assert(ls.skip(i as int).drop_first() =~= ls.skip(i + 1));
        }
        let fields = split_spans(&line, ':');
        if fields.len() >= 6 {
            let f2 = slice_of(&line, fields[2].0, fields[2].1);
            match parse_unsigned_exec(&f2, u32::MAX as u64) {
                Some(n) => {
                    if n == uid as u64 {
                        return Some(string_of(&line, fields[5].0, fields[5].1));
                    }
                },
                None => {},
            }
        }
        i = i + 1;
    }
    proof {
        assert(ls.skip(i as int) =~= Seq::<Seq<char>>::empty());
    }
    None
}

/// The home directory that a home scan covers. Inside a snap `$HOME` is
/// redirected, so the home that `/etc/passwd` lists for the real UID of
/// `/proc/self/status` is taken, when both texts were read and give one;
/// otherwise the platform's home directory, or `/home` without one.
pub open spec fn home_choice(
    in_snap: bool,
    proc_status: Option<Seq<char>>,
    passwd: Option<Seq<char>>,
    home_dir: Option<Seq<char>>,
) -> Seq<char> {
    let listed = if in_snap {
        match (proc_status, passwd) {
            (Some(st), Some(pw)) => match status_uid(lines(st)) {
                Some(u) => passwd_home(lines(pw), u as u32),
                None => None,
            },
            _ => None,
        }
    } else {
        None
    };
    match listed {
        Some(h) => h,
        None => match home_dir {
            Some(h) => h,
            None => "/home"@,
        },
    }
}

/// The real home directory of the invoking user, from the texts of
/// `/proc/self/status` and `/etc/passwd` (when they could be read) and
/// the platform's home directory (when there is one).
pub fn real_home_dir(
    in_snap: bool,
    proc_status: Option<&str>,
    passwd: Option<&str>,
    home_dir: Option<&str>,
) -> (r: String)
    ensures
        r@ == home_choice(
            in_snap,
            crate::config::opt_view(proc_status),
            crate::config::opt_view(passwd),
            crate::config::opt_view(home_dir),
        ),
{
    if in_snap {
        match (proc_status, passwd) {
            (Some(st), Some(pw)) => match uid_from_status(st) {
                Some(u) => match home_from_passwd(pw, u) {
                    Some(h) => return h,
                    None => {},
                },
                None => {},
            },
            _ => {},
        }
    }
    match home_dir {
        Some(h) => String::from_str(h),
        None => String::from_str("/home"),
    }
}

// ---------------------------------------------------------------------------
// /etc/os-release
// ---------------------------------------------------------------------------
/// A value of `/etc/os-release` as it is meant: trimmed, and without one
/// pair of enclosing double or single quotes, which the file allows.
pub open spec fn os_release_value(v: Seq<char>) -> Seq<char> {
    let t = trim(v);
    if t.len() >= 2 && (t[0] == '"' || t[0] == '\'') && t.last() == t[0] {
        t.subrange(1, t.len() - 1)
    } else {
        t
    }
}

/// Whether a line of `/etc/os-release` says the system is Ubuntu or is
/// based on it: `ID=ubuntu`, or `ubuntu` among the words of `ID_LIKE=`,
/// each value quoted or not.
pub open spec fn says_ubuntu(line: Seq<char>) -> bool {
    let t = trim(line);
    if starts_with(t, "ID="@) {
        os_release_value(t.skip(3)) == "ubuntu"@
    } else if starts_with(t, "ID_LIKE="@) {
        let ws = words(os_release_value(t.skip(8)));
        exists|i: int| 0 <= i < ws.len() && #[trigger] ws[i] == "ubuntu"@
    } else {
        false
    }
}

/// `os_release_value` of `v`.
fn os_release_value_exec(v: &Vec<char>) -> (r: Vec<char>)
    ensures
        r@ == os_release_value(v@),
{
    let t = trim_chars(v);
    let n = t.len();
    if n >= 2 && (t[0] == '"' || t[0] == '\'') && t[n - 1] == t[0] {
        slice_of(&t, 1, n - 1)
    } else {
        t
    }
}

/// Whether the text of `/etc/os-release` describes Ubuntu or a derivative.
pub fn os_release_is_ubuntu(content: &str) -> (r: bool)
    ensures
        r == exists|i: int| 0 <= i < lines(content@).len() && says_ubuntu(#[trigger] lines(content@)[i]),
{
    let v = chars_of(content);
    let spans = line_spans(&v);
    let ghost ls = lines(v@);
    let mut i: usize = 0;
    while i < spans.len()
        invariant
            spans_in(v@, spans@),
            span_texts(v@, spans@) == ls,
            ls == lines(v@),
            v@ == content@,
            i <= spans@.len(),
            forall|k: int| 0 <= k < i ==> !says_ubuntu(#[trigger] ls[k]),
        decreases spans@.len() - i,
    {
        let line = slice_of(&v, spans[i].0, spans[i].1);
        assert(ls[i as int] == line@);
        if line_says_ubuntu(&line) {
            return true;
        }
        i = i + 1;
    }
    false
}

#[verifier::loop_isolation(false)]
fn line_says_ubuntu(line: &Vec<char>) -> (r: bool)
    ensures
        r == says_ubuntu(line@),
{
    let t = trim_chars(line);
    let id = chars_of("ID=");
    let id_like = chars_of("ID_LIKE=");
    let ubuntu = chars_of("ubuntu");
    proof {
        reveal_strlit("ID=");
        reveal_strlit("ID_LIKE=");
    }
    if starts_with_exec(&t, &id) {
        let rest = slice_of(&t, 3, t.len());
        assert(rest@ =~= t@.skip(3));
        let v = os_release_value_exec(&rest);
        chars_eq(&v, &ubuntu)
    } else if starts_with_exec(&t, &id_like) {
        let after = slice_of(&t, 8, t.len());
        assert(after@ =~= t@.skip(8));
        let rest = os_release_value_exec(&after);
        let ws = word_spans(&rest);
        let ghost wl = words(rest@);
        let mut k: usize = 0;
        while k < ws.len()
            invariant
                spans_in(rest@, ws@),
                span_texts(rest@, ws@) == wl,
                wl == words(os_release_value(t@.skip(8))),
                ubuntu@ == "ubuntu"@,
                k <= ws@.len(),
                forall|j: int| 0 <= j < k ==> wl[j] != "ubuntu"@,
            decreases ws@.len() - k,
        {
            let w = slice_of(&rest, ws[k].0, ws[k].1);
            assert(wl[k as int] == w@);
            if chars_eq(&w, &ubuntu) {
                return true;
            }
            k = k + 1;
        }
        false
    } else {
        false
    }
}

} // verus!
