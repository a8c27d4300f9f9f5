//! The scan history: a bounded list of records, newest first.
use vstd::prelude::*;
use crate::config::{app_dir, opt_view, AppConfig};
use crate::paths::path_join;

verus! {

/// Records of the history, each with the time it was made as its key
/// (nanoseconds since the epoch).
pub type Keyed<T> = (i128, T);

/// The records are ordered by time, newest first.
pub open spec fn newest_first<T>(s: Seq<Keyed<T>>) -> bool {
    forall|i: int, j: int| 0 <= i < j < s.len() ==> s[i].0 >= s[j].0
}

pub open spec fn has_key<T>(k: i128) -> spec_fn(Keyed<T>) -> bool {
    |e: Keyed<T>| e.0 == k
}

/// The records made at time `k`, in their order in `s`.
pub open spec fn made_at<T>(s: Seq<Keyed<T>>, k: i128) -> Seq<Keyed<T>> {
    s.filter(has_key::<T>(k))
}

/// `s` holds the records of `all`, newest first; records of the same time
/// stand in the order in which they were added.
pub open spec fn sorted_newest_first<T>(all: Seq<Keyed<T>>, s: Seq<Keyed<T>>) -> bool {
    &&& s.len() == all.len()
    &&& newest_first(s)
    &&& forall|k: i128| #[trigger] made_at(s, k) == made_at(all, k)
}

/// How many records a history of `limit` entries keeps of `n`.
pub open spec fn kept_len(n: nat, limit: nat) -> nat {
    if n <= limit {
        n
    } else {
        limit
    }
}

/// The history after `entry` is added to `entries` with room for `limit`
/// records: the `limit` newest records, newest first, as `r`.
pub open spec fn keeps_newest<T>(
    entries: Seq<Keyed<T>>,
    entry: Keyed<T>,
    limit: nat,
    r: Seq<Keyed<T>>,
) -> bool {
    let all = entries.push(entry);
    exists|s: Seq<Keyed<T>>|
        sorted_newest_first(all, s) && #[trigger] s.take(kept_len(all.len(), limit) as int) == r
}

proof fn lemma_filter_push<T>(s: Seq<Keyed<T>>, x: Keyed<T>, k: i128)
    ensures
        made_at(s.push(x), k) == if x.0 == k {
            made_at(s, k).push(x)
        } else {
            made_at(s, k)
        },
{
    reveal_with_fuel(Seq::filter, 1);
    assert(s.push(x).drop_last() =~= s);
}

proof fn lemma_filter_none<T>(s: Seq<Keyed<T>>, k: i128)
    requires
        forall|i: int| 0 <= i < s.len() ==> s[i].0 != k,
    ensures
        made_at(s, k) == Seq::<Keyed<T>>::empty(),
    decreases s.len(),
{
    reveal_with_fuel(Seq::filter, 1);
    if s.len() > 0 {
        lemma_filter_none(s.drop_last(), k);
    }
}

/// Inserting `x` where the keys stop being at least its own keeps the
/// records newest first and adds `x` after the records of its own time.
proof fn lemma_insert<T>(s: Seq<Keyed<T>>, p: int, x: Keyed<T>)
    requires
        newest_first(s),
        0 <= p <= s.len(),
        forall|j: int| 0 <= j < p ==> s[j].0 >= x.0,
        forall|j: int| p <= j < s.len() ==> s[j].0 < x.0,
    ensures
        newest_first(s.insert(p, x)),
        forall|k: i128| #[trigger]
            made_at(s.insert(p, x), k) == if x.0 == k {
                made_at(s, k).push(x)
            } else {
                made_at(s, k)
            },
{
    let t = s.insert(p, x);
    assert forall|i: int, j: int| 0 <= i < j < t.len() implies t[i].0 >= t[j].0 by {
        if j < p {
            assert(t[i] == s[i] && t[j] == s[j]);
        } else if j == p {
            assert(t[i] == s[i]);
        } else if i < p {
            assert(t[i] == s[i] && t[j] == s[j - 1]);
        } else if i == p {
            assert(t[j] == s[j - 1]);
        } else {
            assert(t[i] == s[i - 1] && t[j] == s[j - 1]);
        }
    }
    let a = s.subrange(0, p);
    let b = s.subrange(p, s.len() as int);
    assert(s =~= a + b);
    assert(t =~= a.push(x) + b);
    assert forall|k: i128|
        #[trigger] made_at(t, k) == if x.0 == k {
            made_at(s, k).push(x)
        } else {
            made_at(s, k)
        } by {
        Seq::filter_distributes_over_add(a.push(x), b, has_key::<T>(k));
        Seq::filter_distributes_over_add(a, b, has_key::<T>(k));
        lemma_filter_push(a, x, k);
        if x.0 == k {
            assert forall|i: int| 0 <= i < b.len() implies b[i].0 != k by {
                assert(b[i] == s[p + i]);
            }
            lemma_filter_none(b, k);
            assert(made_at(b, k) =~= Seq::<Keyed<T>>::empty());
            assert(made_at(t, k) =~= made_at(a, k).push(x));
            assert(made_at(s, k) =~= made_at(a, k));
        }
    }
}

/// The history keeps its newest records: it holds at most `limit` of
/// them, newest first; a record newer than a kept one is kept too, with
/// all the records of its time; and a new record newer than all the others
/// comes first whenever `limit` is not zero.
pub proof fn law_history_keeps_newest<T>(
    entries: Seq<Keyed<T>>,
    entry: Keyed<T>,
    limit: nat,
    r: Seq<Keyed<T>>,
)
    requires
        keeps_newest(entries, entry, limit, r),
    ensures
        r.len() == kept_len(entries.len() + 1, limit),
        newest_first(r),
        ({
            let all = entries.push(entry);
            forall|i: int, j: int|
                0 <= i < r.len() && 0 <= j < all.len() && #[trigger] all[j].0 > #[trigger] r[i].0
                    ==> made_at(r, all[j].0) == made_at(all, all[j].0)
        }),
        limit > 0 && (forall|j: int| 0 <= j < entries.len() ==> entries[j].0 < entry.0) ==> r[0]
            == entry,
{
    let all = entries.push(entry);
    let n = kept_len(all.len(), limit) as int;
    let s = choose|s: Seq<Keyed<T>>|
        sorted_newest_first(all, s) && #[trigger] s.take(n) == r;
    assert(s =~= s.take(n) + s.skip(n));
    assert forall|i: int, j: int|
        0 <= i < r.len() && 0 <= j < all.len() && #[trigger] all[j].0 > #[trigger] r[i].0 implies
        made_at(r, all[j].0) == made_at(all, all[j].0) by {
        let k = all[j].0;
        let rest = s.skip(n);
        assert(r[i] == s[i]);
        assert forall|m: int| 0 <= m < rest.len() implies rest[m].0 != k by {
            assert(rest[m] == s[n + m]);
        }
        lemma_filter_none(rest, k);
        Seq::filter_distributes_over_add(s.take(n), rest, has_key::<T>(k));
        assert(made_at(s, k) =~= made_at(r, k));
    }
    if limit > 0 && (forall|j: int| 0 <= j < entries.len() ==> entries[j].0 < entry.0) {
        let k = entry.0;
        lemma_filter_push(entries, entry, k);
        lemma_filter_none(entries, k);
        assert(made_at(all, k) =~= seq![entry]);
        assert(made_at(s, k) == seq![entry]);
        if forall|m: int| 0 <= m < s.len() ==> s[m].0 != k {
            lemma_filter_none(s, k);
        }
        let m = choose|m: int| 0 <= m < s.len() && s[m].0 == k;
        assert(s[0].0 >= s[m].0);
        if s[0].0 > k {
            let k0 = s[0].0;
            assert forall|j: int| 0 <= j < all.len() implies all[j].0 != k0 by {
                if j < entries.len() {
                    assert(all[j] == entries[j]);
                }
            }
            lemma_filter_none(all, k0);
            s.lemma_filter_contains(has_key::<T>(k0), 0);
            assert(made_at(s, k0).len() == 0);
        }
        s.lemma_filter_contains(has_key::<T>(k), 0);
        assert(made_at(s, k).contains(s[0]));
        assert(r[0] == s[0]);
    }
}

/// Adds `entry` to the history `entries` (in any order) and keeps the
/// `limit` newest records, newest first; records of the same time keep the
/// order in which they were added.
pub fn add_entry<T>(entries: Vec<Keyed<T>>, entry: Keyed<T>, limit: usize) -> (r: Vec<Keyed<T>>)
    ensures
        keeps_newest(entries@, entry, limit as nat, r@),
        r@.len() == kept_len(entries@.len() + 1, limit as nat),
        newest_first(r@),
{
    let mut rest = entries;
    rest.push(entry);
    let ghost keep = rest@;
    let total: usize = rest.len();
    assert(keep.len() == total);
    let mut out: Vec<Keyed<T>> = Vec::new();
    let mut i: usize = 0;
    proof {
        assert(keep.skip(0) =~= keep);
        assert forall|k: i128| #[trigger] made_at(out@, k) == made_at(keep.take(0), k) by {
            assert(keep.take(0) =~= out@);
        }
    }
    while rest.len() > 0
        invariant
            i <= keep.len(),
            keep.len() <= usize::MAX,
            rest@ == keep.skip(i as int),
            out@.len() == i,
            newest_first(out@),
            forall|k: i128| #[trigger] made_at(out@, k) == made_at(keep.take(i as int), k),
        decreases rest@.len(),
    {
        let x = rest.remove(0);
        proof {
            assert(x == keep[i as int]);
            assert(rest@ =~= keep.skip(i + 1));
        }
        let mut p: usize = 0;
        while p < out.len() && out[p].0 >= x.0
            invariant
                p <= out@.len(),
                forall|j: int| 0 <= j < p ==> out@[j].0 >= x.0,
            decreases out@.len() - p,
        {
            p = p + 1;
        }
        proof {
            assert forall|j: int| p <= j < out@.len() implies out@[j].0 < x.0 by {
                if p < out@.len() {
                    assert(out@[p as int].0 < x.0);
                    assert(out@[p as int].0 >= out@[j].0);
                }
            }
            lemma_insert(out@, p as int, x);
            assert(keep.take(i + 1) =~= keep.take(i as int).push(x));
            assert forall|k: i128| #[trigger]
                made_at(out@.insert(p as int, x), k) == made_at(keep.take(i + 1), k) by {
                lemma_filter_push(keep.take(i as int), x, k);
            }
        }
        out.insert(p, x);
        i = i + 1;
    }
    let ghost sorted = out@;
    proof {
        assert(keep.take(i as int) =~= keep);
        assert(sorted_newest_first(keep, sorted));
    }
    out.truncate(limit);
    proof {
        let n = kept_len(keep.len(), limit as nat);
        assert(out@ =~= sorted.take(n as int));
        assert(sorted_newest_first(keep, sorted) && sorted.take(n as int) == out@);
    }
    out
}

/// Clearing the history: the history file, and what it then holds, a list
/// of no records.
pub fn clear_history(data_base: Option<&str>) -> (r: (String, String))
    ensures
        r.0@ == path_join(app_dir(opt_view(data_base)), "history.json"@),
        r.1@ == "[]"@,
{
    (AppConfig::history_file(data_base), String::from_str("[]"))
}

} // verus!
