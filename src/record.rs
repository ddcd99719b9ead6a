use vstd::prelude::*;
use vstd::string::StrSliceExecFns;
use crate::time::{in_calendar, local_utc_offset, ts_le, ts_lt, valid_utc_offset, Timestamp};

verus! {

/// One candidate file, as a directory scan found it.
#[derive(Debug)]
pub struct FileRecord {
    /// The file's base name inside the inbox directory.
    pub name: String,
    /// Its creation time, or its modification time where creation is not recorded.
    pub created: Timestamp,
    /// The offset of local time from UTC at `created`, in seconds.
    pub utc_offset: i32,
}

impl FileRecord {
    /// A record for the file `name` created at `created`, with the local UTC
    /// offset at that instant. `None` exactly where the calendar cannot place
    /// `created`.
    pub fn new(name: String, created: Timestamp) -> (r: Option<FileRecord>)
        ensures
            r is Some <==> in_calendar(created.secs as int),
            r matches Some(f) ==> f.name@ == name@ && f.created == created && valid_utc_offset(
                f.utc_offset as int,
            ),
    {
        match local_utc_offset(created) {
            Some(off) => Some(FileRecord { name, created, utc_offset: off }),
            None => None,
        }
    }
}

/// `name` ends with `suffix`, character for character.
pub open spec fn has_suffix(name: Seq<char>, suffix: Seq<char>) -> bool {
    suffix.len() <= name.len() && name.subrange(name.len() - suffix.len(), name.len() as int)
        == suffix
}

/// `name` ends with `suffix`, compared character by character.
pub fn ends_with(name: &str, suffix: &str) -> (r: bool)
    ensures
        r == has_suffix(name@, suffix@),
{
    let nlen = name.unicode_len();
    let slen = suffix.unicode_len();
    if slen > nlen {
        return false;
    }
    let start = nlen - slen;
    let mut i: usize = 0;
    while i < slen
        invariant
            i <= slen,
            start + slen == nlen,
            nlen == name@.len(),
            slen == suffix@.len(),
            forall|j: int| 0 <= j < i ==> name@[start + j] == suffix@[j],
        decreases slen - i,
    {
        if name.get_char(start + i) != suffix.get_char(i) {
            assert(name@.subrange(start as int, nlen as int)[i as int] != suffix@[i as int]);
            return false;
        }
        i = i + 1;
    }
    assert(name@.subrange(start as int, nlen as int) =~= suffix@);
    true
}

/// A directory entry takes part in a scan when it is a regular file whose name
/// is valid text ending with `suffix`.
pub fn is_candidate(is_file: bool, name: Option<&str>, suffix: &str) -> (r: bool)
    ensures
        r == (is_file && match name {
            Some(n) => has_suffix(n@, suffix@),
            None => false,
        }),
{
    match name {
        Some(n) => is_file && ends_with(n, suffix),
        None => false,
    }
}

/// Each record is created no later than every record after it.
pub open spec fn sorted_by_time(s: Seq<FileRecord>) -> bool {
    forall|i: int, j: int| 0 <= i < j < s.len() ==> ts_le(#[trigger] s[i].created, #[trigger] s[j].created)
}

/// No two records share a creation time.
pub open spec fn distinct_times(s: Seq<FileRecord>) -> bool {
    forall|i: int, j: int| 0 <= i < s.len() && 0 <= j < s.len() && i != j ==> (#[trigger] s[i]).created != (#[trigger] s[j]).created
}

/// `x` placed into `s` just after the last record created no later than it.
pub open spec fn insert_by_time(s: Seq<FileRecord>, x: FileRecord) -> Seq<FileRecord>
    decreases s.len(),
{
    if s.len() == 0 {
        seq![x]
    } else if ts_le(s.last().created, x.created) {
        s.push(x)
    } else {
        insert_by_time(s.drop_last(), x).push(s.last())
    }
}

/// The records of `s` from oldest to newest; records created at the same
/// instant keep their order in `s`. This is the one stable ordering by time.
pub open spec fn time_ordered(s: Seq<FileRecord>) -> Seq<FileRecord>
    decreases s.len(),
{
    if s.len() == 0 {
        s
    } else {
        insert_by_time(time_ordered(s.drop_last()), s.last())
    }
}

proof fn lemma_insert_by_time(s: Seq<FileRecord>, x: FileRecord)
    requires
        sorted_by_time(s),
    ensures
        sorted_by_time(insert_by_time(s, x)),
        insert_by_time(s, x).to_multiset() == s.to_multiset().insert(x),
        insert_by_time(s, x).len() == s.len() + 1,
    decreases s.len(),
{
    broadcast use vstd::seq_lib::group_to_multiset_ensures;

    if s.len() == 0 {
        assert(seq![x] =~= Seq::<FileRecord>::empty().push(x));
    } else if ts_le(s.last().created, x.created) {
    } else {
        let p = s.drop_last();
        assert(sorted_by_time(p));
        lemma_insert_by_time(p, x);
        let q = insert_by_time(p, x);
        assert(s =~= p.push(s.last()));
        assert forall|i: int| 0 <= i < q.len() implies ts_le(#[trigger] q[i].created, s.last().created) by {
            assert(q.to_multiset().count(q[i]) > 0);
            if q[i] == x {
            } else {
                assert(p.to_multiset().count(q[i]) > 0);
                let k = choose|k: int| 0 <= k < p.len() && p[k] == q[i];
                assert(ts_le(s[k].created, s[s.len() - 1].created));
            }
        }
    }
}

/// The stable ordering by time is sorted, and holds the same records.
pub proof fn lemma_time_ordered(s: Seq<FileRecord>)
    ensures
        sorted_by_time(time_ordered(s)),
        time_ordered(s).to_multiset() == s.to_multiset(),
        time_ordered(s).len() == s.len(),
    decreases s.len(),
{
    broadcast use vstd::seq_lib::group_to_multiset_ensures;

    if s.len() > 0 {
        lemma_time_ordered(s.drop_last());
        lemma_insert_by_time(time_ordered(s.drop_last()), s.last());
        assert(s =~= s.drop_last().push(s.last()));
    }
}

/// Each record is created strictly before every record after it.
pub open spec fn strictly_sorted_by_time(s: Seq<FileRecord>) -> bool {
    forall|i: int, j: int| 0 <= i < j < s.len() ==> ts_lt(#[trigger] s[i].created, #[trigger] s[j].created)
}

proof fn lemma_insert_by_time_strict(s: Seq<FileRecord>, x: FileRecord)
    requires
        strictly_sorted_by_time(s),
        forall|k: int| 0 <= k < s.len() ==> (#[trigger] s[k]).created != x.created,
    ensures
        strictly_sorted_by_time(insert_by_time(s, x)),
    decreases s.len(),
{
    broadcast use vstd::seq_lib::group_to_multiset_ensures;

    if s.len() == 0 {
    } else if ts_le(s.last().created, x.created) {
        let q = s.push(x);
        assert forall|i: int, j: int| 0 <= i < j < q.len() implies ts_lt(
            #[trigger] q[i].created,
            #[trigger] q[j].created,
        ) by {
            if j == s.len() {
                assert(ts_le(s[i].created, s[s.len() - 1].created) || i == s.len() - 1);
            }
        }
    } else {
        let p = s.drop_last();
        assert(strictly_sorted_by_time(p));
        assert(sorted_by_time(p));
        lemma_insert_by_time_strict(p, x);
        lemma_insert_by_time(p, x);
        let q = insert_by_time(p, x);
        assert forall|i: int| 0 <= i < q.len() implies ts_lt(#[trigger] q[i].created, s.last().created) by {
            assert(q.to_multiset().count(q[i]) > 0);
            if q[i] == x {
            } else {
                assert(p.to_multiset().count(q[i]) > 0);
                let k = choose|k: int| 0 <= k < p.len() && p[k] == q[i];
                assert(ts_lt(s[k].created, s[s.len() - 1].created));
            }
        }
        let r = q.push(s.last());
        assert forall|i: int, j: int| 0 <= i < j < r.len() implies ts_lt(
            #[trigger] r[i].created,
            #[trigger] r[j].created,
        ) by {
            if j == q.len() {
                assert(ts_lt(q[i].created, s.last().created));
            }
        }
    }
}

/// Files with pairwise distinct creation times come out of the stable
/// ordering strictly oldest first.
pub proof fn lemma_distinct_times_strictly_ordered(s: Seq<FileRecord>)
    requires
        distinct_times(s),
    ensures
        strictly_sorted_by_time(time_ordered(s)),
    decreases s.len(),
{
    broadcast use vstd::seq_lib::group_to_multiset_ensures;

    if s.len() > 0 {
        let p = s.drop_last();
        let x = s.last();
        assert(distinct_times(p));
        lemma_distinct_times_strictly_ordered(p);
        lemma_time_ordered(p);
        let o = time_ordered(p);
        assert forall|k: int| 0 <= k < o.len() implies (#[trigger] o[k]).created != x.created by {
            assert(o.to_multiset().count(o[k]) > 0);
            assert(p.to_multiset().count(o[k]) > 0);
            let m = choose|m: int| 0 <= m < p.len() && p[m] == o[k];
            assert(s[m] == o[k]);
            assert(s[s.len() - 1] == x);
        }
        lemma_insert_by_time_strict(o, x);
    }
}

/// A strictly time-ordered sequence and a time-ordered one that hold the same
/// records are equal.
pub proof fn lemma_strictly_sorted_unique(a: Seq<FileRecord>, b: Seq<FileRecord>)
    requires
        strictly_sorted_by_time(a),
        sorted_by_time(b),
        a.to_multiset() == b.to_multiset(),
    ensures
        a == b,
    decreases a.len(),
{
    broadcast use vstd::seq_lib::group_to_multiset_ensures;

    if a.len() == 0 {
        assert(a.to_multiset().len() == 0);
        assert(b.to_multiset().len() == 0);
        assert(b =~= a);
    } else {
        assert(a.to_multiset().len() == a.len());
        assert(b.to_multiset().len() == b.len());
        let n = a.len() - 1;
        if a[n] != b[n] {
            assert(b.to_multiset().count(a[n]) > 0);
            let k = choose|k: int| 0 <= k < b.len() && b[k] == a[n];
            assert(a.to_multiset().count(b[n]) > 0);
            let l = choose|l: int| 0 <= l < a.len() && a[l] == b[n];
            assert(k < n);
            assert(ts_le(b[k].created, b[n].created));
            assert(l < n);
            assert(ts_lt(a[l].created, a[n].created));
            assert(false);
        }
        assert(a =~= a.drop_last().push(a.last()));
        assert(b =~= b.drop_last().push(b.last()));
        assert(a.drop_last().to_multiset() =~= a.to_multiset().remove(a.last()));
        assert(b.drop_last().to_multiset() =~= b.to_multiset().remove(b.last()));
        lemma_strictly_sorted_unique(a.drop_last(), b.drop_last());
    }
}

/// For files with pairwise distinct creation times, the ordering depends only
/// on which files there are, not on the order a scan listed them in.
pub proof fn lemma_time_ordered_ignores_scan_order(s: Seq<FileRecord>, t: Seq<FileRecord>)
    requires
        distinct_times(s),
        s.to_multiset() == t.to_multiset(),
    ensures
        time_ordered(s) == time_ordered(t),
{
    lemma_distinct_times_strictly_ordered(s);
    lemma_time_ordered(s);
    lemma_time_ordered(t);
    lemma_strictly_sorted_unique(time_ordered(s), time_ordered(t));
}

/// Relies on std's `slice::sort_by_key`, a stable sort: it orders the records
/// by creation time (seconds, then nanoseconds, as tuples compare) and keeps
/// the scan order of records created at the same instant.
#[verifier::external_body]
fn sort_by_creation(v: Vec<FileRecord>) -> (r: Vec<FileRecord>)
    ensures
        r@ == time_ordered(v@),
{
    let mut v = v;
    v.sort_by_key(|f| (f.created.secs, f.created.nanos));
    v
}

/// The records of a scan, oldest first; records created at the same instant
/// keep their scan order.
pub fn order_by_creation(records: Vec<FileRecord>) -> (r: Vec<FileRecord>)
    ensures
        r@ == time_ordered(records@),
        sorted_by_time(r@),
        r@.to_multiset() == records@.to_multiset(),
{
    proof {
        lemma_time_ordered(records@);
    }
    sort_by_creation(records)
}

} // verus!
