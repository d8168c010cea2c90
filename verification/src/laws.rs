//! Laws relating the refresh operations across whole cycles.

use vstd::prelude::*;
use vstd::map::*;

use crate::addr::IfAddress;
use crate::data::CounterSample;
use crate::data::NetworkData;
use crate::data::fresh_entry;
use crate::data::sat_sub;
use crate::data::shift_entry;
use crate::table::Snapshot;
use crate::table::spec_apply_samples;
use crate::table::spec_clear_all;
use crate::table::spec_merge;
use crate::table::spec_merge_all;
use crate::table::spec_prune;
use crate::table::spec_reconcile;
use crate::table::spec_refresh;

verus! {

/// Some sample of the list is for interface `n`.
pub open spec fn has_sample(s: Seq<(String, CounterSample)>, n: Seq<char>) -> bool {
    exists|i: int| 0 <= i < s.len() && s[i].0@ == n
}

/// The counters sampled for `n` (unique when sample names are distinct).
pub open spec fn sample_for(s: Seq<(String, CounterSample)>, n: Seq<char>) -> CounterSample {
    s[choose|i: int| 0 <= i < s.len() && s[i].0@ == n].1
}

/// The samples' interface names are pairwise distinct.
pub open spec fn distinct_sample_names(s: Seq<(String, CounterSample)>) -> bool {
    forall|i: int, j: int| 0 <= i < j < s.len() ==> s[i].0@ != s[j].0@
}

/// The two records agree on all twelve counters and the presence flag
/// (addresses left free).
pub open spec fn same_counters(a: NetworkData, b: NetworkData) -> bool {
    a.current_in == b.current_in && a.old_in == b.old_in && a.current_out == b.current_out
        && a.old_out == b.old_out && a.packets_in == b.packets_in && a.old_packets_in
        == b.old_packets_in && a.packets_out == b.packets_out && a.old_packets_out
        == b.old_packets_out && a.errors_in == b.errors_in && a.old_errors_in == b.old_errors_in
        && a.errors_out == b.errors_out && a.old_errors_out == b.old_errors_out && a.updated
        == b.updated
}

/// Folding a sample list in tracks exactly the old names plus the sampled
/// ones, marks every sampled record present, and leaves unsampled records
/// untouched.
pub proof fn lemma_apply_samples_membership(
    m: Map<Seq<char>, NetworkData>,
    s: Seq<(String, CounterSample)>,
    n: Seq<char>,
)
    ensures
        spec_apply_samples(m, s).contains_key(n) <==> (m.contains_key(n) || has_sample(s, n)),
        has_sample(s, n) ==> spec_apply_samples(m, s)[n].updated,
        m.contains_key(n) && !has_sample(s, n) ==> spec_apply_samples(m, s)[n] == m[n],
    decreases s.len(),
{
    if s.len() == 0 {
        assert(!has_sample(s, n));
    } else {
        let st = s.drop_last();
        let last = s.last();
        lemma_apply_samples_membership(m, st, n);
        assert(has_sample(st, n) ==> has_sample(s, n)) by {
            if has_sample(st, n) {
                let w = choose|i: int| 0 <= i < st.len() && st[i].0@ == n;
                assert(s[w].0@ == n);
            }
        }
        if last.0@ == n {
            assert(s[s.len() - 1].0@ == n);
            assert(has_sample(s, n));
        } else {
            assert(has_sample(s, n) ==> has_sample(st, n)) by {
                if has_sample(s, n) {
                    let w = choose|i: int| 0 <= i < s.len() && s[i].0@ == n;
                    assert(w != s.len() - 1);
                    assert(st[w].0@ == n);
                }
            }
        }
    }
}

/// Merging addresses never changes which interfaces are tracked, nor any
/// record's counters or presence flag.
pub proof fn lemma_merge_all_counters(
    m: Map<Seq<char>, NetworkData>,
    a: Seq<(String, IfAddress)>,
    n: Seq<char>,
)
    ensures
        spec_merge_all(m, a).contains_key(n) <==> m.contains_key(n),
        m.contains_key(n) ==> same_counters(spec_merge_all(m, a)[n], m[n]),
    decreases a.len(),
{
    if a.len() == 0 {
    } else {
        lemma_merge_all_counters(m, a.drop_last(), n);
    }
}

/// With distinct sample names, the record a fold leaves for a sampled name
/// is exactly one update of the starting map with that name's counters.
pub proof fn lemma_apply_samples_value(
    m: Map<Seq<char>, NetworkData>,
    s: Seq<(String, CounterSample)>,
    n: Seq<char>,
)
    requires
        distinct_sample_names(s),
        has_sample(s, n),
    ensures
        spec_apply_samples(m, s)[n] == (if m.contains_key(n) {
            shift_entry(m[n], sample_for(s, n))
        } else {
            fresh_entry(sample_for(s, n))
        }),
    decreases s.len(),
{
    let st = s.drop_last();
    let last = s.last();
    let w = choose|i: int| 0 <= i < s.len() && s[i].0@ == n;
    assert(distinct_sample_names(st));
    if last.0@ == n {
        assert(w == s.len() - 1);
        assert(sample_for(s, n) == last.1);
        assert(!has_sample(st, n)) by {
            if has_sample(st, n) {
                let v = choose|i: int| 0 <= i < st.len() && st[i].0@ == n;
                assert(s[v].0@ == n);
                assert(false);
            }
        }
        lemma_apply_samples_membership(m, st, n);
    } else {
        assert(w != s.len() - 1);
        assert(st[w].0@ == n);
        assert(has_sample(st, n));
        assert(sample_for(st, n) == sample_for(s, n)) by {
            let v = choose|i: int| 0 <= i < st.len() && st[i].0@ == n;
            let u = choose|i: int| 0 <= i < s.len() && s[i].0@ == n;
            assert(s[v].0@ == n);
            assert(u != s.len() - 1);
            assert(st[u].0@ == n);
            assert(u == v);
        }
        lemma_apply_samples_value(m, st, n);
    }
}

/// A reconciling refresh tracks exactly the interfaces the snapshot's
/// samples report: every absent interface is removed, every reported one is
/// present.
pub proof fn lemma_reconcile_membership(
    m: Map<Seq<char>, NetworkData>,
    snap: Snapshot,
    n: Seq<char>,
)
    ensures
        spec_reconcile(m, Some(snap)).contains_key(n) <==> has_sample(snap.samples@, n),
{
    let m1 = spec_clear_all(m);
    let m2 = spec_apply_samples(m1, snap.samples@);
    let m3 = spec_merge_all(m2, snap.addresses@);
    lemma_apply_samples_membership(m1, snap.samples@, n);
    lemma_merge_all_counters(m2, snap.addresses@, n);
}

/// A refresh-in-place never removes an interface, whether or not the query
/// succeeded.
pub proof fn lemma_refresh_in_place_keeps(
    m: Map<Seq<char>, NetworkData>,
    o: Option<Snapshot>,
    n: Seq<char>,
)
    ensures
        m.contains_key(n) ==> spec_refresh(m, o).contains_key(n),
{
    match o {
        Option::None => {
        },
        Option::Some(snap) => {
            let m2 = spec_apply_samples(m, snap.samples@);
            lemma_apply_samples_membership(m, snap.samples@, n);
            lemma_merge_all_counters(m2, snap.addresses@, n);
        },
    }
}

/// Merging the same (name, address) pair twice stores the same address as
/// merging it once.
pub proof fn lemma_merge_idempotent(m: Map<Seq<char>, NetworkData>, n: Seq<char>, a: IfAddress)
    ensures
        spec_merge(spec_merge(m, n, a), n, a) == spec_merge(m, n, a),
{
    if m.contains_key(n) {
        let m1 = spec_merge(m, n, a);
        assert_maps_equal!(spec_merge(m1, n, a), m1);
    }
}

/// Re-running a refresh-in-place on an identical snapshot (with distinct
/// sample names) leaves every sampled interface's current counters
/// identical and makes its deltas exactly zero. (An interface the snapshot
/// does not sample keeps its records, and so its old deltas, unchanged.)
pub proof fn lemma_refresh_in_place_twice_zero_deltas(
    m: Map<Seq<char>, NetworkData>,
    snap: Snapshot,
    n: Seq<char>,
)
    requires
        distinct_sample_names(snap.samples@),
        has_sample(snap.samples@, n),
    ensures
        spec_refresh(m, Some(snap)).contains_key(n),
        spec_refresh(spec_refresh(m, Some(snap)), Some(snap)).contains_key(n),
        ({
            let r1 = spec_refresh(m, Some(snap))[n];
            let r2 = spec_refresh(spec_refresh(m, Some(snap)), Some(snap))[n];
            r2.current_in == r1.current_in && r2.current_out == r1.current_out && r2.packets_in
                == r1.packets_in && r2.packets_out == r1.packets_out && r2.errors_in
                == r1.errors_in && r2.errors_out == r1.errors_out && sat_sub(
                r2.current_in,
                r2.old_in,
            ) == 0 && sat_sub(r2.current_out, r2.old_out) == 0 && sat_sub(
                r2.packets_in,
                r2.old_packets_in,
            ) == 0 && sat_sub(r2.packets_out, r2.old_packets_out) == 0 && sat_sub(
                r2.errors_in,
                r2.old_errors_in,
            ) == 0 && sat_sub(r2.errors_out, r2.old_errors_out) == 0
        }),
{
    let c = sample_for(snap.samples@, n);
    let m2 = spec_apply_samples(m, snap.samples@);
    let mr1 = spec_merge_all(m2, snap.addresses@);
    lemma_apply_samples_membership(m, snap.samples@, n);
    lemma_apply_samples_value(m, snap.samples@, n);
    lemma_merge_all_counters(m2, snap.addresses@, n);
    assert(mr1[n].current_in == c.in_bytes && mr1[n].current_out == c.out_bytes
        && mr1[n].packets_in == c.packets_in && mr1[n].packets_out == c.packets_out
        && mr1[n].errors_in == c.errors_in && mr1[n].errors_out == c.errors_out);
    let m2b = spec_apply_samples(mr1, snap.samples@);
    let mr2 = spec_merge_all(m2b, snap.addresses@);
    lemma_apply_samples_membership(mr1, snap.samples@, n);
    lemma_apply_samples_value(mr1, snap.samples@, n);
    lemma_merge_all_counters(m2b, snap.addresses@, n);
    assert(m2b[n] == shift_entry(mr1[n], c));
}

/// Running a reconciling refresh twice on identical snapshots (with
/// distinct sample names) tracks the same interfaces, leaves every current
/// counter identical, and makes every delta of the second run exactly zero.
pub proof fn lemma_refresh_twice_zero_deltas(
    m: Map<Seq<char>, NetworkData>,
    snap: Snapshot,
    n: Seq<char>,
)
    requires
        distinct_sample_names(snap.samples@),
    ensures
        spec_reconcile(spec_reconcile(m, Some(snap)), Some(snap)).contains_key(n)
            <==> spec_reconcile(m, Some(snap)).contains_key(n),
        spec_reconcile(m, Some(snap)).contains_key(n) ==> {
            let r1 = spec_reconcile(m, Some(snap))[n];
            let r2 = spec_reconcile(spec_reconcile(m, Some(snap)), Some(snap))[n];
            r2.current_in == r1.current_in && r2.current_out == r1.current_out && r2.packets_in
                == r1.packets_in && r2.packets_out == r1.packets_out && r2.errors_in
                == r1.errors_in && r2.errors_out == r1.errors_out && sat_sub(
                r2.current_in,
                r2.old_in,
            ) == 0 && sat_sub(r2.current_out, r2.old_out) == 0 && sat_sub(
                r2.packets_in,
                r2.old_packets_in,
            ) == 0 && sat_sub(r2.packets_out, r2.old_packets_out) == 0 && sat_sub(
                r2.errors_in,
                r2.old_errors_in,
            ) == 0 && sat_sub(r2.errors_out, r2.old_errors_out) == 0
        },
{
    let mr1 = spec_reconcile(m, Some(snap));
    let mr2 = spec_reconcile(mr1, Some(snap));
    lemma_reconcile_membership(m, snap, n);
    lemma_reconcile_membership(mr1, snap, n);
    if mr1.contains_key(n) {
        let c = sample_for(snap.samples@, n);
        let m1 = spec_clear_all(m);
        let m2 = spec_apply_samples(m1, snap.samples@);
        let m3 = spec_merge_all(m2, snap.addresses@);
        lemma_apply_samples_membership(m1, snap.samples@, n);
        lemma_apply_samples_value(m1, snap.samples@, n);
        lemma_merge_all_counters(m2, snap.addresses@, n);
        assert(mr1[n] == m3[n]);
        assert(mr1[n].current_in == c.in_bytes && mr1[n].current_out == c.out_bytes && mr1[n].packets_in
            == c.packets_in && mr1[n].packets_out == c.packets_out && mr1[n].errors_in
            == c.errors_in && mr1[n].errors_out == c.errors_out);
        let m1b = spec_clear_all(mr1);
        let m2b = spec_apply_samples(m1b, snap.samples@);
        let m3b = spec_merge_all(m2b, snap.addresses@);
        lemma_apply_samples_membership(m1b, snap.samples@, n);
        lemma_apply_samples_value(m1b, snap.samples@, n);
        lemma_merge_all_counters(m2b, snap.addresses@, n);
        assert(m1b.contains_key(n) && m1b[n].current_in == mr1[n].current_in);
        assert(m2b[n] == shift_entry(m1b[n], c));
        assert(mr2[n] == m3b[n]);
    }
}

} // verus!
