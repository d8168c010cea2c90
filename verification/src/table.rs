//! The interface table: one counters record per interface name.
//!
//! The table is a sequence of (name, record) pairs with pairwise-distinct
//! names; its abstract value is the map from interface name to record. All
//! refresh operations are specified as transformations of that map.

use vstd::prelude::*;
use vstd::map::*;

use crate::addr::IfAddress;
use crate::data::CounterSample;
use crate::data::NetworkData;
use crate::data::clear_entry;
use crate::data::fresh_entry;
use crate::data::merge_entry;
use crate::data::shift_entry;

verus! {

/// The entries' interface names are pairwise distinct.
pub open spec fn distinct_names(s: Seq<(String, NetworkData)>) -> bool {
    forall|i: int, j: int| 0 <= i < j < s.len() ==> s[i].0@ != s[j].0@
}

/// Some entry carries the interface name `n`.
pub open spec fn has_name(s: Seq<(String, NetworkData)>, n: Seq<char>) -> bool {
    exists|i: int| 0 <= i < s.len() && s[i].0@ == n
}

/// The position of the entry named `n` (unique when names are distinct).
pub open spec fn name_index(s: Seq<(String, NetworkData)>, n: Seq<char>) -> int {
    choose|i: int| 0 <= i < s.len() && s[i].0@ == n
}

/// The map from interface name to record that an entry sequence denotes.
pub open spec fn seq_to_map(s: Seq<(String, NetworkData)>) -> Map<Seq<char>, NetworkData> {
    Map::new(|n: Seq<char>| has_name(s, n), |n: Seq<char>| s[name_index(s, n)].1)
}

/// Entry `i` of a distinct-names sequence is what the denoted map holds for
/// its name.
pub proof fn lemma_map_entry(s: Seq<(String, NetworkData)>, i: int)
    requires
        distinct_names(s),
        0 <= i < s.len(),
    ensures
        seq_to_map(s).contains_key(s[i].0@),
        seq_to_map(s)[s[i].0@] == s[i].1,
{
    assert(has_name(s, s[i].0@)) by {
        assert(0 <= i < s.len() && s[i].0@ == s[i].0@);
    }
    let j = name_index(s, s[i].0@);
    assert(0 <= j < s.len() && s[j].0@ == s[i].0@);
    assert(j == i);
}

/// Replacing the record of entry `i`, name kept, denotes inserting at that
/// name.
pub proof fn lemma_update_entry(s: Seq<(String, NetworkData)>, i: int, d: NetworkData)
    requires
        distinct_names(s),
        0 <= i < s.len(),
    ensures
        distinct_names(s.update(i, (s[i].0, d))),
        seq_to_map(s.update(i, (s[i].0, d))) == seq_to_map(s).insert(s[i].0@, d),
{
    let t = s.update(i, (s[i].0, d));
    assert(forall|k: int| 0 <= k < t.len() ==> t[k].0 == s[k].0);
    assert(distinct_names(t));
    assert forall|n: Seq<char>| has_name(s, n) <==> has_name(t, n) by {
        if has_name(s, n) {
            let w = name_index(s, n);
            assert(0 <= w < s.len() && s[w].0@ == n);
            assert(t[w].0@ == n);
            assert(has_name(t, n));
        }
        if has_name(t, n) {
            let w = name_index(t, n);
            assert(0 <= w < t.len() && t[w].0@ == n);
            assert(s[w].0@ == n);
            assert(has_name(s, n));
        }
    }
    assert_maps_equal!(seq_to_map(t), seq_to_map(s).insert(s[i].0@, d), n => {
        if has_name(t, n) {
            let jt = name_index(t, n);
            assert(0 <= jt < t.len() && t[jt].0@ == n);
            if n == s[i].0@ {
                assert(jt == i);
                assert(t[jt].1 == d);
            } else {
                assert(jt != i);
                assert(t[jt].1 == s[jt].1);
                let js = name_index(s, n);
                assert(0 <= js < s.len() && s[js].0@ == n);
                assert(js == jt);
            }
        }
    });
}

/// Appending an entry with a new name denotes inserting at that name.
pub proof fn lemma_push_entry(s: Seq<(String, NetworkData)>, p: (String, NetworkData))
    requires
        distinct_names(s),
        !has_name(s, p.0@),
    ensures
        distinct_names(s.push(p)),
        seq_to_map(s.push(p)) == seq_to_map(s).insert(p.0@, p.1),
{
    let t = s.push(p);
    assert forall|k: int| 0 <= k < s.len() implies s[k].0@ != p.0@ by {
        if s[k].0@ == p.0@ {
            assert(has_name(s, p.0@));
        }
    }
    assert(distinct_names(t));
    assert_maps_equal!(seq_to_map(t), seq_to_map(s).insert(p.0@, p.1), n => {
        if n == p.0@ {
            assert(t[s.len() as int].0@ == n);
            assert(has_name(t, n));
            let jt = name_index(t, n);
            assert(0 <= jt < t.len() && t[jt].0@ == n);
            assert(jt == s.len());
            assert(t[jt].1 == p.1);
        } else {
            if has_name(s, n) {
                let js = name_index(s, n);
                assert(0 <= js < s.len() && s[js].0@ == n);
                assert(t[js].0@ == n);
                assert(has_name(t, n));
            }
            if has_name(t, n) {
                let jt = name_index(t, n);
                assert(0 <= jt < t.len() && t[jt].0@ == n);
                assert(jt != s.len());
                assert(s[jt].0@ == n);
                assert(has_name(s, n));
                let js = name_index(s, n);
                assert(0 <= js < s.len() && s[js].0@ == n);
                assert(js == jt);
                assert(t[jt].1 == s[js].1);
            }
        }
    });
}

/// Clearing every record's presence flag, as at the start of a reconciling
/// refresh, denotes clearing it on every value of the map.
pub proof fn lemma_cleared_map(s: Seq<(String, NetworkData)>, t: Seq<(String, NetworkData)>)
    requires
        distinct_names(s),
        t.len() == s.len(),
        forall|j: int| 0 <= j < s.len() ==> t[j] == (s[j].0, clear_entry(s[j].1)),
    ensures
        distinct_names(t),
        seq_to_map(t) == spec_clear_all(seq_to_map(s)),
{
    assert(forall|k: int| 0 <= k < t.len() ==> t[k].0 == s[k].0);
    assert(distinct_names(t));
    assert_maps_equal!(seq_to_map(t), spec_clear_all(seq_to_map(s)), n => {
        if has_name(s, n) {
            let js = name_index(s, n);
            assert(0 <= js < s.len() && s[js].0@ == n);
            assert(t[js].0@ == n);
            assert(has_name(t, n));
            let jt = name_index(t, n);
            assert(0 <= jt < t.len() && t[jt].0@ == n);
            assert(s[jt].0@ == n);
            assert(jt == js);
            lemma_map_entry(s, js);
            assert(t[jt].1 == clear_entry(seq_to_map(s)[n]));
        }
        if has_name(t, n) {
            let jt = name_index(t, n);
            assert(0 <= jt < t.len() && t[jt].0@ == n);
            assert(s[jt].0@ == n);
            assert(has_name(s, n));
        }
    });
}

/// Inserting a flagged record commutes with pruning; inserting an unflagged
/// one at an untracked name changes nothing of the pruned map.
pub proof fn lemma_prune_insert(m: Map<Seq<char>, NetworkData>, n: Seq<char>, d: NetworkData)
    ensures
        d.updated ==> spec_prune(m.insert(n, d)) == spec_prune(m).insert(n, d),
        !d.updated && !m.contains_key(n) ==> spec_prune(m.insert(n, d)) == spec_prune(m),
{
    if d.updated {
        assert_maps_equal!(spec_prune(m.insert(n, d)), spec_prune(m).insert(n, d));
    } else if !m.contains_key(n) {
        assert_maps_equal!(spec_prune(m.insert(n, d)), spec_prune(m));
    }
}

/// Every record with its presence flag cleared; the tracked set is kept.
pub open spec fn spec_clear_all(m: Map<Seq<char>, NetworkData>) -> Map<Seq<char>, NetworkData> {
    Map::new(|n: Seq<char>| m.contains_key(n), |n: Seq<char>| clear_entry(m[n]))
}

/// Only the records whose presence flag is still set survive a reconciling
/// prune; they survive unchanged.
pub open spec fn spec_prune(m: Map<Seq<char>, NetworkData>) -> Map<Seq<char>, NetworkData> {
    Map::new(|n: Seq<char>| m.contains_key(n) && m[n].updated, |n: Seq<char>| m[n])
}

/// One refresh observation folded into the map: an existing record shifts
/// current into previous and takes the new counters; an absent name gets a
/// fresh record whose first deltas are zero. Either way the record is marked
/// present.
pub open spec fn spec_update(
    m: Map<Seq<char>, NetworkData>,
    n: Seq<char>,
    c: CounterSample,
) -> Map<Seq<char>, NetworkData> {
    if m.contains_key(n) {
        m.insert(n, shift_entry(m[n], c))
    } else {
        m.insert(n, fresh_entry(c))
    }
}

/// One address value folded into the map: merged into the named record if it
/// is tracked, discarded otherwise (no record is ever created here).
pub open spec fn spec_merge(
    m: Map<Seq<char>, NetworkData>,
    n: Seq<char>,
    a: IfAddress,
) -> Map<Seq<char>, NetworkData> {
    if m.contains_key(n) {
        m.insert(n, merge_entry(m[n], a))
    } else {
        m
    }
}

/// A whole sample list folded into the map in order, each observation as
/// `spec_update`. A name occurring twice keeps the later counters.
pub open spec fn spec_apply_samples(
    m: Map<Seq<char>, NetworkData>,
    s: Seq<(String, CounterSample)>,
) -> Map<Seq<char>, NetworkData>
    decreases s.len(),
{
    if s.len() == 0 {
        m
    } else {
        spec_update(spec_apply_samples(m, s.drop_last()), s.last().0@, s.last().1)
    }
}

/// A whole address list folded into the map in order, each value as
/// `spec_merge`.
pub open spec fn spec_merge_all(
    m: Map<Seq<char>, NetworkData>,
    s: Seq<(String, IfAddress)>,
) -> Map<Seq<char>, NetworkData>
    decreases s.len(),
{
    if s.len() == 0 {
        m
    } else {
        spec_merge(spec_merge_all(m, s.drop_last()), s.last().0@, s.last().1)
    }
}

/// What one refresh cycle obtained from the operating system: the counter
/// samples read from the interface-message buffer (already resolved to
/// names) and the (name, address) pairs the address lookup yielded.
pub struct Snapshot {
    pub samples: Vec<(String, CounterSample)>,
    pub addresses: Vec<(String, IfAddress)>,
}

/// One collector pass over the map: every counter sample folded in, then
/// every address value merged.
pub open spec fn spec_collect(m: Map<Seq<char>, NetworkData>, snap: Snapshot) -> Map<
    Seq<char>,
    NetworkData,
> {
    spec_merge_all(spec_apply_samples(m, snap.samples@), snap.addresses@)
}

/// A refresh-in-place: a failed query (no snapshot) leaves the map exactly
/// as it was; otherwise one collector pass runs and nothing is ever removed.
pub open spec fn spec_refresh(m: Map<Seq<char>, NetworkData>, o: Option<Snapshot>) -> Map<
    Seq<char>,
    NetworkData,
> {
    match o {
        Option::None => m,
        Option::Some(snap) => spec_collect(m, snap),
    }
}

/// A reconciling refresh: a failed query leaves the map exactly as it was
/// (no partial prune); otherwise every presence flag is cleared, a collector
/// pass runs, and the records the pass did not touch are pruned.
pub open spec fn spec_reconcile(m: Map<Seq<char>, NetworkData>, o: Option<Snapshot>) -> Map<
    Seq<char>,
    NetworkData,
> {
    match o {
        Option::None => m,
        Option::Some(snap) => spec_prune(spec_collect(spec_clear_all(m), snap)),
    }
}

/// The in-memory mapping from interface name to its counters record. It
/// survives across refresh cycles; refreshes fold observations into it and
/// a reconciling refresh prunes interfaces the latest data no longer shows.
pub struct Networks {
    pub interfaces: Vec<(String, NetworkData)>,
}

impl View for Networks {
    type V = Map<Seq<char>, NetworkData>;

    open spec fn view(&self) -> Map<Seq<char>, NetworkData> {
        seq_to_map(self.interfaces@)
    }
}

impl Networks {
    /// Entry names are pairwise distinct, so the table denotes its map
    /// faithfully.
    pub open spec fn wf(self) -> bool {
        distinct_names(self.interfaces@)
    }

    /// An empty table.
    pub fn new() -> (r: Self)
        ensures
            r.wf(),
            r@ == Map::<Seq<char>, NetworkData>::empty(),
    {
        let r = Networks { interfaces: Vec::new() };
        proof {
            assert_maps_equal!(r@, Map::<Seq<char>, NetworkData>::empty());
        }
        r
    }

    /// Position of the entry named `name`, if one is tracked.
    fn find_index(&self, name: &String) -> (r: Option<usize>)
        ensures
            match r {
                Some(i) => i < self.interfaces@.len() && self.interfaces@[i as int].0@ == name@,
                None => !has_name(self.interfaces@, name@),
            },
    {
        let mut i: usize = 0;
        while i < self.interfaces.len()
            invariant
                i <= self.interfaces@.len(),
                forall|j: int| 0 <= j < i ==> self.interfaces@[j].0@ != name@,
            decreases self.interfaces@.len() - i,
        {
            if self.interfaces[i].0 == *name {
                return Some(i);
            }
            i = i + 1;
        }
        None
    }

    /// Read-only lookup of one interface's record.
    pub fn get(&self, name: &String) -> (r: Option<&NetworkData>)
        requires
            self.wf(),
        ensures
            match r {
                Some(d) => self@.contains_key(name@) && *d == self@[name@],
                None => !self@.contains_key(name@),
            },
    {
        match self.find_index(name) {
            Some(i) => {
                proof {
                    lemma_map_entry(self.interfaces@, i as int);
                }
                Some(&self.interfaces[i].1)
            },
            None => None,
        }
    }

    /// Number of tracked interfaces.
    pub fn len(&self) -> (r: usize)
        ensures
            r == self.interfaces@.len(),
    {
        self.interfaces.len()
    }

    /// Read-only traversal: the tracked (name, record) pairs. Every pair is
    /// what the table's map holds for that name, and every tracked name
    /// occurs exactly once.
    pub fn iter(&self) -> (r: &Vec<(String, NetworkData)>)
        requires
            self.wf(),
        ensures
            r@ == self.interfaces@,
            forall|i: int|
                0 <= i < r@.len() ==> #[trigger] self@.contains_key(r@[i].0@) && self@[r@[i].0@]
                    == r@[i].1,
            forall|n: Seq<char>| self@.contains_key(n) ==> has_name(r@, n),
    {
        proof {
            assert forall|i: int| 0 <= i < self.interfaces@.len() implies #[trigger] self@.contains_key(
                self.interfaces@[i].0@,
            ) && self@[self.interfaces@[i].0@] == self.interfaces@[i].1 by {
                lemma_map_entry(self.interfaces@, i);
            }
        }
        &self.interfaces
    }

    /// Folds one observation for `name` into the table, creating the record
    /// if the interface is new (first deltas zero) and shifting the counter
    /// pairs if it is known; either way the record is marked present.
    pub fn update(&mut self, name: &String, c: CounterSample)
        requires
            old(self).wf(),
        ensures
            final(self).wf(),
            final(self)@ == spec_update(old(self)@, name@, c),
    {
        let ghost s0 = self.interfaces@;
        match self.find_index(name) {
            Some(i) => {
                let d = self.interfaces[i].1;
                self.interfaces[i].1 = NetworkData {
                    current_in: c.in_bytes,
                    old_in: d.current_in,
                    current_out: c.out_bytes,
                    old_out: d.current_out,
                    packets_in: c.packets_in,
                    old_packets_in: d.packets_in,
                    packets_out: c.packets_out,
                    old_packets_out: d.packets_out,
                    errors_in: c.errors_in,
                    old_errors_in: d.errors_in,
                    errors_out: c.errors_out,
                    old_errors_out: d.errors_out,
                    updated: true,
                    mac_addr: d.mac_addr,
                    ipv4_addr: d.ipv4_addr,
                    ipv4_mask: d.ipv4_mask,
                };
                proof {
                    assert(self.interfaces@ =~= s0.update(i as int, (s0[i as int].0, shift_entry(d, c))));
                    lemma_map_entry(s0, i as int);
                    lemma_update_entry(s0, i as int, shift_entry(d, c));
                }
            },
            None => {
                let key = name.clone();
                self.interfaces.push((key, NetworkData {
                    current_in: c.in_bytes,
                    old_in: c.in_bytes,
                    current_out: c.out_bytes,
                    old_out: c.out_bytes,
                    packets_in: c.packets_in,
                    old_packets_in: c.packets_in,
                    packets_out: c.packets_out,
                    old_packets_out: c.packets_out,
                    errors_in: c.errors_in,
                    old_errors_in: c.errors_in,
                    errors_out: c.errors_out,
                    old_errors_out: c.errors_out,
                    updated: true,
                    mac_addr: crate::addr::MacAddress { b0: 0, b1: 0, b2: 0, b3: 0, b4: 0, b5: 0 },
                    ipv4_addr: crate::addr::Ipv4Address { o0: 0, o1: 0, o2: 0, o3: 0 },
                    ipv4_mask: crate::addr::Ipv4Address { o0: 0, o1: 0, o2: 0, o3: 0 },
                }));
                proof {
                    let p = self.interfaces@.last();
                    assert(self.interfaces@ =~= s0.push(p));
                    assert(p.0@ == name@ && p.1 == fresh_entry(c));
                    lemma_push_entry(s0, p);
                }
            },
        }
    }

    /// Merges one tagged address value into the record tracked for `name`;
    /// address data for an untracked name is silently discarded.
    pub fn merge_address(&mut self, name: &String, a: IfAddress)
        requires
            old(self).wf(),
        ensures
            final(self).wf(),
            final(self)@ == spec_merge(old(self)@, name@, a),
    {
        let ghost s0 = self.interfaces@;
        match self.find_index(name) {
            Some(i) => {
                let d = self.interfaces[i].1;
                let merged = match a {
                    IfAddress::Mac(mac) => NetworkData { mac_addr: mac, ..d },
                    IfAddress::Ipv4(ip, mask) => NetworkData { ipv4_addr: ip, ipv4_mask: mask, ..d },
                };
                self.interfaces[i].1 = merged;
                proof {
                    assert(self.interfaces@ =~= s0.update(i as int, (s0[i as int].0, merge_entry(d, a))));
                    lemma_map_entry(s0, i as int);
                    lemma_update_entry(s0, i as int, merge_entry(d, a));
                }
            },
            None => {
            },
        }
    }

    /// Starts a reconciling cycle: clears every record's presence flag, so
    /// that only records the following collector pass touches survive the
    /// prune.
    pub fn begin_cycle(&mut self)
        requires
            old(self).wf(),
        ensures
            final(self).wf(),
            final(self)@ == spec_clear_all(old(self)@),
    {
        let ghost s0 = self.interfaces@;
        let mut i: usize = 0;
        while i < self.interfaces.len()
            invariant
                i <= s0.len(),
                self.interfaces@.len() == s0.len(),
                distinct_names(s0),
                forall|j: int| 0 <= j < i ==> self.interfaces@[j] == (s0[j].0, clear_entry(s0[j].1)),
                forall|j: int| i <= j < s0.len() ==> self.interfaces@[j] == s0[j],
            decreases s0.len() - i,
        {
            self.interfaces[i].1.updated = false;
            i = i + 1;
        }
        proof {
            lemma_cleared_map(s0, self.interfaces@);
        }
    }

    /// Ends a reconciling cycle: removes every record whose presence flag is
    /// still clear, i.e. every interface the latest data no longer reported.
    pub fn end_cycle_and_prune(&mut self)
        requires
            old(self).wf(),
        ensures
            final(self).wf(),
            final(self)@ == spec_prune(old(self)@),
    {
        let ghost s0 = self.interfaces@;
        let mut kept: Vec<(String, NetworkData)> = Vec::new();
        let mut i: usize = 0;
        while i < self.interfaces.len()
            invariant
                i <= s0.len(),
                self.interfaces@ == s0,
                distinct_names(s0),
                distinct_names(kept@),
                forall|n: Seq<char>| #[trigger] has_name(kept@, n) ==> has_name(s0.take(i as int), n),
                seq_to_map(kept@) == spec_prune(seq_to_map(s0.take(i as int))),
            decreases s0.len() - i,
        {
            let ghost k0 = kept@;
            let ghost ti = s0.take(i as int);
            let ghost ti1 = s0.take(i as int + 1);
            proof {
                assert(ti1 =~= ti.push(s0[i as int]));
                assert(distinct_names(ti));
                assert(!has_name(ti, s0[i as int].0@)) by {
                    if has_name(ti, s0[i as int].0@) {
                        let l = name_index(ti, s0[i as int].0@);
                        assert(0 <= l < ti.len() && ti[l].0@ == s0[i as int].0@);
                        assert(ti[l] == s0[l]);
                        assert(false);
                    }
                }
                lemma_push_entry(ti, s0[i as int]);
                assert(!has_name(k0, s0[i as int].0@));
                lemma_prune_insert(seq_to_map(ti), s0[i as int].0@, s0[i as int].1);
                assert(!seq_to_map(ti).contains_key(s0[i as int].0@));
            }
            if self.interfaces[i].1.updated {
                let nm = self.interfaces[i].0.clone();
                let d = self.interfaces[i].1;
                kept.push((nm, d));
                proof {
                    assert(kept@ =~= k0.push(s0[i as int]));
                    lemma_push_entry(k0, s0[i as int]);
                    assert forall|n: Seq<char>| #[trigger] has_name(kept@, n) implies has_name(
                        ti1,
                        n,
                    ) by {
                        let j = name_index(kept@, n);
                        assert(0 <= j < kept@.len() && kept@[j].0@ == n);
                        if j < k0.len() {
                            assert(k0[j].0@ == n);
                            assert(has_name(k0, n));
                            let l = name_index(ti, n);
                            assert(0 <= l < ti.len() && ti[l].0@ == n);
                            assert(ti1[l].0@ == n);
                            assert(has_name(ti1, n));
                        } else {
                            assert(kept@[j] == s0[i as int]);
                            assert(ti1[ti.len() as int].0@ == n);
                            assert(has_name(ti1, n));
                        }
                    }
                }
            } else {
                proof {
                    assert forall|n: Seq<char>| #[trigger] has_name(kept@, n) implies has_name(
                        ti1,
                        n,
                    ) by {
                        let l = name_index(ti, n);
                        assert(0 <= l < ti.len() && ti[l].0@ == n);
                        assert(ti1[l].0@ == n);
                        assert(has_name(ti1, n));
                    }
                }
            }
            i = i + 1;
        }
        self.interfaces = kept;
        proof {
            assert(s0.take(s0.len() as int) =~= s0);
        }
    }

    /// One collector pass, sample half: folds every (name, counters) pair of
    /// the snapshot into the table in order.
    pub fn apply_samples(&mut self, samples: &Vec<(String, CounterSample)>)
        requires
            old(self).wf(),
        ensures
            final(self).wf(),
            final(self)@ == spec_apply_samples(old(self)@, samples@),
    {
        let ghost m0 = self@;
        let mut i: usize = 0;
        while i < samples.len()
            invariant
                i <= samples@.len(),
                self.wf(),
                self@ == spec_apply_samples(m0, samples@.take(i as int)),
            decreases samples@.len() - i,
        {
            self.update(&samples[i].0, samples[i].1);
            proof {
                assert(samples@.take(i + 1).drop_last() =~= samples@.take(i as int));
                assert(samples@.take(i + 1).last() == samples@[i as int]);
            }
            i = i + 1;
        }
        proof {
            assert(samples@.take(samples@.len() as int) =~= samples@);
        }
    }

    /// One collector pass, address half: merges every (name, address) pair
    /// of the snapshot into the table in order.
    pub fn merge_addresses(&mut self, addresses: &Vec<(String, IfAddress)>)
        requires
            old(self).wf(),
        ensures
            final(self).wf(),
            final(self)@ == spec_merge_all(old(self)@, addresses@),
    {
        let ghost m0 = self@;
        let mut i: usize = 0;
        while i < addresses.len()
            invariant
                i <= addresses@.len(),
                self.wf(),
                self@ == spec_merge_all(m0, addresses@.take(i as int)),
            decreases addresses@.len() - i,
        {
            self.merge_address(&addresses[i].0, addresses[i].1);
            proof {
                assert(addresses@.take(i + 1).drop_last() =~= addresses@.take(i as int));
                assert(addresses@.take(i + 1).last() == addresses@[i as int]);
            }
            i = i + 1;
        }
        proof {
            assert(addresses@.take(addresses@.len() as int) =~= addresses@);
        }
    }

    /// Refresh-in-place: one collector pass; existing interfaces are updated
    /// and new ones appended, but none is ever removed. With no snapshot
    /// (the OS query failed) the table is left exactly as it was.
    pub fn refresh(&mut self, snapshot: &Option<Snapshot>)
        requires
            old(self).wf(),
        ensures
            final(self).wf(),
            final(self)@ == spec_refresh(old(self)@, *snapshot),
    {
        match snapshot {
            Some(snap) => {
                self.apply_samples(&snap.samples);
                self.merge_addresses(&snap.addresses);
            },
            None => {
            },
        }
    }

    /// Refresh-and-reconcile: one collector pass between presence-flag
    /// clearing and pruning, so the tracked set mirrors the reported one.
    /// With no snapshot (the OS query failed) the table is left exactly as
    /// it was: no partial prune, no partial update.
    pub fn refresh_networks_list(&mut self, snapshot: &Option<Snapshot>)
        requires
            old(self).wf(),
        ensures
            final(self).wf(),
            final(self)@ == spec_reconcile(old(self)@, *snapshot),
    {
        match snapshot {
            Some(snap) => {
                self.begin_cycle();
                self.apply_samples(&snap.samples);
                self.merge_addresses(&snap.addresses);
                self.end_cycle_and_prune();
            },
            None => {
            },
        }
    }
}

} // verus!
