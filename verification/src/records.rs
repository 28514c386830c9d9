use vstd::prelude::*;

use crate::codes::MAX_LENGTH;

verus! {

/// Per-process state: the memory regions a process has shared with the
/// kernel for transmit and receive, and its registered completion-callback
/// handles. Regions are held as owned byte vectors; callbacks as opaque
/// handles that the embedding maps to real upcalls.
pub struct App {
    pub tx_callback: Option<u32>,
    pub tx_buffer: Option<Vec<u8>>,
    pub rx_callback: Option<u32>,
    pub rx_buffer: Option<Vec<u8>>,
}

/// Mathematical model of one process record.
pub struct AppView {
    pub tx_callback: Option<u32>,
    pub tx_region: Option<Seq<u8>>,
    pub rx_callback: Option<u32>,
    pub rx_region: Option<Seq<u8>>,
}

/// An optional byte region, seen as an optional byte sequence.
pub open spec fn opt_region_view(region: Option<Vec<u8>>) -> Option<Seq<u8>> {
    match region {
        Some(v) => Some(v@),
        None => None,
    }
}

impl View for App {
    type V = AppView;

    open spec fn view(&self) -> AppView {
        AppView {
            tx_callback: self.tx_callback,
            tx_region: opt_region_view(self.tx_buffer),
            rx_callback: self.rx_callback,
            rx_region: opt_region_view(self.rx_buffer),
        }
    }
}

impl AppView {
    /// The record a process starts with: nothing registered.
    pub open spec fn empty() -> AppView {
        AppView { tx_callback: None, tx_region: None, rx_callback: None, rx_region: None }
    }

    /// The sizes the registration rules admit: a transmit region holds at
    /// most `MAX_LENGTH` bytes, a receive region exactly `MAX_LENGTH` bytes.
    pub open spec fn wf(self) -> bool {
        &&& (self.tx_region matches Some(r) ==> r.len() <= MAX_LENGTH)
        &&& (self.rx_region matches Some(r) ==> r.len() == MAX_LENGTH)
    }

    /// `self` with the transmit region replaced.
    pub open spec fn with_tx_region(self, r: Option<Seq<u8>>) -> AppView {
        AppView { tx_region: r, ..self }
    }

    /// `self` with the receive region replaced.
    pub open spec fn with_rx_region(self, r: Option<Seq<u8>>) -> AppView {
        AppView { rx_region: r, ..self }
    }

    /// `self` with the transmit callback replaced.
    pub open spec fn with_tx_callback(self, c: Option<u32>) -> AppView {
        AppView { tx_callback: c, ..self }
    }

    /// `self` with the receive callback replaced.
    pub open spec fn with_rx_callback(self, c: Option<u32>) -> AppView {
        AppView { rx_callback: c, ..self }
    }
}

impl App {
    /// A fresh record with nothing registered.
    pub fn empty() -> (a: App)
        ensures
            a@ == AppView::empty(),
    {
        App { tx_callback: None, tx_buffer: None, rx_callback: None, rx_buffer: None }
    }
}

/// The record of `id` in `m`, or the fresh record if `m` has none: entering
/// a process's storage creates its record lazily.
pub open spec fn app_or_empty(m: Map<u32, AppView>, id: u32) -> AppView {
    if m.contains_key(id) {
        m[id]
    } else {
        AppView::empty()
    }
}

/// The association list `s` names each process identifier at most once.
pub open spec fn keys_unique(s: Seq<(u32, App)>) -> bool {
    forall|i: int, j: int| 0 <= i < j < s.len() ==> (#[trigger] s[i]).0 != (#[trigger] s[j]).0
}

/// The finite map that the association list `s` denotes.
pub open spec fn map_of(s: Seq<(u32, App)>) -> Map<u32, AppView>
    decreases s.len(),
{
    if s.len() == 0 {
        Map::empty()
    } else {
        map_of(s.drop_last()).insert(s.last().0, s.last().1@)
    }
}

proof fn lemma_keys_unique_drop_last(s: Seq<(u32, App)>)
    requires
        keys_unique(s),
        s.len() > 0,
    ensures
        keys_unique(s.drop_last()),
{
    assert forall|i: int, j: int| 0 <= i < j < s.drop_last().len() implies (
        #[trigger] s.drop_last()[i]).0 != (#[trigger] s.drop_last()[j]).0 by {
        assert(s.drop_last()[i] == s[i]);
        assert(s.drop_last()[j] == s[j]);
    }
}

proof fn lemma_map_of_contains(s: Seq<(u32, App)>, k: u32)
    ensures
        map_of(s).contains_key(k) <==> exists|i: int| 0 <= i < s.len() && (#[trigger] s[i]).0 == k,
    decreases s.len(),
{
    if s.len() == 0 {
    } else {
        lemma_map_of_contains(s.drop_last(), k);
        if s.last().0 == k {
            assert((s[s.len() - 1]).0 == k);
        } else {
            if map_of(s).contains_key(k) {
                let i = choose|i: int|
                    0 <= i < s.drop_last().len() && (#[trigger] s.drop_last()[i]).0 == k;
                assert((s[i]).0 == k);
            }
            if exists|i: int| 0 <= i < s.len() && (#[trigger] s[i]).0 == k {
                let i = choose|i: int| 0 <= i < s.len() && (#[trigger] s[i]).0 == k;
                assert(i < s.len() - 1);
                assert(s.drop_last()[i] == s[i]);
            }
        }
    }
}

proof fn lemma_map_of_get(s: Seq<(u32, App)>, i: int)
    requires
        keys_unique(s),
        0 <= i < s.len(),
    ensures
        map_of(s).contains_key((s[i]).0),
        map_of(s)[(s[i]).0] == (s[i]).1@,
    decreases s.len(),
{
    if i == s.len() - 1 {
    } else {
        assert((s[i]).0 != (s[s.len() - 1]).0);
        lemma_keys_unique_drop_last(s);
        assert(s.drop_last()[i] == s[i]);
        lemma_map_of_get(s.drop_last(), i);
    }
}

proof fn lemma_map_of_remove(s: Seq<(u32, App)>, i: int)
    requires
        keys_unique(s),
        0 <= i < s.len(),
    ensures
        keys_unique(s.remove(i)),
        map_of(s.remove(i)) == map_of(s).remove((s[i]).0),
    decreases s.len(),
{
    let k = (s[i]).0;
    assert forall|p: int, q: int| 0 <= p < q < s.remove(i).len() implies (
        #[trigger] s.remove(i)[p]).0 != (#[trigger] s.remove(i)[q]).0 by {
        assert(s.remove(i)[p] == if p < i { s[p] } else { s[p + 1] });
        assert(s.remove(i)[q] == if q < i { s[q] } else { s[q + 1] });
    }
    lemma_keys_unique_drop_last(s);
    lemma_map_of_contains(s.drop_last(), k);
    if i == s.len() - 1 {
        assert(s.remove(i) =~= s.drop_last());
        assert(forall|j: int| 0 <= j < s.drop_last().len() ==> (#[trigger] s.drop_last()[j]) == s[j]);
        assert(!map_of(s.drop_last()).contains_key(k));
        assert(map_of(s.drop_last()).insert(k, (s[i]).1@).remove(k) =~= map_of(s.drop_last()));
    } else {
        let dl = s.drop_last();
        let lk = (s[s.len() - 1]).0;
        let lv = (s[s.len() - 1]).1@;
        assert(s.remove(i).len() == s.len() - 1);
        assert(s.remove(i)[s.len() - 2] == s[s.len() - 1]);
        assert(s.remove(i).drop_last() =~= dl.remove(i));
        lemma_map_of_remove(dl, i);
        assert(dl[i] == s[i]);
        assert(map_of(s.remove(i)) == map_of(dl).remove(k).insert(lk, lv));
        assert(k != lk);
        assert(map_of(dl).remove(k).insert(lk, lv) =~= map_of(dl).insert(lk, lv).remove(k));
    }
}

proof fn lemma_map_of_push(s: Seq<(u32, App)>, p: (u32, App))
    requires
        keys_unique(s),
        !map_of(s).contains_key(p.0),
    ensures
        keys_unique(s.push(p)),
        map_of(s.push(p)) == map_of(s).insert(p.0, p.1@),
{
    lemma_map_of_contains(s, p.0);
    assert forall|i: int, j: int| 0 <= i < j < s.push(p).len() implies (
        #[trigger] s.push(p)[i]).0 != (#[trigger] s.push(p)[j]).0 by {
        if j < s.len() {
            assert(s.push(p)[i] == s[i]);
            assert(s.push(p)[j] == s[j]);
        } else {
            assert(s.push(p)[i] == s[i]);
            assert(s.push(p)[j] == p);
        }
    }
    assert(s.push(p).drop_last() =~= s);
    assert(s.push(p).last() == p);
}

/// Isolated per-process storage: one record per process identifier, created
/// lazily the first time that process's storage is entered. The external
/// isolation mechanism guarantees that at most one record is entered at a
/// time; `take_app` / `put_app` mirror that exclusive entry by moving the
/// record out and back.
pub struct RecordStore {
    entries: Vec<(u32, App)>,
}

impl View for RecordStore {
    type V = Map<u32, AppView>;

    /// A record store models a finite map from process identifier to record.
    closed spec fn view(&self) -> Map<u32, AppView> {
        map_of(self.entries@)
    }
}

impl RecordStore {
    /// Internal invariant: no process identifier occurs twice.
    pub closed spec fn wf(self) -> bool {
        keys_unique(self.entries@)
    }

    /// An empty store.
    pub fn new() -> (s: RecordStore)
        ensures
            s.wf(),
            s@ == Map::<u32, AppView>::empty(),
    {
        RecordStore { entries: Vec::new() }
    }

    /// Enter `id`'s storage: move its record out of the store, or a fresh
    /// record if this process was never seen. The caller owns the record
    /// exclusively until it hands it back with `put_app`.
    pub fn take_app(&mut self, id: u32) -> (app: App)
        requires
            old(self).wf(),
        ensures
            final(self).wf(),
            final(self)@ == old(self)@.remove(id),
            app@ == app_or_empty(old(self)@, id),
    {
        let ghost s0 = self.entries@;
        let mut i: usize = 0;
        while i < self.entries.len()
            invariant
                self.entries@ == s0,
                old(self).entries@ == s0,
                keys_unique(s0),
                i <= s0.len(),
                forall|j: int| 0 <= j < i ==> (#[trigger] s0[j]).0 != id,
            decreases s0.len() - i,
        {
            if self.entries[i].0 == id {
                let pair = self.entries.remove(i);
                proof {
                    lemma_map_of_remove(s0, i as int);
                    lemma_map_of_get(s0, i as int);
                }
                return pair.1;
            }
            i += 1;
        }
        proof {
            lemma_map_of_contains(s0, id);
            assert(map_of(s0).remove(id) =~= map_of(s0));
        }
        App::empty()
    }

    /// Hand `id`'s record back to the store.
    pub fn put_app(&mut self, id: u32, app: App)
        requires
            old(self).wf(),
            !old(self)@.contains_key(id),
        ensures
            final(self).wf(),
            final(self)@ == old(self)@.insert(id, app@),
    {
        let ghost s0 = self.entries@;
        proof {
            lemma_map_of_push(s0, (id, app));
        }
        self.entries.push((id, app));
    }
}

} // verus!
