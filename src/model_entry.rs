//! Entries in the context of their track, with tied lengths resolved.
use vstd::prelude::*;

use crate::duration::{duration_ticks, lemma_duration_ticks_bound, Duration, Units};
use crate::proto::{entry_duration, entry_ticks, ProtoEntry, TrackKind};
use crate::proto;

verus! {

/// The tied length of the entry at `i`: its own length, and when a tie
/// follows it, the tied length of the first entry with a length after that
/// tie (see `sounding_tied_ticks`).
pub open spec fn tied_ticks(es: Seq<ProtoEntry>, i: int) -> nat
    decreases es.len() - i, 0int,
{
    if 0 <= i < es.len() {
        entry_ticks(es[i]) + if i + 1 < es.len() && es[i + 1] is Tie {
            sounding_tied_ticks(es, i + 2)
        } else {
            0
        }
    } else {
        0
    }
}

/// The tied length of the first entry at or after `j` whose duration is not
/// `Zero`; nothing when there is none.
pub open spec fn sounding_tied_ticks(es: Seq<ProtoEntry>, j: int) -> nat
    decreases es.len() - j, 1int,
{
    if 0 <= j < es.len() {
        if entry_duration(es[j]) != Duration::Zero {
            tied_ticks(es, j)
        } else {
            sounding_tied_ticks(es, j + 1)
        }
    } else {
        0
    }
}

/// The first index at or after `j` whose entry has a duration other than
/// `Zero`.
pub open spec fn next_sounding(es: Seq<ProtoEntry>, j: int) -> Option<int>
    decreases es.len() - j,
{
    if 0 <= j < es.len() {
        if entry_duration(es[j]) != Duration::Zero {
            Some(j)
        } else {
            next_sounding(es, j + 1)
        }
    } else {
        None
    }
}

#[derive(Clone, Copy, Debug)]
pub struct ModelEntryProps {
    pub index: usize,
    pub tied_units: Units,
}

/// An entry of a track: the compiler's entry, its place in the track and its
/// tied length.
#[derive(Debug)]
pub struct ModelEntry {
    /// Index of the owning track in its document.
    pub track: usize,
    pub proto: ProtoEntry,
    pub props: ModelEntryProps,
}

#[derive(Clone, Copy, Debug)]
pub struct TrackProps {
    pub index: usize,
}

/// A track of a realized document.
#[derive(Debug)]
pub struct Track {
    pub id: String,
    pub kind: TrackKind,
    pub entries: Vec<ModelEntry>,
    pub props: TrackProps,
}

/// The compiler's entries behind a sequence of model entries.
pub open spec fn protos_of(es: Seq<ModelEntry>) -> Seq<ProtoEntry> {
    es.map_values(|e: ModelEntry| e.proto)
}

/// `predicate` may answer `None` for each of the first `n` entries.
pub open spec fn none_before<T, F: Fn(&ModelEntry) -> Option<T>>(es: Seq<ModelEntry>, predicate: F, n: int) -> bool {
    forall|j: int| 0 <= j < n ==> predicate.ensures((&es[j],), None::<T>)
}

impl Track {
    /// The first answer other than `None` that `predicate` gives over the
    /// entries, in order.
    pub fn get_entry<T, F: Fn(&ModelEntry) -> Option<T>>(&self, predicate: &F) -> (r: Option<T>)
        requires
            forall|i: int| 0 <= i < self.entries@.len() ==> predicate.requires((&self.entries@[i],)),
        ensures
            r is None ==> none_before(self.entries@, *predicate, self.entries@.len() as int),
            r is Some ==> exists|i: int|
                0 <= i < self.entries@.len() && predicate.ensures((&self.entries@[i],), r)
                    && none_before(self.entries@, *predicate, i),
    {
        let mut i: usize = 0;
        while i < self.entries.len()
            invariant
                i <= self.entries@.len(),
                forall|k: int| 0 <= k < self.entries@.len() ==> predicate.requires((&self.entries@[k],)),
                none_before(self.entries@, *predicate, i as int),
            decreases self.entries@.len() - i,
        {
            let found = predicate(&self.entries[i]);
            if found.is_some() {
                return found;
            }
            i = i + 1;
        }
        None
    }

    /// Each entry knows its track and its index, and carries the tied length
    /// resolved over the whole track.
    pub open spec fn wf(&self) -> bool {
        forall|i: int|
            0 <= i < self.entries@.len() ==> {
                &&& (#[trigger] self.entries@[i]).track == self.props.index
                &&& self.entries@[i].props.index == i
                &&& self.entries@[i].props.tied_units.0 == tied_ticks(
                    protos_of(self.entries@),
                    i,
                )
            }
    }

    /// Builds the track at `index` of its document from the compiler's track.
    pub fn new(index: usize, proto: proto::Track) -> (r: Self)
        ensures
            r.wf(),
            r.props.index == index,
            r.id == proto.id,
            r.kind == proto.kind,
            protos_of(r.entries@) == proto.entries@,
    {
        let proto::Track { id, kind, entries } = proto;
        let entries = ModelEntry::new_entries(entries, index);
        Track { id, kind, entries, props: TrackProps { index } }
    }
}

/// The last index at or before `j` whose entry has a duration other than
/// `Zero`.
pub open spec fn prev_sounding(es: Seq<ProtoEntry>, j: int) -> Option<int>
    decreases j + 1,
{
    if 0 <= j < es.len() {
        if entry_duration(es[j]) != Duration::Zero {
            Some(j)
        } else {
            prev_sounding(es, j - 1)
        }
    } else {
        None
    }
}

/// In a well-formed track, no entry's tied length is shorter than its own
/// length.
pub proof fn lemma_tied_at_least_own(track: Track, i: int)
    requires
        track.wf(),
        0 <= i < track.entries@.len(),
    ensures
        track.entries@[i].props.tied_units.0 >= duration_ticks(entry_duration(track.entries@[i].proto)),
{
    assert(protos_of(track.entries@)[i] == track.entries@[i].proto);
}

impl ModelEntry {
    pub fn new(track: usize, proto: ProtoEntry, index: usize, tied_units: Units) -> (r: Self)
        ensures
            r.track == track,
            r.proto == proto,
            r.props.index == index,
            r.props.tied_units == tied_units,
    {
        ModelEntry { track, proto, props: ModelEntryProps { index, tied_units } }
    }

    /// The tied length of the entry at `index`: its own length, and when the
    /// next entry is a tie, the tied length of the first entry after the tie
    /// that has a length, chained over any number of ties. The scan is a loop
    /// that only moves forward, so it ends on any sequence of ties.
    pub fn calc_tied_units(entries: &Vec<ProtoEntry>, index: usize) -> (r: Units)
        ensures
            r.0 == tied_ticks(entries@, index as int),
    {
        let n = entries.len();
        if index >= n {
            return Units(0);
        }
        let mut total: u128 = 0;
        let mut cur: usize = index;
        loop
            invariant
                n == entries@.len(),
                index <= cur < n,
                total + tied_ticks(entries@, cur as int) == tied_ticks(entries@, index as int),
                total <= 288 * (cur - index),
            decreases n - cur,
        {
            proof {
                lemma_duration_ticks_bound(entry_duration(entries@[cur as int]));
            }
            let own = Units::from(entries[cur].duration());
            total = total + own.0;
            if cur + 1 < n && entries[cur + 1].is_core_tie() {
                let mut j: usize = cur + 2;
                while j < n && entries[j].duration() == Duration::Zero
                    invariant
                        n == entries@.len(),
                        cur + 2 <= j <= n,
                        sounding_tied_ticks(entries@, j as int) == sounding_tied_ticks(
                            entries@,
                            cur + 2,
                        ),
                    decreases n - j,
                {
                    j = j + 1;
                }
                if j < n {
                    cur = j;
                } else {
                    return Units(total);
                }
            } else {
                return Units(total);
            }
        }
    }

    /// The model entries of a track's entries, each with its index and tied
    /// length.
    pub fn new_entries(v: Vec<ProtoEntry>, track: usize) -> (r: Vec<ModelEntry>)
        ensures
            r@.len() == v@.len(),
            protos_of(r@) == v@,
            forall|i: int|
                0 <= i < r@.len() ==> {
                    &&& (#[trigger] r@[i]).track == track
                    &&& r@[i].props.index == i
                    &&& r@[i].props.tied_units.0 == tied_ticks(v@, i)
                },
    {
        let mut r: Vec<ModelEntry> = Vec::new();
        let mut i: usize = 0;
        while i < v.len()
            invariant
                i <= v@.len(),
                r@.len() == i,
                forall|k: int|
                    0 <= k < i ==> {
                        &&& (#[trigger] r@[k]).track == track
                        &&& r@[k].proto == v@[k]
                        &&& r@[k].props.index == k
                        &&& r@[k].props.tied_units.0 == tied_ticks(v@, k)
                    },
            decreases v@.len() - i,
        {
            let tied_units = ModelEntry::calc_tied_units(&v, i);
            let proto = v[i].clone();
            r.push(ModelEntry::new(track, proto, i, tied_units));
            i = i + 1;
        }
        assert(protos_of(r@) =~= v@);
        r
    }

    pub fn duration(&self) -> (r: Duration)
        ensures
            r == entry_duration(self.proto),
    {
        self.proto.duration()
    }

    pub fn tied_units(&self) -> (r: Units)
        ensures
            r == self.props.tied_units,
    {
        self.props.tied_units
    }

    /// The owning track, when `track` is it.
    pub open spec fn owned_by(&self, track: &Track) -> bool {
        &&& track.props.index == self.track
        &&& self.props.index < track.entries@.len()
    }

    /// The entry before this one in its track; none at the start, or when
    /// `track` is not this entry's track.
    pub fn prev<'a>(&self, track: &'a Track) -> (r: Option<&'a ModelEntry>)
        ensures
            r is Some <==> self.owned_by(track) && self.props.index > 0,
            r matches Some(e) ==> *e == track.entries@[self.props.index - 1],
    {
        if track.props.index != self.track || self.props.index >= track.entries.len()
            || self.props.index == 0 {
            None
        } else {
            Some(&track.entries[self.props.index - 1])
        }
    }

    /// The entry after this one in its track; none at the end, or when `track`
    /// is not this entry's track.
    pub fn next<'a>(&self, track: &'a Track) -> (r: Option<&'a ModelEntry>)
        ensures
            r is Some <==> self.owned_by(track) && self.props.index + 1
                < track.entries@.len(),
            r matches Some(e) ==> *e == track.entries@[self.props.index + 1],
    {
        if track.props.index != self.track || self.props.index >= track.entries.len()
            || self.props.index + 1 >= track.entries.len() {
            None
        } else {
            Some(&track.entries[self.props.index + 1])
        }
    }

    /// The mark of the entry before this one, if it is a mark.
    pub fn prev_as_mark(&self, track: &Track) -> (r: Option<String>)
        ensures
            r is Some <==> self.owned_by(track) && self.props.index > 0
                && track.entries@[self.props.index - 1].proto is Mark,
            r matches Some(m) ==> m@ == track.entries@[self.props.index - 1].proto->Mark_0@,
    {
        match self.prev(track) {
            Some(e) => e.proto.as_mark(),
            None => None,
        }
    }

    /// The entry that this one is tied to: when the next entry is a tie, the
    /// first entry after the tie with a duration other than `Zero`.
    pub fn get_tied_next<'a>(&self, track: &'a Track) -> (r: Option<&'a ModelEntry>)
        ensures
            r is Some <==> {
                &&& self.owned_by(track)
                &&& self.props.index + 1 < track.entries@.len()
                &&& track.entries@[self.props.index + 1].proto is Tie
                &&& next_sounding(protos_of(track.entries@), self.props.index + 2) is Some
            },
            r matches Some(e) ==> *e == track.entries@[next_sounding(
                protos_of(track.entries@),
                self.props.index + 2,
            )->0],
    {
        if track.props.index != self.track || self.props.index >= track.entries.len()
            || self.props.index + 1 >= track.entries.len() {
            return None;
        }
        if !track.entries[self.props.index + 1].proto.is_core_tie() {
            return None;
        }
        let ghost ps = protos_of(track.entries@);
        assert(ps[self.props.index + 1] == track.entries@[self.props.index + 1].proto);
        let n = track.entries.len();
        let mut j: usize = self.props.index + 2;
        while j < n
            invariant
                n == track.entries@.len(),
                ps == protos_of(track.entries@),
                track.props.index == self.track,
                track.entries@[self.props.index + 1].proto is Tie,
                self.props.index + 2 <= j <= n,
                next_sounding(ps, j as int) == next_sounding(ps, self.props.index + 2),
            decreases n - j,
        {
            assert(ps[j as int] == track.entries@[j as int].proto);
            if track.entries[j].duration() != Duration::Zero {
                return Some(&track.entries[j]);
            }
            j = j + 1;
        }
        None
    }

    /// The entry tied to this one from before: when the previous entry is a
    /// tie, the last entry before the tie with a duration other than `Zero`.
    pub fn get_tied_prev<'a>(&self, track: &'a Track) -> (r: Option<&'a ModelEntry>)
        ensures
            r is Some <==> {
                &&& self.owned_by(track)
                &&& self.props.index >= 2
                &&& track.entries@[self.props.index - 1].proto is Tie
                &&& prev_sounding(protos_of(track.entries@), self.props.index - 2) is Some
            },
            r matches Some(e) ==> *e == track.entries@[prev_sounding(
                protos_of(track.entries@),
                self.props.index - 2,
            )->0],
    {
        if track.props.index != self.track || self.props.index >= track.entries.len()
            || self.props.index < 2 {
            return None;
        }
        if !track.entries[self.props.index - 1].proto.is_core_tie() {
            return None;
        }
        let ghost ps = protos_of(track.entries@);
        assert(ps[self.props.index - 1] == track.entries@[self.props.index - 1].proto);
        let mut j: usize = self.props.index - 1;
        while j > 0
            invariant
                ps == protos_of(track.entries@),
                track.props.index == self.track,
                self.props.index < track.entries@.len(),
                self.props.index >= 2,
                track.entries@[self.props.index - 1].proto is Tie,
                j <= self.props.index - 1,
                prev_sounding(ps, j - 1) == prev_sounding(ps, self.props.index - 2),
            decreases j,
        {
            assert(ps[j - 1] == track.entries@[j - 1].proto);
            if track.entries[j - 1].duration() != Duration::Zero {
                return Some(&track.entries[j - 1]);
            }
            j = j - 1;
        }
        None
    }

    /// The first answer other than `None` that `predicate` gives over this
    /// entry's track, when `track` is it.
    pub fn get_track_entry<T, F: Fn(&ModelEntry) -> Option<T>>(&self, track: &Track, predicate: &F) -> (r: Option<T>)
        requires
            forall|i: int| 0 <= i < track.entries@.len() ==> predicate.requires((&track.entries@[i],)),
        ensures
            !self.owned_by(track) ==> r is None,
            self.owned_by(track) && r is None ==> none_before(track.entries@, *predicate, track.entries@.len() as int),
            r is Some ==> exists|i: int|
                0 <= i < track.entries@.len() && predicate.ensures((&track.entries@[i],), r)
                    && none_before(track.entries@, *predicate, i),
    {
        if track.props.index == self.track && self.props.index < track.entries.len() {
            track.get_entry(predicate)
        } else {
            None
        }
    }

    pub fn track_id(&self, track: &Track) -> (r: String)
        ensures
            self.owned_by(track) ==> r@ == track.id@,
            !self.owned_by(track) ==> r@.len() == 0,
    {
        if track.props.index == self.track && self.props.index < track.entries.len() {
            track.id.clone()
        } else {
            String::new()
        }
    }

    pub fn track_kind(&self, track: &Track) -> (r: TrackKind)
        ensures
            self.owned_by(track) ==> r == track.kind,
            !self.owned_by(track) ==> r == TrackKind::Unsupported,
    {
        if track.props.index == self.track && self.props.index < track.entries.len() {
            track.kind
        } else {
            TrackKind::Unsupported
        }
    }

    pub fn track_index(&self) -> (r: usize)
        ensures
            r == self.track,
    {
        self.track
    }
}

} // verus!
