//! One track's entries within one bar, with their positions in the bar.
use vstd::prelude::*;

use crate::duration::{lemma_duration_ticks_bound, Duration, Units};
use crate::model_entry::{none_before, protos_of, ModelEntry, Track};
use crate::proto::{entry_duration, entry_ticks, ProtoEntry, TrackKind};

verus! {

/// Start of the entry at `i`: the sum of the lengths of the entries before it.
pub open spec fn pos_of(es: Seq<ProtoEntry>, i: int) -> nat
    decreases i,
{
    if i <= 0 {
        0
    } else {
        pos_of(es, i - 1) + entry_ticks(es[i - 1])
    }
}

/// Starts never go back: a later entry starts no earlier.
pub proof fn lemma_pos_monotone(es: Seq<ProtoEntry>, i: int, j: int)
    requires
        0 <= i <= j,
    ensures
        pos_of(es, i) <= pos_of(es, j),
    decreases j - i,
{
    if i < j {
        lemma_pos_monotone(es, i, j - 1);
    }
}

/// The first index at or after `from` (up to the length) at which an entry
/// starts at or after `target`; the length when there is none.
pub open spec fn first_starting_at(es: Seq<ProtoEntry>, target: nat, from: int) -> int
    decreases es.len() - from,
{
    if from >= es.len() {
        es.len() as int
    } else if pos_of(es, from) >= target {
        from
    } else {
        first_starting_at(es, target, from + 1)
    }
}

/// A run of a track's entries, `begin` included, `end` excluded.
#[derive(Clone, Copy, PartialEq, Eq, Structural, Debug)]
pub struct Slice {
    pub begin: usize,
    pub end: usize,
}

/// The entries of bar `k` of a track whose bars last `bar` ticks: from the
/// first entry that starts at or after `k * bar`, up to the first one from
/// there that starts at or after `(k + 1) * bar`.
pub open spec fn bar_slice(es: Seq<ProtoEntry>, bar: nat, k: nat) -> Slice {
    let begin = first_starting_at(es, k * bar, 0);
    let end = first_starting_at(es, (k + 1) * bar, begin);
    Slice { begin: begin as usize, end: end as usize }
}

proof fn lemma_first_bounds(es: Seq<ProtoEntry>, target: nat, from: int)
    requires
        0 <= from <= es.len(),
    ensures
        from <= first_starting_at(es, target, from) <= es.len(),
    decreases es.len() - from,
{
    if from < es.len() && pos_of(es, from) < target {
        lemma_first_bounds(es, target, from + 1);
    }
}

/// Finds the first entry from `from` on that starts at or after `target`;
/// `pos` is where the entry at `from` starts.
fn first_starting_at_exec(entries: &Vec<ModelEntry>, target: u128, from: usize, pos: u128) -> (r: usize)
    requires
        from <= entries@.len(),
        pos == pos_of(protos_of(entries@), from as int),
        pos <= 288 * from,
    ensures
        r == first_starting_at(protos_of(entries@), target as nat, from as int),
{
    let ghost es = protos_of(entries@);
    let n = entries.len();
    let mut i = from;
    let mut p = pos;
    while i < n && p < target
        invariant
            es == protos_of(entries@),
            n == entries@.len(),
            from <= i <= n,
            p == pos_of(es, i as int),
            p <= 288 * i,
            first_starting_at(es, target as nat, i as int) == first_starting_at(
                es,
                target as nat,
                from as int,
            ),
        decreases n - i,
    {
        proof {
            assert(es[i as int] == entries@[i as int].proto);
            lemma_duration_ticks_bound(entry_duration(es[i as int]));
        }
        let d = Units::from(entries[i].duration());
        p = p + d.0;
        i = i + 1;
    }
    i
}

/// The slice of bar `k` of a track whose bars last `bar_units`.
pub fn calc_bar_slice(track: &Track, bar_units: Units, k: usize) -> (r: Slice)
    requires
        bar_units.0 <= 255 * 192,
    ensures
        r == bar_slice(protos_of(track.entries@), bar_units.0 as nat, k as nat),
        r.begin <= r.end <= track.entries@.len(),
{
    let ghost es = protos_of(track.entries@);
    assert(k * bar_units.0 <= 0x1_0000_0000_0000_0000 * (255 * 192)) by (nonlinear_arith)
        requires
            k < 0x1_0000_0000_0000_0000,
            bar_units.0 <= 255 * 192,
    ;
    assert((k + 1) * bar_units.0 <= 0x1_0000_0000_0000_0001 * (255 * 192)) by (nonlinear_arith)
        requires
            k < 0x1_0000_0000_0000_0000,
            bar_units.0 <= 255 * 192,
    ;
    let low = (k as u128) * bar_units.0;
    let high = (k as u128 + 1) * bar_units.0;
    let begin = first_starting_at_exec(&track.entries, low, 0, 0);
    proof {
        lemma_first_bounds(es, low as nat, 0);
    }
    let pos = start_of(&track.entries, begin);
    let end = first_starting_at_exec(&track.entries, high, begin, pos);
    proof {
        lemma_first_bounds(es, high as nat, begin as int);
    }
    Slice { begin, end }
}

/// Where the entry at `i` starts.
fn start_of(entries: &Vec<ModelEntry>, i: usize) -> (r: u128)
    requires
        i <= entries@.len(),
    ensures
        r == pos_of(protos_of(entries@), i as int),
        r <= 288 * i,
{
    let ghost es = protos_of(entries@);
    let mut j: usize = 0;
    let mut p: u128 = 0;
    while j < i
        invariant
            es == protos_of(entries@),
            i <= entries@.len(),
            j <= i,
            p == pos_of(es, j as int),
            p <= 288 * j,
        decreases i - j,
    {
        proof {
            assert(es[j as int] == entries@[j as int].proto);
            lemma_duration_ticks_bound(entry_duration(es[j as int]));
        }
        let d = Units::from(entries[j].duration());
        p = p + d.0;
        j = j + 1;
    }
    p
}

/// A point in a document's time: a bar, by its ordinal and length, and a
/// position inside it.
#[derive(Clone, Copy, PartialEq, Eq, Structural, Debug)]
pub struct BarPosition {
    pub bar_units: Units,
    pub bar_ordinal: usize,
    pub in_bar_pos: Units,
}

impl BarPosition {
    pub fn new(bar_units: Units, bar_ordinal: usize, in_bar_pos: Units) -> (r: Self)
        ensures
            r.bar_units == bar_units,
            r.bar_ordinal == bar_ordinal,
            r.in_bar_pos == in_bar_pos,
    {
        BarPosition { bar_units, bar_ordinal, in_bar_pos }
    }
}

#[derive(Clone, Copy, Debug)]
pub struct LaneEntryProps {
    pub slice: Slice,
    pub slice_index: usize,
    pub index: usize,
    pub in_bar_pos: Units,
    pub tied_units: Units,
    pub duration: Duration,
}

/// An entry of a bar lane: which model entry of which track it is, and where
/// in the bar it starts.
#[derive(Clone, Copy, Debug)]
pub struct LaneEntry {
    /// Position of the owning bar in its document's bar list.
    pub bar: usize,
    /// Index of the owning lane in its bar.
    pub lane: usize,
    /// Index of the track in its document.
    pub track: usize,
    /// Index of the model entry in its track.
    pub model: usize,
    pub props: LaneEntryProps,
}

#[derive(Clone, Copy, Debug)]
pub struct BarLaneProps {
    /// Position of the owning bar in its document's bar list.
    pub bar: usize,
    /// Index of this lane in its bar.
    pub index: usize,
    /// Index of the track in its document.
    pub track: usize,
}

/// One track's entries within one bar.
#[derive(Debug)]
pub struct BarLane {
    pub slice: Slice,
    pub entries: Vec<LaneEntry>,
    pub props: BarLaneProps,
}

/// The lane entries built over `slice` of a track: entry `j` is the model
/// entry `slice.begin + j`, starts at the sum of the lengths of the lane's
/// entries before it, and copies the model entry's tied length and duration.
pub open spec fn lane_entries_match(
    les: Seq<LaneEntry>,
    track: Track,
    slice: Slice,
    bar: usize,
    lane: usize,
) -> bool {
    let es = protos_of(track.entries@);
    let local = es.subrange(slice.begin as int, slice.end as int);
    &&& slice.begin <= slice.end <= es.len()
    &&& les.len() == slice.end - slice.begin
    &&& forall|j: int|
        0 <= j < les.len() ==> {
            let e = #[trigger] les[j];
            &&& e.bar == bar
            &&& e.lane == lane
            &&& e.track == track.props.index
            &&& e.model == slice.begin + j
            &&& e.props.slice == slice
            &&& e.props.slice_index == j
            &&& e.props.index == j
            &&& e.props.in_bar_pos.0 == pos_of(local, j)
            &&& e.props.tied_units == track.entries@[slice.begin + j].props.tied_units
            &&& e.props.duration == entry_duration(es[slice.begin + j])
        }
}

impl LaneEntry {
    /// The entry at `index` of lane `lane` of the bar at `bar`, over `slice`
    /// of a track, starting at `in_bar_pos`; it takes its tied length and
    /// duration from the track's entry.
    pub fn new(track: &Track, bar: usize, lane: usize, slice: Slice, index: usize, in_bar_pos: Units) -> (r: Self)
        requires
            slice.begin + index < track.entries@.len(),
        ensures
            r.bar == bar,
            r.lane == lane,
            r.track == track.props.index,
            r.model == slice.begin + index,
            r.props.slice == slice,
            r.props.slice_index == index,
            r.props.index == index,
            r.props.in_bar_pos == in_bar_pos,
            r.props.tied_units == track.entries@[slice.begin + index].props.tied_units,
            r.props.duration == entry_duration(track.entries@[slice.begin + index].proto),
    {
        // The entry count is a usize, and the index sum stays below it.
        let count = track.entries.len();
        assert(slice.begin + index < count);
        let m = &track.entries[slice.begin + index];
        LaneEntry {
            bar,
            lane,
            track: track.props.index,
            model: slice.begin + index,
            props: LaneEntryProps {
                slice,
                slice_index: index,
                index,
                in_bar_pos,
                tied_units: m.props.tied_units,
                duration: m.duration(),
            },
        }
    }

    /// The lane entries over `slice` of a track, for lane `lane` of the bar
    /// at `bar`: each starts where the ones before it in the lane end.
    pub fn new_entries(track: &Track, bar: usize, lane: usize, slice: Slice) -> (r: Vec<LaneEntry>)
        requires
            slice.begin <= slice.end <= track.entries@.len(),
        ensures
            lane_entries_match(r@, *track, slice, bar, lane),
    {
        let ghost es = protos_of(track.entries@);
        let ghost local = es.subrange(slice.begin as int, slice.end as int);
        let mut r: Vec<LaneEntry> = Vec::new();
        let mut pos: u128 = 0;
        let mut j: usize = 0;
        while slice.begin + j < slice.end
            invariant
                es == protos_of(track.entries@),
                local == es.subrange(slice.begin as int, slice.end as int),
                slice.begin <= slice.end <= track.entries@.len(),
                slice.begin + j <= slice.end,
                r@.len() == j,
                pos == pos_of(local, j as int),
                pos <= 288 * j,
                forall|i: int|
                    0 <= i < j ==> {
                        let e = #[trigger] r@[i];
                        &&& e.bar == bar
                        &&& e.lane == lane
                        &&& e.track == track.props.index
                        &&& e.model == slice.begin + i
                        &&& e.props.slice == slice
                        &&& e.props.slice_index == i
                        &&& e.props.index == i
                        &&& e.props.in_bar_pos.0 == pos_of(local, i)
                        &&& e.props.tied_units == track.entries@[slice.begin + i].props.tied_units
                        &&& e.props.duration == entry_duration(es[slice.begin + i])
                    },
            decreases slice.end - j,
        {
            let m = &track.entries[slice.begin + j];
            let duration = m.duration();
            proof {
                assert(es[slice.begin + j] == m.proto);
                assert(local[j as int] == es[slice.begin + j]);
                lemma_duration_ticks_bound(duration);
            }
            r.push(LaneEntry::new(track, bar, lane, slice, j, Units(pos)));
            pos = pos + Units::from(duration).0;
            j = j + 1;
        }
        r
    }

    pub fn in_bar_pos(&self) -> (r: Units)
        ensures
            r == self.props.in_bar_pos,
    {
        self.props.in_bar_pos
    }

    pub fn duration(&self) -> (r: Duration)
        ensures
            r == self.props.duration,
    {
        self.props.duration
    }

    pub fn tied_units(&self) -> (r: Units)
        ensures
            r == self.props.tied_units,
    {
        self.props.tied_units
    }

    /// Whether `lane` is the lane that holds this entry.
    pub open spec fn owned_by(&self, lane: &BarLane) -> bool {
        &&& lane.props.bar == self.bar
        &&& lane.props.index == self.lane
        &&& self.props.index < lane.entries@.len()
    }

    /// The lane entry before this one; none at the start of the lane, or when
    /// `lane` does not hold this entry.
    pub fn prev<'a>(&self, lane: &'a BarLane) -> (r: Option<&'a LaneEntry>)
        ensures
            r is Some <==> self.owned_by(lane) && self.props.index > 0,
            r matches Some(e) ==> *e == lane.entries@[self.props.index - 1],
    {
        if lane.props.bar != self.bar || lane.props.index != self.lane
            || self.props.index >= lane.entries.len() || self.props.index == 0 {
            None
        } else {
            Some(&lane.entries[self.props.index - 1])
        }
    }

    /// The lane entry after this one; none at the end of the lane, or when
    /// `lane` does not hold this entry.
    pub fn next<'a>(&self, lane: &'a BarLane) -> (r: Option<&'a LaneEntry>)
        ensures
            r is Some <==> self.owned_by(lane) && self.props.index + 1 < lane.entries@.len(),
            r matches Some(e) ==> *e == lane.entries@[self.props.index + 1],
    {
        if lane.props.bar != self.bar || lane.props.index != self.lane
            || self.props.index >= lane.entries.len() || self.props.index + 1 >= lane.entries.len() {
            None
        } else {
            Some(&lane.entries[self.props.index + 1])
        }
    }

    /// The model entry behind this one, when `track` is its track.
    pub fn model<'a>(&self, track: &'a Track) -> (r: Option<&'a ModelEntry>)
        ensures
            r is Some <==> track.props.index == self.track && self.model
                < track.entries@.len(),
            r matches Some(e) ==> *e == track.entries@[self.model as int],
    {
        if track.props.index != self.track || self.model >= track.entries.len() {
            None
        } else {
            Some(&track.entries[self.model])
        }
    }

    /// The mark of the lane entry before this one, if it is a mark.
    pub fn prev_as_mark(&self, lane: &BarLane, track: &Track) -> (r: Option<String>)
        ensures
            r matches Some(m) ==> self.owned_by(lane) && self.props.index > 0 && {
                let p = lane.entries@[self.props.index - 1];
                &&& track.props.index == p.track
                &&& p.model < track.entries@.len()
                &&& track.entries@[p.model as int].proto matches ProtoEntry::Mark(s)
                    && m@ == s@
            },
            (self.owned_by(lane) && self.props.index > 0 && {
                let p = lane.entries@[self.props.index - 1];
                &&& track.props.index == p.track
                &&& p.model < track.entries@.len()
                &&& track.entries@[p.model as int].proto is Mark
            }) ==> r is Some,
    {
        match self.prev(lane) {
            Some(p) => match p.model(track) {
                Some(m) => m.proto.as_mark(),
                None => None,
            },
            None => None,
        }
    }

    pub fn track_index(&self) -> (r: usize)
        ensures
            r == self.track,
    {
        self.track
    }

    /// The first answer other than `None` that `predicate` gives over the
    /// entries of this entry's lane, when `lane` is it.
    pub fn get_lane_entry<T, F: Fn(&LaneEntry) -> Option<T>>(&self, lane: &BarLane, predicate: &F) -> (r: Option<T>)
        requires
            forall|i: int| 0 <= i < lane.entries@.len() ==> predicate.requires((&lane.entries@[i],)),
        ensures
            !self.owned_by(lane) ==> r is None,
            self.owned_by(lane) && r is None ==> none_before_in_lane(lane.entries@, *predicate, lane.entries@.len() as int),
            r is Some ==> exists|i: int|
                0 <= i < lane.entries@.len() && predicate.ensures((&lane.entries@[i],), r)
                    && none_before_in_lane(lane.entries@, *predicate, i),
    {
        if lane.props.bar == self.bar && lane.props.index == self.lane && self.props.index < lane.entries.len() {
            lane.get_entry(predicate)
        } else {
            None
        }
    }

    /// The first answer other than `None` that `predicate` gives over the
    /// entries of this entry's track, when `track` is it.
    pub fn get_track_entry<T, F: Fn(&ModelEntry) -> Option<T>>(&self, track: &Track, predicate: &F) -> (r: Option<T>)
        requires
            forall|i: int| 0 <= i < track.entries@.len() ==> predicate.requires((&track.entries@[i],)),
        ensures
            track.props.index != self.track ==> r is None,
            track.props.index == self.track && r is None ==> none_before(track.entries@, *predicate, track.entries@.len() as int),
            r is Some ==> exists|i: int|
                0 <= i < track.entries@.len() && predicate.ensures((&track.entries@[i],), r)
                    && none_before(track.entries@, *predicate, i),
    {
        if track.props.index == self.track {
            track.get_entry(predicate)
        } else {
            None
        }
    }

    /// The compiler's entry behind this one, when `track` is its track.
    pub fn proto<'a>(&self, track: &'a Track) -> (r: Option<&'a ProtoEntry>)
        ensures
            r is Some <==> track.props.index == self.track && self.model < track.entries@.len(),
            r matches Some(p) ==> *p == track.entries@[self.model as int].proto,
    {
        match self.model(track) {
            Some(m) => Some(&m.proto),
            None => None,
        }
    }

    /// The id of this entry's track, when `track` is it; empty otherwise.
    pub fn track_id(&self, track: &Track) -> (r: String)
        ensures
            track.props.index == self.track ==> r@ == track.id@,
            track.props.index != self.track ==> r@.len() == 0,
    {
        if track.props.index == self.track {
            track.id.clone()
        } else {
            String::new()
        }
    }

    /// The kind of this entry's track, when `track` is it.
    pub fn track_kind(&self, track: &Track) -> (r: TrackKind)
        ensures
            track.props.index == self.track ==> r == track.kind,
            track.props.index != self.track ==> r == TrackKind::Unsupported,
    {
        if track.props.index == self.track {
            track.kind
        } else {
            TrackKind::Unsupported
        }
    }
}

/// `predicate` may answer `None` for each of the first `n` lane entries.
pub open spec fn none_before_in_lane<T, F: Fn(&LaneEntry) -> Option<T>>(es: Seq<LaneEntry>, predicate: F, n: int) -> bool {
    forall|j: int| 0 <= j < n ==> predicate.ensures((&es[j],), None::<T>)
}

impl BarLane {
    /// The first answer other than `None` that `predicate` gives over the
    /// lane's entries, in order.
    pub fn get_entry<T, F: Fn(&LaneEntry) -> Option<T>>(&self, predicate: &F) -> (r: Option<T>)
        requires
            forall|i: int| 0 <= i < self.entries@.len() ==> predicate.requires((&self.entries@[i],)),
        ensures
            r is None ==> none_before_in_lane(self.entries@, *predicate, self.entries@.len() as int),
            r is Some ==> exists|i: int|
                0 <= i < self.entries@.len() && predicate.ensures((&self.entries@[i],), r)
                    && none_before_in_lane(self.entries@, *predicate, i),
    {
        let mut i: usize = 0;
        while i < self.entries.len()
            invariant
                i <= self.entries@.len(),
                forall|k: int| 0 <= k < self.entries@.len() ==> predicate.requires((&self.entries@[k],)),
                none_before_in_lane(self.entries@, *predicate, i as int),
            decreases self.entries@.len() - i,
        {
            let found = predicate(&self.entries[i]);
            if found.is_some() {
                return found;
            }
            i = i + 1;
        }
        None
    }

    /// The lane of a track in the bar at `bar`: the entries of bar
    /// `track_bar` of the track.
    pub fn new(track: &Track, bar: usize, index: usize, track_bar: usize, bar_units: Units) -> (r: Self)
        requires
            bar_units.0 <= 255 * 192,
        ensures
            r.slice == bar_slice(protos_of(track.entries@), bar_units.0 as nat, track_bar as nat),
            r.props.bar == bar,
            r.props.index == index,
            r.props.track == track.props.index,
            lane_entries_match(r.entries@, *track, r.slice, bar, index),
    {
        let slice = calc_bar_slice(track, bar_units, track_bar);
        let entries = LaneEntry::new_entries(track, bar, index, slice);
        BarLane { slice, entries, props: BarLaneProps { bar, index, track: track.props.index } }
    }
}

/// Within a lane, starts never go back, and the first entry starts the bar.
pub proof fn lemma_lane_positions(lane: BarLane, track: Track)
    requires
        lane_entries_match(lane.entries@, track, lane.slice, lane.props.bar, lane.props.index),
    ensures
        lane.entries@.len() > 0 ==> lane.entries@[0].props.in_bar_pos.0 == 0,
        forall|i: int, j: int|
            0 <= i <= j < lane.entries@.len() ==> (#[trigger] lane.entries@[i]).props.in_bar_pos.0
                <= (#[trigger] lane.entries@[j]).props.in_bar_pos.0,
{
    let local = protos_of(track.entries@).subrange(lane.slice.begin as int, lane.slice.end as int);
    assert forall|i: int, j: int|
        0 <= i <= j < lane.entries@.len() implies (#[trigger] lane.entries@[i]).props.in_bar_pos.0
        <= (#[trigger] lane.entries@[j]).props.in_bar_pos.0 by {
        lemma_pos_monotone(local, i, j);
    }
}

} // verus!
