//! Assembly of a realized document: tracks, sections, the play order, and
//! the bars it expands into, each with one lane per track that sounds in it.
use vstd::prelude::*;

use crate::duration::{signature_ticks, Units};
use crate::lane_entry::{bar_slice, lane_entries_match, BarLane, BarPosition, LaneEntry};
use crate::model_entry::{protos_of, ModelEntry, Track};
use crate::proto;
use crate::proto::{ready_id, SectionKind, TabMeta};

verus! {

/// What can go wrong while assembling a document. A missing track or section
/// drops only the item that names it; a bad signature stops the whole
/// assembly.
#[derive(Debug)]
pub enum ParseError {
    TrackNotFound(String),
    SectionNotFound(String),
    InvalidSignature,
}

/// The ids of some tracks.
pub open spec fn track_ids(tracks: Seq<Track>) -> Seq<Seq<char>> {
    tracks.map_values(|t: Track| t.id@)
}

/// `i` is the first position of `id` in `ids`.
pub open spec fn is_first_of(ids: Seq<Seq<char>>, id: Seq<char>, i: int) -> bool {
    &&& 0 <= i < ids.len()
    &&& ids[i] == id
    &&& forall|j: int| 0 <= j < i ==> ids[j] != id
}

/// Every track that the section's bars name is among `ids`.
pub open spec fn section_resolves(s: proto::Section, ids: Seq<Seq<char>>) -> bool {
    forall|b: int, l: int|
        0 <= b < s.bars@.len() && 0 <= l < s.bars@[b].layers@.len() ==> ids.contains(
            (#[trigger] s.bars@[b].layers@[l]).track@,
        )
}

/// Positions of the sections that resolve, in document order.
pub open spec fn kept_sections(secs: Seq<proto::Section>, ids: Seq<Seq<char>>) -> Seq<int>
    decreases secs.len(),
{
    if secs.len() == 0 {
        seq![]
    } else {
        let rest = kept_sections(secs.drop_last(), ids);
        if section_resolves(secs.last(), ids) {
            rest.push(secs.len() - 1)
        } else {
            rest
        }
    }
}

/// The kept positions are positions of the sections, increasing.
pub proof fn lemma_kept_bounds(secs: Seq<proto::Section>, ids: Seq<Seq<char>>)
    ensures
        kept_sections(secs, ids).len() <= secs.len(),
        forall|j: int|
            0 <= j < kept_sections(secs, ids).len() ==> 0 <= #[trigger] kept_sections(secs, ids)[j]
                < secs.len(),
        forall|j: int, k: int|
            0 <= j < k < kept_sections(secs, ids).len() ==> #[trigger] kept_sections(secs, ids)[j]
                < #[trigger] kept_sections(secs, ids)[k],
    decreases secs.len(),
{
    if secs.len() > 0 {
        lemma_kept_bounds(secs.drop_last(), ids);
        let rest = kept_sections(secs.drop_last(), ids);
        let all = kept_sections(secs, ids);
        assert forall|j: int| 0 <= j < rest.len() implies all[j] == rest[j] && rest[j] < secs.len()
            - 1 by {}
    }
}

/// A layer of a section's bar, with its track resolved to an index.
#[derive(Clone, Copy, Debug)]
pub struct SectionLayer {
    pub track: usize,
    pub track_bar: usize,
}

#[derive(Debug)]
pub struct SectionBar {
    pub layers: Vec<SectionLayer>,
}

#[derive(Clone, Copy, Debug)]
pub struct SectionProps {
    pub index: usize,
}

/// A section of a realized document.
#[derive(Debug)]
pub struct Section {
    pub id: String,
    pub kind: SectionKind,
    pub bars: Vec<SectionBar>,
    pub props: SectionProps,
}

/// `s` is the section `p` of the compiler, with each layer's track resolved
/// to the first track of that id.
pub open spec fn section_matches(s: Section, p: proto::Section, ids: Seq<Seq<char>>) -> bool {
    &&& s.id@ == p.id@
    &&& s.kind == p.kind
    &&& s.bars@.len() == p.bars@.len()
    &&& forall|b: int|
        0 <= b < s.bars@.len() ==> {
            &&& (#[trigger] s.bars@[b]).layers@.len() == p.bars@[b].layers@.len()
            &&& forall|l: int|
                0 <= l < s.bars@[b].layers@.len() ==> {
                    &&& is_first_of(ids, p.bars@[b].layers@[l].track@, (#[trigger] s.bars@[b].layers@[l]).track as int)
                    &&& s.bars@[b].layers@[l].track_bar == p.bars@[b].layers@[l].track_bar
                }
        }
}

/// The first track of the given id.
fn find_track(tracks: &Vec<Track>, id: &String) -> (r: Option<usize>)
    ensures
        r matches Some(i) ==> is_first_of(track_ids(tracks@), id@, i as int),
        r is None <==> !track_ids(tracks@).contains(id@),
{
    let ghost ids = track_ids(tracks@);
    let mut i: usize = 0;
    while i < tracks.len()
        invariant
            ids == track_ids(tracks@),
            i <= tracks@.len(),
            forall|j: int| 0 <= j < i ==> ids[j] != id@,
        decreases tracks@.len() - i,
    {
        assert(ids[i as int] == tracks@[i as int].id@);
        if tracks[i].id == *id {
            return Some(i);
        }
        i = i + 1;
    }
    proof {
        if ids.contains(id@) {
            let k = choose|k: int| 0 <= k < ids.len() && ids[k] == id@;
            assert(ids[k] != id@);
        }
    }
    None
}

impl Section {
    /// The bars of one occurrence of this section in the play order: the
    /// occurrence is the `section_round`-th of this section and stands at
    /// play position `section_ordinal`.
    pub fn new_tab_bars(&self, section: usize, section_round: usize, section_ordinal: usize) -> (r: Vec<BarSlot>)
        ensures
            r@ == Seq::new(
                self.bars@.len(),
                |b: int| BarSlot { section, section_round, section_ordinal, bar_index: b as usize },
            ),
    {
        let mut r: Vec<BarSlot> = Vec::new();
        let mut b: usize = 0;
        while b < self.bars.len()
            invariant
                b <= self.bars@.len(),
                r@.len() == b,
                forall|k: int|
                    0 <= k < b ==> r@[k] == (BarSlot {
                        section,
                        section_round,
                        section_ordinal,
                        bar_index: k as usize,
                    }),
            decreases self.bars@.len() - b,
        {
            r.push(BarSlot { section, section_round, section_ordinal, bar_index: b });
            b = b + 1;
        }
        assert(r@ =~= Seq::new(
            self.bars@.len(),
            |b: int| BarSlot { section, section_round, section_ordinal, bar_index: b as usize },
        ));
        r
    }

    /// The section at `index` of a document, from the compiler's section;
    /// fails with the first track id that no track has.
    pub fn try_new(index: usize, proto: proto::Section, tracks: &Vec<Track>) -> (r: Result<Section, ParseError>)
        ensures
            r is Ok <==> section_resolves(proto, track_ids(tracks@)),
            r matches Ok(s) ==> s.props.index == index && section_matches(s, proto, track_ids(tracks@)),
            r matches Err(e) ==> e is TrackNotFound,
    {
        let ghost ids = track_ids(tracks@);
        let mut bars: Vec<SectionBar> = Vec::new();
        let mut b: usize = 0;
        while b < proto.bars.len()
            invariant
                ids == track_ids(tracks@),
                b <= proto.bars@.len(),
                bars@.len() == b,
                forall|i: int, l: int|
                    0 <= i < b && 0 <= l < proto.bars@[i].layers@.len() ==> ids.contains(
                        (#[trigger] proto.bars@[i].layers@[l]).track@,
                    ),
                forall|i: int|
                    0 <= i < b ==> {
                        &&& (#[trigger] bars@[i]).layers@.len() == proto.bars@[i].layers@.len()
                        &&& forall|l: int|
                            0 <= l < bars@[i].layers@.len() ==> {
                                &&& is_first_of(ids, proto.bars@[i].layers@[l].track@, (#[trigger] bars@[i].layers@[l]).track as int)
                                &&& bars@[i].layers@[l].track_bar == proto.bars@[i].layers@[l].track_bar
                            }
                    },
            decreases proto.bars@.len() - b,
        {
            let bar = &proto.bars[b];
            let mut layers: Vec<SectionLayer> = Vec::new();
            let mut l: usize = 0;
            while l < bar.layers.len()
                invariant
                    ids == track_ids(tracks@),
                    b < proto.bars@.len(),
                    *bar == proto.bars@[b as int],
                    l <= bar.layers@.len(),
                    layers@.len() == l,
                    forall|k: int| 0 <= k < l ==> ids.contains((#[trigger] bar.layers@[k]).track@),
                    forall|k: int|
                        0 <= k < l ==> {
                            &&& is_first_of(ids, bar.layers@[k].track@, (#[trigger] layers@[k]).track as int)
                            &&& layers@[k].track_bar == bar.layers@[k].track_bar
                        },
                decreases bar.layers@.len() - l,
            {
                let layer = &bar.layers[l];
                match find_track(tracks, &layer.track) {
                    Some(t) => {
                        layers.push(SectionLayer { track: t, track_bar: layer.track_bar });
                    },
                    None => {
                        let ghost bb = b as int;
                        let ghost ll = l as int;
                        assert(!ids.contains(proto.bars@[bb].layers@[ll].track@));
                        return Err(ParseError::TrackNotFound(layer.track.clone()));
                    },
                }
                l = l + 1;
            }
            bars.push(SectionBar { layers });
            b = b + 1;
        }
        let proto::Section { id, kind, bars: _ } = proto;
        Ok(Section { id, kind, bars, props: SectionProps { index } })
    }
}

/// The first position of `id` in `ids`, when there is one.
pub open spec fn first_of(ids: Seq<Seq<char>>, id: Seq<char>) -> int {
    choose|i: int| is_first_of(ids, id, i)
}

proof fn lemma_first_unique(ids: Seq<Seq<char>>, id: Seq<char>, i: int)
    requires
        is_first_of(ids, id, i),
    ensures
        first_of(ids, id) == i,
{
    let j = first_of(ids, id);
    assert(is_first_of(ids, id, j));
    if j < i {
        assert(ids[j] != id);
    } else if i < j {
        assert(ids[i] != id);
    }
}

/// The ids of some sections.
pub open spec fn section_ids(secs: Seq<Section>) -> Seq<Seq<char>> {
    secs.map_values(|s: Section| s.id@)
}

/// The play order over sections: with an empty order every section once, in
/// document order; else the lead-in first when there is one, then for each id
/// of the order the first section of that id, skipping ids that no section has.
pub open spec fn form_plan(order: Seq<Seq<char>>, ids: Seq<Seq<char>>, ready: bool) -> Seq<int> {
    if order.len() == 0 {
        Seq::new(ids.len(), |i: int| i)
    } else {
        (if ready { seq![0int] } else { seq![] }) + form_plan_ids(order, ids)
    }
}

/// For each id of `order` that `ids` has, its first position.
pub open spec fn form_plan_ids(order: Seq<Seq<char>>, ids: Seq<Seq<char>>) -> Seq<int>
    decreases order.len(),
{
    if order.len() == 0 {
        seq![]
    } else {
        let rest = form_plan_ids(order.drop_last(), ids);
        if ids.contains(order.last()) {
            rest.push(first_of(ids, order.last()))
        } else {
            rest
        }
    }
}

/// How many ids of a play order no section has.
pub open spec fn unresolved_ids(order: Seq<Seq<char>>, ids: Seq<Seq<char>>) -> nat
    decreases order.len(),
{
    if order.len() == 0 {
        0
    } else {
        unresolved_ids(order.drop_last(), ids) + if ids.contains(order.last()) {
            0nat
        } else {
            1nat
        }
    }
}

/// The realized play order: positions in the document's section list.
#[derive(Debug)]
pub struct Form {
    pub sections: Vec<usize>,
}

impl Form {
    /// Resolves the play order against the sections; every id that no
    /// section has is reported in `diagnostics` and skipped.
    pub fn new(add_ready_section: bool, proto: proto::Form, sections: &Vec<Section>, diagnostics: &mut Vec<ParseError>) -> (r: Form)
        requires
            add_ready_section ==> sections@.len() > 0,
        ensures
            r.sections@.len() == form_plan(
                proto.sections@.map_values(|s: String| s@),
                section_ids(sections@),
                add_ready_section,
            ).len(),
            forall|k: int|
                0 <= k < r.sections@.len() ==> r.sections@[k] == form_plan(
                    proto.sections@.map_values(|s: String| s@),
                    section_ids(sections@),
                    add_ready_section,
                )[k],
            forall|k: int| 0 <= k < r.sections@.len() ==> r.sections@[k] < sections@.len(),
            final(diagnostics)@.len() == old(diagnostics)@.len() + unresolved_ids(
                proto.sections@.map_values(|s: String| s@),
                section_ids(sections@),
            ),
            forall|k: int| 0 <= k < old(diagnostics)@.len() ==> final(diagnostics)@[k] == old(diagnostics)@[k],
            forall|k: int| old(diagnostics)@.len() <= k < final(diagnostics)@.len() ==> (#[trigger] final(diagnostics)@[k]) is SectionNotFound,
    {
        let ghost order = proto.sections@.map_values(|s: String| s@);
        let ghost ids = section_ids(sections@);
        let mut r: Vec<usize> = Vec::new();
        if proto.sections.len() == 0 {
            let mut i: usize = 0;
            while i < sections.len()
                invariant
                    i <= sections@.len(),
                    r@.len() == i,
                    forall|k: int| 0 <= k < i ==> r@[k] == k,
                decreases sections@.len() - i,
            {
                r.push(i);
                i = i + 1;
            }
            return Form { sections: r };
        }
        if add_ready_section {
            r.push(0);
        }
        let ghost head: Seq<int> = if add_ready_section { seq![0int] } else { seq![] };
        let mut i: usize = 0;
        while i < proto.sections.len()
            invariant
                order == proto.sections@.map_values(|s: String| s@),
                ids == section_ids(sections@),
                head == (if add_ready_section { seq![0int] } else { seq![] }),
                add_ready_section ==> sections@.len() > 0,
                i <= proto.sections@.len(),
                r@.len() == head.len() + form_plan_ids(order.take(i as int), ids).len(),
                forall|k: int|
                    0 <= k < r@.len() ==> r@[k] == (head + form_plan_ids(order.take(i as int), ids))[k],
                forall|k: int| 0 <= k < r@.len() ==> r@[k] < sections@.len(),
                diagnostics@.len() == old(diagnostics)@.len() + unresolved_ids(order.take(i as int), ids),
                forall|k: int| 0 <= k < old(diagnostics)@.len() ==> diagnostics@[k] == old(diagnostics)@[k],
                forall|k: int| old(diagnostics)@.len() <= k < diagnostics@.len() ==> (#[trigger] diagnostics@[k]) is SectionNotFound,
            decreases proto.sections@.len() - i,
        {
            let id = &proto.sections[i];
            proof {
                assert(order.take(i + 1).drop_last() =~= order.take(i as int));
                assert(order.take(i + 1).last() == id@);
            }
            match find_section(sections, id) {
                Some(s) => {
                    proof {
                        lemma_first_unique(ids, id@, s as int);
                    }
                    r.push(s);
                },
                None => {
                    diagnostics.push(ParseError::SectionNotFound(id.clone()));
                },
            }
            i = i + 1;
        }
        proof {
            assert(order.take(i as int) =~= order);
        }
        Form { sections: r }
    }
}

/// The first section of the given id.
fn find_section(sections: &Vec<Section>, id: &String) -> (r: Option<usize>)
    ensures
        r matches Some(i) ==> is_first_of(section_ids(sections@), id@, i as int),
        r is None <==> !section_ids(sections@).contains(id@),
{
    let ghost ids = section_ids(sections@);
    let mut i: usize = 0;
    while i < sections.len()
        invariant
            ids == section_ids(sections@),
            i <= sections@.len(),
            forall|j: int| 0 <= j < i ==> ids[j] != id@,
        decreases sections@.len() - i,
    {
        assert(ids[i as int] == sections@[i as int].id@);
        if sections[i].id == *id {
            return Some(i);
        }
        i = i + 1;
    }
    proof {
        if ids.contains(id@) {
            let k = choose|k: int| 0 <= k < ids.len() && ids[k] == id@;
            assert(ids[k] != id@);
        }
    }
    None
}

/// Number of positions before `n` in `ids` that hold `id`.
pub open spec fn count_before(ids: Seq<Seq<char>>, id: Seq<char>, n: int) -> nat
    decreases n,
{
    if n <= 0 {
        0
    } else {
        count_before(ids, id, n - 1) + if ids[n - 1] == id {
            1nat
        } else {
            0nat
        }
    }
}

/// The section ids of a play order.
pub open spec fn form_ids(sections: Seq<Section>, form: Seq<usize>) -> Seq<Seq<char>> {
    form.map_values(|f: usize| sections[f as int].id@)
}

/// How many times the section at play position `f` has come so far, itself
/// included: 1 on its first occurrence.
pub open spec fn section_round(sections: Seq<Section>, form: Seq<usize>, f: int) -> nat {
    let ids = form_ids(sections, form);
    1 + count_before(ids, ids[f], f)
}

/// For each bar of the expansion, its play position and its index in the
/// section, for sections of the given bar counts played in order.
pub open spec fn bar_slots(lens: Seq<nat>) -> Seq<(int, int)>
    decreases lens.len(),
{
    if lens.len() == 0 {
        seq![]
    } else {
        bar_slots(lens.drop_last()) + Seq::new(lens.last(), |b: int| ((lens.len() - 1) as int, b))
    }
}

/// The number of bars of each section of a play order.
pub open spec fn form_lens(sections: Seq<Section>, form: Seq<usize>) -> Seq<nat> {
    form.map_values(|f: usize| sections[f as int].bars@.len())
}

/// A bar of the expanded play order, before numbering.
#[derive(Clone, Copy, PartialEq, Eq, Structural, Debug)]
pub struct BarSlot {
    pub section: usize,
    pub section_round: usize,
    pub section_ordinal: usize,
    pub bar_index: usize,
}

/// The bars of a play order: every bar of every section occurrence, in
/// order, with the occurrence's section, round and play position.
pub open spec fn expanded(sections: Seq<Section>, form: Seq<usize>) -> Seq<BarSlot> {
    let slots = bar_slots(form_lens(sections, form));
    Seq::new(
        slots.len(),
        |k: int|
            BarSlot {
                section: form[slots[k].0],
                section_round: section_round(sections, form, slots[k].0) as usize,
                section_ordinal: slots[k].0 as usize,
                bar_index: slots[k].1 as usize,
            },
    )
}

/// Counts the earlier occurrences of the section id at play position `f`.
fn calc_section_round(sections: &Vec<Section>, form: &Vec<usize>, f: usize) -> (r: usize)
    requires
        f < form@.len(),
        forall|k: int| 0 <= k < form@.len() ==> form@[k] < sections@.len(),
    ensures
        r == section_round(sections@, form@, f as int),
{
    let ghost ids = form_ids(sections@, form@);
    let n = form.len();
    let id = &sections[form[f]].id;
    assert(ids[f as int] == id@);
    let mut c: usize = 0;
    let mut j: usize = 0;
    while j < f
        invariant
            ids == form_ids(sections@, form@),
            f < form@.len(),
            forall|k: int| 0 <= k < form@.len() ==> form@[k] < sections@.len(),
            ids[f as int] == id@,
            n == form@.len(),
            j <= f,
            c == count_before(ids, id@, j as int),
            c <= j,
        decreases f - j,
    {
        assert(ids[j as int] == sections@[form@[j as int] as int].id@);
        if sections[form[j]].id == *id {
            c = c + 1;
        }
        j = j + 1;
    }
    c + 1
}

/// Expands the play order into its bars.
fn expand_form(sections: &Vec<Section>, form: &Vec<usize>) -> (r: Vec<BarSlot>)
    requires
        forall|k: int| 0 <= k < form@.len() ==> form@[k] < sections@.len(),
    ensures
        r@ == expanded(sections@, form@),
{
    let ghost lens = form_lens(sections@, form@);
    let mut r: Vec<BarSlot> = Vec::new();
    let mut f: usize = 0;
    while f < form.len()
        invariant
            lens == form_lens(sections@, form@),
            forall|k: int| 0 <= k < form@.len() ==> form@[k] < sections@.len(),
            f <= form@.len(),
            r@.len() == bar_slots(lens.take(f as int)).len(),
            forall|k: int|
                0 <= k < r@.len() ==> {
                    let slot = #[trigger] bar_slots(lens.take(f as int))[k];
                    r@[k] == BarSlot {
                        section: form@[slot.0],
                        section_round: section_round(sections@, form@, slot.0) as usize,
                        section_ordinal: slot.0 as usize,
                        bar_index: slot.1 as usize,
                    }
                },
        decreases form@.len() - f,
    {
        let ghost before = bar_slots(lens.take(f as int));
        let round = calc_section_round(sections, form, f);
        let section = &sections[form[f]];
        proof {
            assert(lens.take(f + 1).drop_last() =~= lens.take(f as int));
            assert(lens.take(f + 1).last() == section.bars@.len());
        }
        let ghost after = bar_slots(lens.take(f + 1));
        let ghost r0 = r@;
        let mut occurrence = section.new_tab_bars(form[f], round, f);
        r.append(&mut occurrence);
        proof {
            assert(after == before + Seq::new(section.bars@.len(), |j: int| (f as int, j)));
            assert forall|k: int| 0 <= k < r@.len() implies {
                let slot = #[trigger] after[k];
                r@[k] == BarSlot {
                    section: form@[slot.0],
                    section_round: section_round(sections@, form@, slot.0) as usize,
                    section_ordinal: slot.0 as usize,
                    bar_index: slot.1 as usize,
                }
            } by {
                if k < before.len() {
                    assert(after[k] == before[k]);
                    assert(r@[k] == r0[k]);
                } else {
                    assert(after[k] == (f as int, k - before.len()));
                }
            }
        }
        f = f + 1;
    }
    proof {
        assert(lens.take(f as int) =~= lens);
    }
    assert(r@ =~= expanded(sections@, form@));
    r
}

#[derive(Clone, Copy, PartialEq, Eq, Structural, Debug)]
pub struct TabBarProps {
    /// How many times the bar's section has come so far, from 1.
    pub section_round: usize,
    /// Play position of the bar's section occurrence.
    pub section_ordinal: usize,
    /// Index of the bar in its section.
    pub bar_index: usize,
    /// Position of the bar in the document's bar list.
    pub bar_ordinal: usize,
    /// The number shown to people.
    pub bar_number: usize,
    pub bar_units: Units,
}

/// Whether `range` is a usable window over `n` bars.
pub open spec fn window_valid(range: Option<(usize, usize)>, n: nat) -> bool {
    range matches Some((b, e)) && b < n && e < n && e >= b
}

/// The props of an expanded bar at the given ordinal and number.
pub open spec fn props_of(slot: BarSlot, ordinal: int, number: int, bar_units: Units) -> TabBarProps {
    TabBarProps {
        section_round: slot.section_round,
        section_ordinal: slot.section_ordinal,
        bar_index: slot.bar_index,
        bar_ordinal: ordinal as usize,
        bar_number: number as usize,
        bar_units,
    }
}

/// The bars that a document ends up with, as (section, props). Without a
/// usable window, all of them, numbered from 1, or from 0 when a lead-in bar
/// comes first. With a window `(b, e)`, the bars `b..=e` renumbered from
/// ordinal 0; when the lead-in exists and `b > 0`, it is put back in front.
pub open spec fn realized(slots: Seq<BarSlot>, ready: bool, range: Option<(usize, usize)>, bar_units: Units) -> Seq<(usize, TabBarProps)> {
    if window_valid(range, slots.len()) {
        let w = range->0;
        let b = w.0 as int;
        let e = w.1 as int;
        let lead = ready && b > 0;
        let off: int = if lead { 1 } else { 0 };
        let body = Seq::new(
            (e - b + 1) as nat,
            |i: int|
                (
                    slots[b + i].section,
                    props_of(slots[b + i], i + off, if lead { b + i } else { b + i + 1 }, bar_units),
                ),
        );
        if lead {
            seq![(slots[0].section, props_of(slots[0], 0, 0, bar_units))] + body
        } else {
            body
        }
    } else {
        Seq::new(
            slots.len(),
            |k: int| (slots[k].section, props_of(slots[k], k, if ready { k } else { k + 1 }, bar_units)),
        )
    }
}

/// Bar ordinals run 0, 1, 2, ... over the bars of a document, with no gap,
/// with or without a window and a lead-in.
pub proof fn lemma_bar_ordinals(slots: Seq<BarSlot>, ready: bool, range: Option<(usize, usize)>, bar_units: Units)
    requires
        slots.len() <= usize::MAX,
    ensures
        forall|i: int|
            0 <= i < realized(slots, ready, range, bar_units).len() ==> (#[trigger] realized(
                slots,
                ready,
                range,
                bar_units,
            )[i]).1.bar_ordinal == i,
{
    let r = realized(slots, ready, range, bar_units);
    if window_valid(range, slots.len()) {
        let w = range->0;
        let b = w.0 as int;
        let lead = ready && b > 0;
        if lead {
            assert forall|i: int| 0 <= i < r.len() implies (#[trigger] r[i]).1.bar_ordinal == i by {
                if i > 0 {
                    assert(r[i] == (
                        slots[b + i - 1].section,
                        props_of(slots[b + i - 1], i, b + i - 1, bar_units),
                    ));
                }
            }
        }
    }
}

/// A window `(b, e)` with `b <= e < n` keeps exactly `e - b + 1` bars, and one
/// more when the lead-in bar is put back in front.
pub proof fn lemma_window_count(slots: Seq<BarSlot>, ready: bool, b: usize, e: usize, bar_units: Units)
    requires
        b <= e < slots.len(),
    ensures
        realized(slots, ready, Some((b, e)), bar_units).len() == e - b + 1 + if ready && b > 0 {
            1int
        } else {
            0int
        },
{
}

/// Numbers the expanded bars, and cuts the window out of them.
fn realize_bars(slots: &Vec<BarSlot>, add_ready_section: bool, bars_range: Option<(usize, usize)>, bar_units: Units) -> (r: Vec<(usize, TabBarProps)>)
    ensures
        r@ == realized(slots@, add_ready_section, bars_range, bar_units),
{
    let n = slots.len();
    let mut r: Vec<(usize, TabBarProps)> = Vec::new();
    let ghost want = realized(slots@, add_ready_section, bars_range, bar_units);
    match bars_range {
        Some((begin, end)) => {
            if begin < n && end < n && end >= begin {
                let lead = add_ready_section && begin > 0;
                let off: usize = if lead { 1 } else { 0 };
                if lead {
                    let s = slots[0];
                    r.push((s.section, TabBarProps {
                        section_round: s.section_round,
                        section_ordinal: s.section_ordinal,
                        bar_index: s.bar_index,
                        bar_ordinal: 0,
                        bar_number: 0,
                        bar_units,
                    }));
                }
                let mut i: usize = 0;
                while begin + i <= end
                    invariant
                        want == realized(slots@, add_ready_section, bars_range, bar_units),
                        bars_range == Some((begin, end)),
                        n == slots@.len(),
                        begin <= end < n,
                        lead == (add_ready_section && begin > 0),
                        off == (if lead { 1usize } else { 0usize }),
                        begin + i <= end + 1,
                        r@.len() == off + i,
                        forall|k: int| 0 <= k < r@.len() ==> r@[k] == want[k],
                    decreases end + 1 - (begin + i),
                {
                    let s = slots[begin + i];
                    let number = if lead { begin + i } else { begin + i + 1 };
                    r.push((s.section, TabBarProps {
                        section_round: s.section_round,
                        section_ordinal: s.section_ordinal,
                        bar_index: s.bar_index,
                        bar_ordinal: i + off,
                        bar_number: number,
                        bar_units,
                    }));
                    i = i + 1;
                }
                assert(r@ =~= want);
                return r;
            }
        },
        None => {},
    }
    let mut k: usize = 0;
    while k < n
        invariant
            want == realized(slots@, add_ready_section, bars_range, bar_units),
            !window_valid(bars_range, slots@.len()),
            n == slots@.len(),
            k <= n,
            r@.len() == k,
            forall|j: int| 0 <= j < k ==> r@[j] == want[j],
        decreases n - k,
    {
        let s = slots[k];
        let number = if add_ready_section { k } else { k + 1 };
        r.push((s.section, TabBarProps {
            section_round: s.section_round,
            section_ordinal: s.section_ordinal,
            bar_index: s.bar_index,
            bar_ordinal: k,
            bar_number: number,
            bar_units,
        }));
        k = k + 1;
    }
    assert(r@ =~= want);
    r
}

proof fn lemma_bar_slots_bounds(lens: Seq<nat>)
    ensures
        forall|k: int|
            0 <= k < bar_slots(lens).len() ==> {
                let slot = #[trigger] bar_slots(lens)[k];
                &&& 0 <= slot.0 < lens.len()
                &&& 0 <= slot.1 < lens[slot.0]
            },
    decreases lens.len(),
{
    if lens.len() > 0 {
        lemma_bar_slots_bounds(lens.drop_last());
        let s = bar_slots(lens);
        let before = bar_slots(lens.drop_last());
        assert forall|k: int| 0 <= k < s.len() implies {
            let slot = #[trigger] s[k];
            &&& 0 <= slot.0 < lens.len()
            &&& 0 <= slot.1 < lens[slot.0]
        } by {
            if k < before.len() {
                assert(s[k] == before[k]);
                assert(lens.drop_last()[before[k].0] == lens[before[k].0]);
            }
        }
    }
}

/// Each slot's section and bar exist.
pub open spec fn slot_in(slot: BarSlot, sections: Seq<Section>) -> bool {
    &&& slot.section < sections.len()
    &&& slot.bar_index < sections[slot.section as int].bars@.len()
}

proof fn lemma_expanded_in(sections: Seq<Section>, form: Seq<usize>)
    requires
        forall|k: int| 0 <= k < form.len() ==> form[k] < sections.len(),
    ensures
        forall|k: int|
            0 <= k < expanded(sections, form).len() ==> slot_in(
                #[trigger] expanded(sections, form)[k],
                sections,
            ),
{
    let lens = form_lens(sections, form);
    lemma_bar_slots_bounds(lens);
    let slots = bar_slots(lens);
    assert forall|k: int| 0 <= k < expanded(sections, form).len() implies slot_in(
        #[trigger] expanded(sections, form)[k],
        sections,
    ) by {
        let slot = slots[k];
        assert(lens[slot.0] == sections[form[slot.0] as int].bars@.len());
    }
}

proof fn lemma_realized_in(slots: Seq<BarSlot>, ready: bool, range: Option<(usize, usize)>, bar_units: Units, sections: Seq<Section>)
    requires
        forall|k: int| 0 <= k < slots.len() ==> slot_in(#[trigger] slots[k], sections),
    ensures
        forall|i: int|
            0 <= i < realized(slots, ready, range, bar_units).len() ==> {
                let h = #[trigger] realized(slots, ready, range, bar_units)[i];
                &&& h.0 < sections.len()
                &&& h.1.bar_index < sections[h.0 as int].bars@.len()
                &&& h.1.bar_units == bar_units
            },
{
    let r = realized(slots, ready, range, bar_units);
    assert forall|i: int| 0 <= i < r.len() implies {
        let h = #[trigger] r[i];
        &&& h.0 < sections.len()
        &&& h.1.bar_index < sections[h.0 as int].bars@.len()
        &&& h.1.bar_units == bar_units
    } by {
        if window_valid(range, slots.len()) {
            let w = range->0;
            let b = w.0 as int;
            if ready && b > 0 {
                if i == 0 {
                    assert(slot_in(slots[0], sections));
                } else {
                    assert(slot_in(slots[b + i - 1], sections));
                }
            } else {
                assert(slot_in(slots[b + i], sections));
            }
        } else {
            assert(slot_in(slots[i], sections));
        }
    }
}

/// One realized bar: which section it plays, its props, and one lane per
/// layer of the section's bar.
#[derive(Debug)]
pub struct TabBar {
    pub section: usize,
    pub props: TabBarProps,
    pub lanes: Vec<BarLane>,
}

/// The lanes of the bar at position `pos`: lane `l` is the bar of the track
/// that layer `l` of the section's bar names, cut at the bar's length.
pub open spec fn lanes_match(bar: TabBar, pos: int, sections: Seq<Section>, tracks: Seq<Track>) -> bool {
    let sb = sections[bar.section as int].bars@[bar.props.bar_index as int];
    &&& bar.lanes@.len() == sb.layers@.len()
    &&& forall|l: int|
        0 <= l < bar.lanes@.len() ==> {
            let layer = sb.layers@[l];
            let t = tracks[layer.track as int];
            let lane = #[trigger] bar.lanes@[l];
            &&& lane.slice == bar_slice(
                protos_of(t.entries@),
                bar.props.bar_units.0 as nat,
                layer.track_bar as nat,
            )
            &&& lane.props.bar == pos
            &&& lane.props.index == l
            &&& lane.props.track == layer.track
            &&& lane_entries_match(lane.entries@, t, lane.slice, pos as usize, l as usize)
        }
}

/// Every layer of every section names an existing track.
pub open spec fn layers_in(sections: Seq<Section>, n_tracks: nat) -> bool {
    forall|s: int, b: int, l: int|
        0 <= s < sections.len() && 0 <= b < sections[s].bars@.len() && 0 <= l
            < sections[s].bars@[b].layers@.len() ==> (#[trigger] sections[s].bars@[b].layers@[l]).track
            < n_tracks
}

/// Tracks sit at their own index and are well formed.
pub open spec fn tracks_wf(tracks: Seq<Track>) -> bool {
    forall|i: int| 0 <= i < tracks.len() ==> (#[trigger] tracks[i]).wf() && tracks[i].props.index == i
}

/// Builds the lanes of each bar.
fn build_bars(heads: &Vec<(usize, TabBarProps)>, sections: &Vec<Section>, tracks: &Vec<Track>) -> (r: Vec<TabBar>)
    requires
        forall|i: int|
            0 <= i < heads@.len() ==> {
                let h = #[trigger] heads@[i];
                &&& h.0 < sections@.len()
                &&& h.1.bar_index < sections@[h.0 as int].bars@.len()
                &&& h.1.bar_units.0 <= 255 * 192
            },
        layers_in(sections@, tracks@.len()),
        tracks_wf(tracks@),
    ensures
        r@.len() == heads@.len(),
        forall|i: int|
            0 <= i < r@.len() ==> {
                &&& (#[trigger] r@[i]).section == heads@[i].0
                &&& r@[i].props == heads@[i].1
                &&& lanes_match(r@[i], i, sections@, tracks@)
            },
{
    let mut r: Vec<TabBar> = Vec::new();
    let mut i: usize = 0;
    while i < heads.len()
        invariant
            forall|i: int|
                0 <= i < heads@.len() ==> {
                    let h = #[trigger] heads@[i];
                    &&& h.0 < sections@.len()
                    &&& h.1.bar_index < sections@[h.0 as int].bars@.len()
                    &&& h.1.bar_units.0 <= 255 * 192
                },
            layers_in(sections@, tracks@.len()),
            tracks_wf(tracks@),
            i <= heads@.len(),
            r@.len() == i,
            forall|k: int|
                0 <= k < i ==> {
                    &&& (#[trigger] r@[k]).section == heads@[k].0
                    &&& r@[k].props == heads@[k].1
                    &&& lanes_match(r@[k], k, sections@, tracks@)
                },
        decreases heads@.len() - i,
    {
        let (section, props) = heads[i];
        let sb = &sections[section].bars[props.bar_index];
        let mut lanes: Vec<BarLane> = Vec::new();
        let mut l: usize = 0;
        while l < sb.layers.len()
            invariant
                section < sections@.len(),
                props.bar_index < sections@[section as int].bars@.len(),
                *sb == sections@[section as int].bars@[props.bar_index as int],
                props.bar_units.0 <= 255 * 192,
                layers_in(sections@, tracks@.len()),
                tracks_wf(tracks@),
                l <= sb.layers@.len(),
                lanes@.len() == l,
                forall|k: int|
                    0 <= k < l ==> {
                        let layer = sb.layers@[k];
                        let t = tracks@[layer.track as int];
                        let lane = #[trigger] lanes@[k];
                        &&& lane.slice == bar_slice(
                            protos_of(t.entries@),
                            props.bar_units.0 as nat,
                            layer.track_bar as nat,
                        )
                        &&& lane.props.bar == i
                        &&& lane.props.index == k
                        &&& lane.props.track == layer.track
                        &&& lane_entries_match(lane.entries@, t, lane.slice, i, k as usize)
                    },
            decreases sb.layers@.len() - l,
        {
            let layer = sb.layers[l];
            proof {
                assert(sections@[section as int].bars@[props.bar_index as int].layers@[l as int].track
                    < tracks@.len());
            }
            let track = &tracks[layer.track];
            proof {
                assert(tracks_wf(tracks@) ==> tracks@[layer.track as int].props.index == layer.track);
            }
            let lane = BarLane::new(track, i, l, layer.track_bar, props.bar_units);
            lanes.push(lane);
            l = l + 1;
        }
        r.push(TabBar { section, props, lanes });
        i = i + 1;
    }
    r
}

/// Builds the tracks, each at its index.
fn new_tracks(protos: Vec<proto::Track>) -> (r: Vec<Track>)
    ensures
        r@.len() == protos@.len(),
        tracks_wf(r@),
        forall|i: int|
            0 <= i < r@.len() ==> {
                &&& (#[trigger] r@[i]).id@ == protos@[i].id@
                &&& r@[i].kind == protos@[i].kind
                &&& protos_of(r@[i].entries@) == protos@[i].entries@
            },
{
    let ghost orig = protos@;
    let mut protos = protos;
    let mut r: Vec<Track> = Vec::new();
    while protos.len() > 0
        invariant
            r@.len() + protos@.len() == orig.len(),
            protos@ == orig.subrange(r@.len() as int, orig.len() as int),
            tracks_wf(r@),
            forall|i: int|
                0 <= i < r@.len() ==> {
                    &&& (#[trigger] r@[i]).id@ == orig[i].id@
                    &&& r@[i].kind == orig[i].kind
                    &&& protos_of(r@[i].entries@) == orig[i].entries@
                },
        decreases protos@.len(),
    {
        let p = protos.remove(0);
        let t = Track::new(r.len(), p);
        r.push(t);
    }
    r
}

/// The sections of a realized document: the lead-in first when asked for,
/// then every section of the compiler whose tracks all exist, in document
/// order; each dropped one is reported in `diagnostics`.
fn new_sections(add_ready_section: bool, protos: Vec<proto::Section>, tracks: &Vec<Track>, diagnostics: &mut Vec<ParseError>) -> (r: Vec<Section>)
    ensures
        r@.len() == (if add_ready_section { 1int } else { 0int }) + kept_sections(protos@, track_ids(tracks@)).len(),
        forall|i: int| 0 <= i < r@.len() ==> (#[trigger] r@[i]).props.index == i,
        add_ready_section ==> {
            &&& r@[0].id@ == ready_id()
            &&& r@[0].kind == SectionKind::Ready
            &&& r@[0].bars@.len() == 1
            &&& r@[0].bars@[0].layers@.len() == 0
        },
        forall|i: int|
            (if add_ready_section { 1int } else { 0int }) <= i < r@.len() ==> section_matches(
                #[trigger] r@[i],
                protos@[kept_sections(protos@, track_ids(tracks@))[i - if add_ready_section { 1int } else { 0int }]],
                track_ids(tracks@),
            ),
        layers_in(r@, tracks@.len()),
        final(diagnostics)@.len() == old(diagnostics)@.len() + protos@.len() - kept_sections(protos@, track_ids(tracks@)).len(),
        forall|k: int| 0 <= k < old(diagnostics)@.len() ==> final(diagnostics)@[k] == old(diagnostics)@[k],
        forall|k: int| old(diagnostics)@.len() <= k < final(diagnostics)@.len() ==> (#[trigger] final(diagnostics)@[k]) is TrackNotFound,
{
    let ghost ids = track_ids(tracks@);
    let ghost orig = protos@;
    let ghost off: int = if add_ready_section { 1int } else { 0int };
    let mut r: Vec<Section> = Vec::new();
    if add_ready_section {
        let ready = proto::Section::new_ready();
        match Section::try_new(0, ready, tracks) {
            Ok(s) => r.push(s),
            Err(_) => vstd::pervasive::unreached(),
        }
    }
    let n0 = protos.len();
    let mut protos = protos;
    let mut i: usize = 0;
    while protos.len() > 0
        invariant
            n0 == orig.len(),
            ids == track_ids(tracks@),
            off == (if add_ready_section { 1int } else { 0int }),
            i + protos@.len() == orig.len(),
            protos@ == orig.subrange(i as int, orig.len() as int),
            r@.len() == off + kept_sections(orig.take(i as int), ids).len(),
            forall|k: int| 0 <= k < r@.len() ==> (#[trigger] r@[k]).props.index == k,
            add_ready_section ==> {
                &&& r@[0].id@ == ready_id()
                &&& r@[0].kind == SectionKind::Ready
                &&& r@[0].bars@.len() == 1
                &&& r@[0].bars@[0].layers@.len() == 0
            },
            forall|k: int|
                off <= k < r@.len() ==> section_matches(
                    #[trigger] r@[k],
                    orig[kept_sections(orig.take(i as int), ids)[k - off]],
                    ids,
                ),
            layers_in(r@, tracks@.len()),
            diagnostics@.len() == old(diagnostics)@.len() + i - kept_sections(orig.take(i as int), ids).len(),
            forall|k: int| 0 <= k < old(diagnostics)@.len() ==> diagnostics@[k] == old(diagnostics)@[k],
            forall|k: int| old(diagnostics)@.len() <= k < diagnostics@.len() ==> (#[trigger] diagnostics@[k]) is TrackNotFound,
        decreases protos@.len(),
    {
        proof {
            lemma_kept_bounds(orig.take(i as int), ids);
        }
        let p = protos.remove(0);
        let ghost pg = p;
        proof {
            assert(orig.take(i + 1).drop_last() =~= orig.take(i as int));
            assert(orig.take(i + 1).last() == pg);
        }
        proof {
            lemma_kept_bounds(orig.take(i + 1), ids);
        }
        let index = r.len();
        match Section::try_new(index, p, tracks) {
            Ok(sec) => {
                r.push(sec);
                proof {
                    assert forall|s: int, b: int, l: int|
                        0 <= s < r@.len() && 0 <= b < r@[s].bars@.len() && 0 <= l
                            < r@[s].bars@[b].layers@.len() implies (#[trigger] r@[s].bars@[b].layers@[l]).track
                            < tracks@.len() by {
                        if s == r@.len() - 1 {
                            assert(is_first_of(ids, pg.bars@[b].layers@[l].track@, r@[s].bars@[b].layers@[l].track as int));
                        }
                    }
                }
            },
            Err(e) => {
                diagnostics.push(e);
            },
        }
        i = i + 1;
    }
    proof {
        assert(orig.take(i as int) =~= orig);
    }
    r
}

/// A section that names a track no track has is left out of the kept
/// sections, and every section whose tracks all exist is kept.
pub proof fn lemma_kept_exactly(secs: Seq<proto::Section>, ids: Seq<Seq<char>>, i: int)
    requires
        0 <= i < secs.len(),
    ensures
        kept_sections(secs, ids).contains(i) <==> section_resolves(secs[i], ids),
    decreases secs.len(),
{
    let rest = kept_sections(secs.drop_last(), ids);
    let all = kept_sections(secs, ids);
    lemma_kept_bounds(secs.drop_last(), ids);
    if i < secs.len() - 1 {
        lemma_kept_exactly(secs.drop_last(), ids, i);
        assert(secs.drop_last()[i] == secs[i]);
        if rest.contains(i) {
            let j = choose|j: int| 0 <= j < rest.len() && rest[j] == i;
            assert(all[j] == i);
        }
        if all.contains(i) {
            let j = choose|j: int| 0 <= j < all.len() && all[j] == i;
            if j < rest.len() {
                assert(rest[j] == i);
            }
        }
    } else {
        if all.contains(i) {
            let j = choose|j: int| 0 <= j < all.len() && all[j] == i;
            if j < rest.len() {
                assert(rest[j] == i);
            }
        }
        if section_resolves(secs[i], ids) {
            assert(all[rest.len() as int] == i);
        }
    }
}

/// The realized document: tracks, sections, play order and bars, built once
/// and read-only after. Everything refers upward by index, so a reference
/// from a lane entry to its lane, bar or track is a lookup that can fail, never
/// an owner.
#[derive(Debug)]
pub struct Tab {
    pub uuid: uuid::Uuid,
    pub meta: TabMeta,
    pub tracks: Vec<Track>,
    pub sections: Vec<Section>,
    pub form: Form,
    pub bars: Vec<TabBar>,
    /// The sections and play-order ids that were dropped, and why.
    pub diagnostics: Vec<ParseError>,
}

/// The (section, props) of some bars.
pub open spec fn heads_of(bars: Seq<TabBar>) -> Seq<(usize, TabBarProps)> {
    bars.map_values(|b: TabBar| (b.section, b.props))
}

impl Tab {
    /// The structure that assembly sets up: tracks at their index and well
    /// formed, sections at their index naming existing tracks, a play order
    /// over existing sections, and bars over existing section bars whose
    /// lanes are cut from their tracks.
    pub open spec fn wf(&self) -> bool {
        &&& tracks_wf(self.tracks@)
        &&& layers_in(self.sections@, self.tracks@.len())
        &&& forall|i: int| 0 <= i < self.sections@.len() ==> (#[trigger] self.sections@[i]).props.index == i
        &&& forall|k: int| 0 <= k < self.form.sections@.len() ==> (#[trigger] self.form.sections@[k]) < self.sections@.len()
        &&& forall|i: int|
            0 <= i < self.bars@.len() ==> {
                let bar = #[trigger] self.bars@[i];
                &&& bar.section < self.sections@.len()
                &&& bar.props.bar_index < self.sections@[bar.section as int].bars@.len()
                &&& bar.props.bar_units.0 == signature_ticks(self.meta.signature)
                &&& lanes_match(bar, i, self.sections@, self.tracks@)
            }
    }

    /// Assembles a document: tracks in order; the lead-in section when asked
    /// for, then the sections whose tracks all exist; the play order; its bars,
    /// cut to the window `bars_range` (first and last ordinal, both included)
    /// when that is a usable one; and the lanes of every bar. Sections that
    /// name a missing track, and play-order ids that name a missing section,
    /// are dropped and reported in `diagnostics`. Only a signature without
    /// beats fails the whole assembly.
    pub fn try_parse_arc(proto: proto::Tab, add_ready_section: bool, bars_range: Option<(usize, usize)>) -> (r: Result<std::sync::Arc<Tab>, ParseError>)
        ensures
            r is Err <==> proto.meta.signature.bar_beats == 0,
            r matches Err(e) ==> e is InvalidSignature,
            r matches Ok(tab) ==> {
                let ids = track_ids(tab.tracks@);
                let kept = kept_sections(proto.sections@, ids);
                let off: int = if add_ready_section { 1 } else { 0 };
                &&& tab.wf()
                &&& tab.uuid == proto.uuid
                &&& tab.meta == proto.meta
                &&& tab.tracks@.len() == proto.tracks@.len()
                &&& forall|i: int|
                    0 <= i < tab.tracks@.len() ==> {
                        &&& (#[trigger] tab.tracks@[i]).id@ == proto.tracks@[i].id@
                        &&& tab.tracks@[i].kind == proto.tracks@[i].kind
                        &&& protos_of(tab.tracks@[i].entries@) == proto.tracks@[i].entries@
                    }
                &&& tab.sections@.len() == off + kept.len()
                &&& add_ready_section ==> {
                    &&& tab.sections@[0].id@ == ready_id()
                    &&& tab.sections@[0].kind == SectionKind::Ready
                    &&& tab.sections@[0].bars@.len() == 1
                    &&& tab.sections@[0].bars@[0].layers@.len() == 0
                }
                &&& forall|i: int|
                    off <= i < tab.sections@.len() ==> section_matches(
                        #[trigger] tab.sections@[i],
                        proto.sections@[kept[i - off]],
                        ids,
                    )
                &&& tab.form.sections@.map_values(|f: usize| f as int) == form_plan(
                    proto.form.sections@.map_values(|s: String| s@),
                    section_ids(tab.sections@),
                    add_ready_section,
                )
                &&& heads_of(tab.bars@) == realized(
                    expanded(tab.sections@, tab.form.sections@),
                    add_ready_section,
                    bars_range,
                    Units(signature_ticks(proto.meta.signature) as u128),
                )
                &&& forall|i: int| 0 <= i < tab.bars@.len() ==> (#[trigger] tab.bars@[i]).props.bar_ordinal == i
                &&& tab.diagnostics@.len() == proto.sections@.len() - kept.len() + unresolved_ids(
                    proto.form.sections@.map_values(|s: String| s@),
                    section_ids(tab.sections@),
                )
                &&& forall|k: int|
                    0 <= k < proto.sections@.len() - kept.len() ==> (#[trigger] tab.diagnostics@[k]) is TrackNotFound
                &&& forall|k: int|
                    proto.sections@.len() - kept.len() <= k < tab.diagnostics@.len() ==> (#[trigger] tab.diagnostics@[k]) is SectionNotFound
            },
    {
        if proto.meta.signature.bar_beats == 0 {
            return Err(ParseError::InvalidSignature);
        }
        let proto::Tab { uuid, meta, tracks, sections, form } = proto;
        let mut diagnostics: Vec<ParseError> = Vec::new();
        let tracks = new_tracks(tracks);
        let sections = new_sections(add_ready_section, sections, &tracks, &mut diagnostics);
        let form = Form::new(add_ready_section, form, &sections, &mut diagnostics);
        let slots = expand_form(&sections, &form.sections);
        // The bar count is a usize: ordinals and numbers fit.
        let bar_count = slots.len();
        assert(slots@.len() == bar_count);
        let bar_units = meta.bar_units();
        proof {
            let sig = meta.signature;
            assert((sig.bar_beats as nat) * crate::duration::unit_ticks(sig.beat_unit) <= 255 * 192)
                by (nonlinear_arith)
                requires
                    sig.bar_beats <= 255,
                    crate::duration::unit_ticks(sig.beat_unit) <= 192,
            ;
        }
        let heads = realize_bars(&slots, add_ready_section, bars_range, bar_units);
        proof {
            lemma_expanded_in(sections@, form.sections@);
            lemma_realized_in(slots@, add_ready_section, bars_range, bar_units, sections@);
            lemma_bar_ordinals(slots@, add_ready_section, bars_range, bar_units);
            assert(form.sections@.map_values(|f: usize| f as int) =~= form_plan(
                proto.form.sections@.map_values(|s: String| s@),
                section_ids(sections@),
                add_ready_section,
            ));
        }
        let bars = build_bars(&heads, &sections, &tracks);
        proof {
            assert(heads_of(bars@) =~= heads@);
        }
        let tab = Tab { uuid, meta, tracks, sections, form, bars, diagnostics };
        Ok(std::sync::Arc::new(tab))
    }

    /// The bar at a global ordinal.
    pub fn get_bar(&self, ordinal: usize) -> (r: Option<&TabBar>)
        ensures
            r is Some <==> ordinal < self.bars@.len(),
            r matches Some(b) ==> *b == self.bars@[ordinal as int],
    {
        if ordinal < self.bars.len() {
            Some(&self.bars[ordinal])
        } else {
            None
        }
    }

    /// The track at an index.
    pub fn get_track(&self, index: usize) -> (r: Option<&Track>)
        ensures
            r is Some <==> index < self.tracks@.len(),
            r matches Some(t) ==> *t == self.tracks@[index as int],
    {
        if index < self.tracks.len() {
            Some(&self.tracks[index])
        } else {
            None
        }
    }

    /// The lane at `index` of the bar at `bar`.
    pub fn get_lane(&self, bar: usize, index: usize) -> (r: Option<&BarLane>)
        ensures
            r is Some <==> bar < self.bars@.len() && index < self.bars@[bar as int].lanes@.len(),
            r matches Some(l) ==> *l == self.bars@[bar as int].lanes@[index as int],
    {
        if bar < self.bars.len() && index < self.bars[bar].lanes.len() {
            Some(&self.bars[bar].lanes[index])
        } else {
            None
        }
    }

    /// The section that a bar plays.
    pub fn bar_section(&self, bar: &TabBar) -> (r: Option<&Section>)
        ensures
            r is Some <==> bar.section < self.sections@.len(),
            r matches Some(s) ==> *s == self.sections@[bar.section as int],
    {
        if bar.section < self.sections.len() {
            Some(&self.sections[bar.section])
        } else {
            None
        }
    }
}

impl LaneEntry {
    /// The lane that holds this entry, looked up in `tab`.
    pub fn lane<'a>(&self, tab: &'a Tab) -> (r: Option<&'a BarLane>)
        ensures
            r is Some <==> self.bar < tab.bars@.len() && self.lane < tab.bars@[self.bar as int].lanes@.len(),
            r matches Some(l) ==> *l == tab.bars@[self.bar as int].lanes@[self.lane as int],
    {
        tab.get_lane(self.bar, self.lane)
    }

    /// The bar that holds this entry, looked up in `tab`.
    pub fn bar<'a>(&self, tab: &'a Tab) -> (r: Option<&'a TabBar>)
        ensures
            r is Some <==> self.bar < tab.bars@.len(),
            r matches Some(b) ==> *b == tab.bars@[self.bar as int],
    {
        tab.get_bar(self.bar)
    }

    /// The track of this entry, looked up in `tab`.
    pub fn track<'a>(&self, tab: &'a Tab) -> (r: Option<&'a Track>)
        ensures
            r is Some <==> self.track < tab.tracks@.len(),
            r matches Some(t) ==> *t == tab.tracks@[self.track as int],
    {
        tab.get_track(self.track)
    }

    /// Where this entry starts in the document: its bar and its position in
    /// that bar; none when `tab` has no bar at the entry's place.
    pub fn bar_position(&self, tab: &Tab) -> (r: Option<BarPosition>)
        ensures
            r is Some <==> self.bar < tab.bars@.len(),
            r matches Some(p) ==> p == (BarPosition {
                bar_units: tab.bars@[self.bar as int].props.bar_units,
                bar_ordinal: tab.bars@[self.bar as int].props.bar_ordinal,
                in_bar_pos: self.props.in_bar_pos,
            }),
    {
        match tab.get_bar(self.bar) {
            Some(b) => Some(BarPosition::new(b.props.bar_units, b.props.bar_ordinal, self.props.in_bar_pos)),
            None => None,
        }
    }
}

impl ModelEntry {
    /// The track of this entry, looked up in `tab`.
    pub fn track<'a>(&self, tab: &'a Tab) -> (r: Option<&'a Track>)
        ensures
            r is Some <==> self.track < tab.tracks@.len(),
            r matches Some(t) ==> *t == tab.tracks@[self.track as int],
    {
        tab.get_track(self.track)
    }
}

} // verus!
