use notation_model::duration::{Duration, Signature, Unit, Units};
use notation_model::proto;
use notation_model::proto::{
    Bar, BarLayer, Key, ProtoEntry, Scale, SectionKind, TabMeta, Tempo, TrackKind,
};
use notation_model::tab::{ParseError, Tab};

const UUID: &str = "550e8400-e29b-41d4-a716-446655440000";

fn quarter() -> ProtoEntry {
    ProtoEntry::Tone(Duration::Simple(Unit::Quarter))
}

fn bar(layers: &[(&str, usize)]) -> Bar {
    Bar {
        layers: layers
            .iter()
            .map(|(t, b)| BarLayer { track: t.to_string(), track_bar: *b })
            .collect(),
    }
}

fn section(id: &str, bars: Vec<Bar>) -> proto::Section {
    proto::Section::new(id.to_string(), SectionKind::Verse, bars)
}

fn doc(
    tracks: Vec<proto::Track>,
    sections: Vec<proto::Section>,
    form: &[&str],
) -> proto::Tab {
    let form = proto::Form { sections: form.iter().map(|s| s.to_string()).collect() };
    proto::Tab::new(UUID, TabMeta::default(), tracks, sections, form).unwrap()
}

/// A guitar track of `n` bars, four quarters each.
fn guitar(n: usize) -> proto::Track {
    let entries = (0..4 * n).map(|_| quarter()).collect();
    proto::Track::new("guitar".to_string(), TrackKind::Guitar, entries)
}

#[test]
fn one_bar_with_a_tie() {
    let entries = vec![
        quarter(),
        ProtoEntry::Tie(Duration::Simple(Unit::Quarter)),
        quarter(),
        quarter(),
    ];
    let track = proto::Track::new("guitar".to_string(), TrackKind::Guitar, entries);
    let d = doc(vec![track], vec![section("A", vec![bar(&[("guitar", 0)])])], &["A"]);
    let tab = Tab::try_parse_arc(d, false, None).unwrap();
    assert_eq!(tab.bars.len(), 1);
    let b = &tab.bars[0];
    assert_eq!(b.props.bar_ordinal, 0);
    assert_eq!(b.props.bar_number, 1);
    assert_eq!(b.lanes.len(), 1);
    let lane = &b.lanes[0];
    assert_eq!(lane.entries.len(), 4);
    let half = Units::from(Unit::Half);
    assert_eq!(lane.entries[0].props.tied_units, half);
    assert_eq!(lane.entries[0].in_bar_pos(), Units(0));
    assert_eq!(lane.entries[1].in_bar_pos(), Units::from(Unit::Quarter));
    assert_eq!(lane.entries[2].in_bar_pos(), half);
    assert_eq!(lane.entries[3].in_bar_pos(), Units::from(Duration::Dotted(Unit::Half)));
    assert_eq!(lane.entries[2].tied_units(), Units::from(Unit::Quarter));
    assert_eq!(tab.tracks[0].entries[0].props.tied_units, half);
}

#[test]
fn repeated_section_rounds() {
    let sections = vec![
        section("A", vec![bar(&[("guitar", 0)])]),
        section("B", vec![bar(&[("guitar", 1)])]),
    ];
    let tab = Tab::try_parse_arc(doc(vec![guitar(2)], sections, &["A", "B", "A"]), false, None)
        .unwrap();
    assert_eq!(tab.bars.len(), 3);
    let rounds: Vec<usize> = tab.bars.iter().map(|b| b.props.section_round).collect();
    let ordinals: Vec<usize> = tab.bars.iter().map(|b| b.props.section_ordinal).collect();
    assert_eq!(rounds, vec![1, 1, 2]);
    assert_eq!(ordinals, vec![0, 1, 2]);
    assert_eq!(tab.sections[tab.bars[2].section].id, "A");
    assert_eq!(tab.sections[tab.bars[1].section].id, "B");
    assert_eq!(tab.form.sections, vec![0, 1, 0]);
}

#[test]
fn bar_ordinals_are_contiguous() {
    let sections = vec![
        section("A", vec![bar(&[("guitar", 0)]), bar(&[("guitar", 1)])]),
        section("B", vec![bar(&[("guitar", 2)])]),
    ];
    let tab = Tab::try_parse_arc(doc(vec![guitar(3)], sections, &["A", "B", "A", "B"]), true, None)
        .unwrap();
    assert_eq!(tab.bars.len(), 1 + 2 + 1 + 2 + 1);
    for (i, b) in tab.bars.iter().enumerate() {
        assert_eq!(b.props.bar_ordinal, i);
        assert_eq!(b.props.bar_number, i);
    }
    assert_eq!(tab.sections[0].kind, SectionKind::Ready);
    assert_eq!(tab.sections[0].id, "ready");
    assert!(tab.diagnostics.is_empty());
    assert_eq!(tab.bars[0].lanes.len(), 0);
    let indices: Vec<usize> = tab.bars.iter().map(|b| b.props.bar_index).collect();
    assert_eq!(indices, vec![0, 0, 1, 0, 0, 1, 0]);
}

#[test]
fn lanes_follow_bar_boundaries() {
    let sections = vec![section("A", vec![bar(&[("guitar", 1)]), bar(&[("guitar", 0)])])];
    let tab = Tab::try_parse_arc(doc(vec![guitar(2)], sections, &["A"]), false, None).unwrap();
    let first = &tab.bars[0].lanes[0];
    assert_eq!((first.slice.begin, first.slice.end), (4, 8));
    assert_eq!(first.entries[0].model, 4);
    assert_eq!(first.entries[3].in_bar_pos(), Units::from(Duration::Dotted(Unit::Half)));
    let second = &tab.bars[1].lanes[0];
    assert_eq!((second.slice.begin, second.slice.end), (0, 4));
}

#[test]
fn window_keeps_its_bars() {
    let sections = vec![section(
        "A",
        vec![bar(&[("guitar", 0)]), bar(&[("guitar", 1)]), bar(&[("guitar", 2)])],
    )];
    let tab = Tab::try_parse_arc(doc(vec![guitar(3)], sections, &["A", "A"]), false, Some((2, 4)))
        .unwrap();
    assert_eq!(tab.bars.len(), 3);
    for (i, b) in tab.bars.iter().enumerate() {
        assert_eq!(b.props.bar_ordinal, i);
        assert_eq!(b.props.bar_number, 2 + i + 1);
    }
    assert_eq!(tab.bars[0].props.bar_index, 2);
    assert_eq!(tab.bars[1].props.section_round, 2);
}

#[test]
fn window_puts_the_lead_in_back() {
    let sections = vec![section("A", vec![bar(&[("guitar", 0)]), bar(&[("guitar", 1)])])];
    let tab = Tab::try_parse_arc(doc(vec![guitar(2)], sections, &["A"]), true, Some((2, 2)))
        .unwrap();
    assert_eq!(tab.bars.len(), 2);
    assert_eq!(tab.sections[tab.bars[0].section].kind, SectionKind::Ready);
    assert_eq!(tab.bars[0].props.bar_ordinal, 0);
    assert_eq!(tab.bars[1].props.bar_ordinal, 1);
    assert_eq!(tab.bars[1].props.bar_number, 2);
    assert_eq!(tab.bars[1].props.bar_index, 1);
}

#[test]
fn bad_window_keeps_everything() {
    let sections = vec![section("A", vec![bar(&[("guitar", 0)]), bar(&[("guitar", 1)])])];
    let inverted =
        Tab::try_parse_arc(doc(vec![guitar(2)], sections, &["A"]), false, Some((1, 0))).unwrap();
    assert_eq!(inverted.bars.len(), 2);
    let sections = vec![section("A", vec![bar(&[("guitar", 0)]), bar(&[("guitar", 1)])])];
    let outside =
        Tab::try_parse_arc(doc(vec![guitar(2)], sections, &["A"]), false, Some((0, 2))).unwrap();
    assert_eq!(outside.bars.len(), 2);
    assert_eq!(outside.bars[1].props.bar_number, 2);
}

#[test]
fn unknown_track_drops_only_its_section() {
    let sections = vec![
        section("A", vec![bar(&[("guitar", 0)])]),
        section("B", vec![bar(&[("piano", 0)])]),
    ];
    let tab = Tab::try_parse_arc(doc(vec![guitar(1)], sections, &["A", "B", "A"]), false, None)
        .unwrap();
    assert_eq!(tab.sections.len(), 1);
    assert_eq!(tab.sections[0].id, "A");
    assert_eq!(tab.bars.len(), 2);
    assert_eq!(tab.diagnostics.len(), 2);
    assert!(matches!(&tab.diagnostics[0], ParseError::TrackNotFound(t) if t == "piano"));
    assert!(matches!(&tab.diagnostics[1], ParseError::SectionNotFound(s) if s == "B"));
}

#[test]
fn empty_form_plays_every_section() {
    let sections = vec![
        section("A", vec![bar(&[("guitar", 0)])]),
        section("B", vec![bar(&[("guitar", 1)])]),
    ];
    let tab = Tab::try_parse_arc(doc(vec![guitar(2)], sections, &[]), true, None).unwrap();
    assert_eq!(tab.form.sections, vec![0, 1, 2]);
    assert_eq!(tab.bars.len(), 3);
}

#[test]
fn signature_without_beats_fails() {
    let mut d = doc(vec![guitar(1)], vec![section("A", vec![bar(&[("guitar", 0)])])], &["A"]);
    d.meta = TabMeta::new(Key::C, Scale::Major, Signature::new(Unit::Quarter, 0), Tempo::Moderato);
    assert!(matches!(Tab::try_parse_arc(d, false, None), Err(ParseError::InvalidSignature)));
}

#[test]
fn bar_length_follows_the_signature() {
    let mut d = doc(vec![guitar(2)], vec![section("A", vec![bar(&[("guitar", 1)])])], &["A"]);
    d.meta = TabMeta::new(Key::G, Scale::Minor, Signature::new(Unit::Quarter, 3), Tempo::Bpm(90));
    assert_eq!(d.meta.bar_units(), Units::from(Duration::Dotted(Unit::Half)));
    let tab = Tab::try_parse_arc(d, false, None).unwrap();
    let lane = &tab.bars[0].lanes[0];
    assert_eq!((lane.slice.begin, lane.slice.end), (3, 6));
    assert_eq!(tab.bars[0].props.bar_units, Units::from(Duration::Dotted(Unit::Half)));
}

#[test]
fn lookups_through_the_tab() {
    let sections = vec![section("A", vec![bar(&[("guitar", 0)])])];
    let tab = Tab::try_parse_arc(doc(vec![guitar(1)], sections, &["A"]), false, None).unwrap();
    assert!(tab.get_bar(0).is_some());
    assert!(tab.get_bar(1).is_none());
    let e = &tab.bars[0].lanes[0].entries[2];
    let lane = e.lane(&tab).unwrap();
    assert_eq!(lane.props.index, 0);
    assert_eq!(e.bar(&tab).unwrap().props.bar_ordinal, 0);
    assert_eq!(e.track(&tab).unwrap().id, "guitar");
    assert_eq!(e.prev(lane).unwrap().props.index, 1);
    assert_eq!(e.next(lane).unwrap().props.index, 3);
    assert!(lane.entries[0].prev(lane).is_none());
    assert!(lane.entries[3].next(lane).is_none());
    let track = e.track(&tab).unwrap();
    assert_eq!(e.model(track).unwrap().props.index, 2);
    assert!(tab.get_lane(0, 1).is_none());
    assert_eq!(tab.bar_section(&tab.bars[0]).unwrap().id, "A");
    assert_eq!(tab.tracks[0].entries[0].track(&tab).unwrap().props.index, 0);
    let p = e.bar_position(&tab).unwrap();
    assert_eq!(p.bar_ordinal, 0);
    assert_eq!(p.bar_units, Units::from(Unit::Whole));
    assert_eq!(p.in_bar_pos, Units::from(Unit::Half));
}

#[test]
fn document_uuid() {
    assert!(proto::Tab::new("not a uuid", TabMeta::default(), vec![], vec![], proto::Form {
        sections: vec![]
    })
    .is_err());
    let fresh = proto::Tab::new_uuid();
    assert_eq!(fresh.len(), 36);
    assert!(proto::Tab::new(&fresh, TabMeta::default(), vec![], vec![], proto::Form {
        sections: vec![]
    })
    .is_ok());
    let empty = proto::Tab::new_empty();
    assert_eq!(empty.tracks.len(), 0);
    assert_eq!(empty.meta, TabMeta::default());
    let tab = Tab::try_parse_arc(empty, true, None).unwrap();
    assert_eq!(tab.bars.len(), 1);
}

#[test]
fn section_bars_of_one_occurrence() {
    let sections = vec![section("A", vec![bar(&[("guitar", 0)]), bar(&[("guitar", 1)])])];
    let tab = Tab::try_parse_arc(doc(vec![guitar(2)], sections, &["A"]), false, None).unwrap();
    let slots = tab.sections[0].new_tab_bars(0, 3, 5);
    assert_eq!(slots.len(), 2);
    assert_eq!(slots[1].bar_index, 1);
    assert_eq!(slots[1].section_round, 3);
    assert_eq!(slots[0].section_ordinal, 5);
    let e = &tab.bars[1].lanes[0].entries[0];
    let track = &tab.tracks[0];
    assert!(matches!(e.proto(track), Some(ProtoEntry::Tone(_))));
    assert_eq!(e.track_id(track), "guitar");
    assert_eq!(e.track_kind(track), TrackKind::Guitar);
    assert_eq!(e.model, 4);
}

#[test]
fn predicate_search_over_a_lane() {
    let entries = vec![quarter(), ProtoEntry::Mark("x".to_string()), quarter(), quarter(), quarter()];
    let track = proto::Track::new("guitar".to_string(), TrackKind::Guitar, entries);
    let d = doc(vec![track], vec![section("A", vec![bar(&[("guitar", 0)])])], &["A"]);
    let tab = Tab::try_parse_arc(d, false, None).unwrap();
    let lane = &tab.bars[0].lanes[0];
    assert_eq!(lane.entries.len(), 5);
    let track = &tab.tracks[0];
    let late = |e: &notation_model::lane_entry::LaneEntry| {
        if e.in_bar_pos().0 >= Units::from(Unit::Half).0 { Some(e.props.index) } else { None }
    };
    assert_eq!(lane.get_entry(&late), Some(3));
    assert_eq!(lane.entries[0].get_lane_entry(lane, &late), Some(3));
    let mark = |e: &notation_model::model_entry::ModelEntry| e.proto.as_mark();
    assert_eq!(lane.entries[4].get_track_entry(track, &mark), Some("x".to_string()));
    assert_eq!(lane.entries[2].prev_as_mark(lane, track), Some("x".to_string()));
    assert_eq!(lane.entries[3].prev_as_mark(lane, track), None);
}
