use notation_model::context::{Context, FrettedContext, GUITAR_STRING_NUM};
use notation_model::duration::{Duration, Unit, Units};
use notation_model::model_entry::{ModelEntry, Track};
use notation_model::proto;
use notation_model::proto::{EntryPassMode, Key, Octave, ProtoEntry, Scale, TrackKind};

fn q() -> ProtoEntry {
    ProtoEntry::Tone(Duration::Simple(Unit::Quarter))
}

fn tie() -> ProtoEntry {
    ProtoEntry::Tie(Duration::Zero)
}

fn mark(s: &str) -> ProtoEntry {
    ProtoEntry::Mark(s.to_string())
}

#[test]
fn tied_units_chain_over_ties() {
    let entries = vec![q(), tie(), q(), tie(), mark("x"), ProtoEntry::Chord(Duration::Simple(Unit::Half)), q()];
    let quarter = Units::from(Unit::Quarter).0;
    assert_eq!(ModelEntry::calc_tied_units(&entries, 0).0, 2 * quarter + 2 * quarter);
    assert_eq!(ModelEntry::calc_tied_units(&entries, 2).0, quarter + 2 * quarter);
    assert_eq!(ModelEntry::calc_tied_units(&entries, 5).0, 2 * quarter);
    assert_eq!(ModelEntry::calc_tied_units(&entries, 6).0, quarter);
    assert_eq!(ModelEntry::calc_tied_units(&entries, 7), Units(0));
}

#[test]
fn tie_at_the_end_adds_nothing() {
    let entries = vec![q(), tie()];
    assert_eq!(ModelEntry::calc_tied_units(&entries, 0), Units::from(Unit::Quarter));
    let entries = vec![q(), tie(), mark("end")];
    assert_eq!(ModelEntry::calc_tied_units(&entries, 0), Units::from(Unit::Quarter));
}

#[test]
fn tied_units_never_below_own_length() {
    let entries = vec![q(), tie(), ProtoEntry::Rest(Duration::Dotted(Unit::Eighth)), tie(), q(), mark("m")];
    let track = Track::new(3, proto::Track::new("t".to_string(), TrackKind::Piano, entries));
    for e in track.entries.iter() {
        assert!(e.tied_units().0 >= Units::from(e.duration()).0);
        assert_eq!(e.track_index(), 3);
    }
}

#[test]
fn model_entry_neighbours() {
    let entries = vec![mark("intro"), q(), tie(), mark("m"), q()];
    let track = Track::new(0, proto::Track::new("g".to_string(), TrackKind::Guitar, entries));
    let other = Track::new(1, proto::Track::new("h".to_string(), TrackKind::Bass, vec![q()]));
    let e1 = &track.entries[1];
    assert_eq!(e1.prev(&track).unwrap().props.index, 0);
    assert_eq!(e1.next(&track).unwrap().props.index, 2);
    assert_eq!(e1.prev_as_mark(&track), Some("intro".to_string()));
    assert!(track.entries[0].prev(&track).is_none());
    assert!(track.entries[4].next(&track).is_none());
    assert_eq!(e1.get_tied_next(&track).unwrap().props.index, 4);
    assert!(track.entries[4].get_tied_next(&track).is_none());
    assert!(e1.prev(&other).is_none());
    assert_eq!(e1.track_id(&track), "g");
    assert_eq!(e1.track_id(&other), "");
    assert_eq!(e1.track_kind(&track), TrackKind::Guitar);
    assert_eq!(e1.track_kind(&other), TrackKind::Unsupported);
}

#[test]
fn proto_entry_capabilities() {
    assert!(tie().is_core_tie());
    assert!(!q().is_core_tie());
    assert_eq!(mark("a").duration(), Duration::Zero);
    assert_eq!(mark("a").as_mark(), Some("a".to_string()));
    assert_eq!(q().as_mark(), None);
    assert_eq!(ProtoEntry::Chord(Duration::Zero).pass_mode(), EntryPassMode::Delayed);
    assert_eq!(q().pass_mode(), EntryPassMode::Immediate);
}

#[test]
fn context_values() {
    let mut c = Context::default();
    assert_eq!(c.key(), Key::C);
    assert_eq!(c.scale(), Scale::Major);
    assert_eq!(c.duration(), Duration::Simple(Unit::Quarter));
    assert_eq!(c.octave(), Octave::P4);
    assert_eq!(c.fretted().string_num, GUITAR_STRING_NUM);
    c.set_key(Key::A);
    c.set_scale(Scale::Minor);
    c.set_duration(Duration::Dotted(Unit::Eighth));
    c.set_octave(Octave::P3);
    assert_eq!(c.key(), Key::A);
    assert_eq!(c.scale(), Scale::Minor);
    assert_eq!(c.duration(), Duration::Dotted(Unit::Eighth));
    assert_eq!(c.octave(), Octave::P3);
    assert_eq!(FrettedContext::default().string_num, 6);
}

#[test]
fn model_entry_tied_prev() {
    let entries = vec![q(), mark("m"), tie(), q(), tie(), q()];
    let track = Track::new(0, proto::Track::new("g".to_string(), TrackKind::Guitar, entries));
    assert_eq!(track.entries[3].get_tied_prev(&track).unwrap().props.index, 0);
    assert_eq!(track.entries[5].get_tied_prev(&track).unwrap().props.index, 3);
    assert!(track.entries[1].get_tied_prev(&track).is_none());
    assert!(track.entries[0].get_tied_prev(&track).is_none());
    let lonely = vec![mark("a"), tie(), q()];
    let track = Track::new(0, proto::Track::new("g".to_string(), TrackKind::Guitar, lonely));
    assert!(track.entries[2].get_tied_prev(&track).is_none());
}

#[test]
fn model_entry_constructor() {
    let e = ModelEntry::new(2, q(), 7, Units(5));
    assert_eq!(e.track_index(), 2);
    assert_eq!(e.props.index, 7);
    assert_eq!(e.tied_units(), Units(5));
    assert_eq!(e.duration(), Duration::Simple(Unit::Quarter));
}

#[test]
fn predicate_search_over_a_track() {
    let entries = vec![q(), mark("a"), tie(), mark("b")];
    let track = Track::new(0, proto::Track::new("g".to_string(), TrackKind::Guitar, entries));
    let other = Track::new(1, proto::Track::new("h".to_string(), TrackKind::Bass, vec![]));
    let first_mark = |e: &ModelEntry| e.proto.as_mark();
    assert_eq!(track.get_entry(&first_mark), Some("a".to_string()));
    let first_tie = |e: &ModelEntry| if e.proto.is_core_tie() { Some(e.props.index) } else { None };
    assert_eq!(track.entries[0].get_track_entry(&track, &first_tie), Some(2));
    assert_eq!(track.entries[0].get_track_entry(&other, &first_tie), None);
    let never = |_: &ModelEntry| None::<usize>;
    assert_eq!(track.get_entry(&never), None);
}
