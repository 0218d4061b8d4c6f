//! The flat document that the notation compiler hands over: tracks of entries,
//! sections of bars that point into tracks by id, and the play order.
use vstd::prelude::*;

use crate::duration::{duration_ticks, Duration, Signature, Units, signature_ticks};

verus! {

#[verifier::external_type_specification]
#[verifier::external_body]
pub struct ExUuid(uuid::Uuid);

#[verifier::external_type_specification]
#[verifier::external_body]
pub struct ExUuidError(uuid::Error);

/// Whether `uuid::Uuid::parse_str` accepts the text.
pub uninterp spec fn uuid_parses(s: Seq<char>) -> bool;

/// Relies on `uuid::Uuid::parse_str`: it succeeds exactly on the texts it
/// accepts, whichever of its formats they are written in.
#[verifier::external_body]
fn parse_uuid(s: &str) -> (r: Result<uuid::Uuid, uuid::Error>)
    ensures
        r is Ok <==> uuid_parses(s@),
{
    uuid::Uuid::parse_str(s)
}

/// Relies on `uuid::Uuid::new_v4` and the `Display` of `Uuid`: a fresh random
/// uuid in hyphenated form, a format that `Uuid::parse_str` reads back.
#[verifier::external_body]
fn random_uuid_text() -> (r: String)
    ensures
        uuid_parses(r@),
{
    uuid::Uuid::new_v4().to_string()
}

/// How a player passes over an entry while following along.
#[derive(Clone, Copy, PartialEq, Eq, Structural, Debug)]
pub enum EntryPassMode {
    Immediate,
    Delayed,
}

/// One musical event of a track.
#[derive(Debug)]
pub enum ProtoEntry {
    /// A text mark, such as a rehearsal letter; it takes no time.
    Mark(String),
    Rest(Duration),
    Tone(Duration),
    Chord(Duration),
    /// A tie: the sounding entry before it goes on through the next one.
    Tie(Duration),
}

/// The length of an entry.
pub open spec fn entry_duration(e: ProtoEntry) -> Duration {
    match e {
        ProtoEntry::Mark(_) => Duration::Zero,
        ProtoEntry::Rest(d) => d,
        ProtoEntry::Tone(d) => d,
        ProtoEntry::Chord(d) => d,
        ProtoEntry::Tie(d) => d,
    }
}

/// The length of an entry in ticks.
pub open spec fn entry_ticks(e: ProtoEntry) -> nat {
    duration_ticks(entry_duration(e))
}

impl Clone for ProtoEntry {
    fn clone(&self) -> (r: Self)
        ensures
            r == *self,
    {
        match self {
            ProtoEntry::Mark(m) => ProtoEntry::Mark(m.clone()),
            ProtoEntry::Rest(d) => ProtoEntry::Rest(*d),
            ProtoEntry::Tone(d) => ProtoEntry::Tone(*d),
            ProtoEntry::Chord(d) => ProtoEntry::Chord(*d),
            ProtoEntry::Tie(d) => ProtoEntry::Tie(*d),
        }
    }
}

impl ProtoEntry {
    pub fn duration(&self) -> (r: Duration)
        ensures
            r == entry_duration(*self),
    {
        match self {
            ProtoEntry::Mark(_) => Duration::Zero,
            ProtoEntry::Rest(d) => *d,
            ProtoEntry::Tone(d) => *d,
            ProtoEntry::Chord(d) => *d,
            ProtoEntry::Tie(d) => *d,
        }
    }

    pub fn is_core_tie(&self) -> (r: bool)
        ensures
            r == (*self is Tie),
    {
        match self {
            ProtoEntry::Tie(_) => true,
            _ => false,
        }
    }

    /// Chords pass delayed, everything else immediately.
    pub fn pass_mode(&self) -> (r: EntryPassMode)
        ensures
            r == (if *self is Chord {
                EntryPassMode::Delayed
            } else {
                EntryPassMode::Immediate
            }),
    {
        match self {
            ProtoEntry::Chord(_) => EntryPassMode::Delayed,
            _ => EntryPassMode::Immediate,
        }
    }

    pub fn as_mark(&self) -> (r: Option<String>)
        ensures
            *self is Mark ==> r is Some && r->0@ == self->Mark_0@,
            !(*self is Mark) ==> r is None,
    {
        match self {
            ProtoEntry::Mark(m) => Some(m.clone()),
            _ => None,
        }
    }
}

/// The instrument or voice of a track.
#[derive(Clone, Copy, PartialEq, Eq, Structural, Debug)]
pub enum TrackKind {
    Meta,
    Lyrics,
    Vocal,
    Guitar,
    Bass,
    Piano,
    Synth,
    Drums,
    Unsupported,
}

/// One instrument's or voice's whole stream of entries.
#[derive(Debug)]
pub struct Track {
    pub id: String,
    pub kind: TrackKind,
    pub entries: Vec<ProtoEntry>,
}

impl Track {
    pub fn new(id: String, kind: TrackKind, entries: Vec<ProtoEntry>) -> (r: Self)
        ensures
            r.id == id,
            r.kind == kind,
            r.entries == entries,
    {
        Track { id, kind, entries }
    }
}

/// One track's part in a bar: the bar `track_bar` (counted from 0) of the
/// track `track`, cut from the track's entries at whole-bar boundaries.
#[derive(Debug)]
pub struct BarLayer {
    pub track: String,
    pub track_bar: usize,
}

/// A bar of a section: the layers of the tracks that sound in it.
#[derive(Debug)]
pub struct Bar {
    pub layers: Vec<BarLayer>,
}

#[derive(Clone, Copy, PartialEq, Eq, Structural, Debug)]
pub enum SectionKind {
    Ready,
    Intro,
    Verse,
    Chorus,
    Bridge,
    Solo,
    Outro,
    Rest,
}

/// A named group of bars, such as a verse or a chorus.
#[derive(Debug)]
pub struct Section {
    pub id: String,
    pub kind: SectionKind,
    pub bars: Vec<Bar>,
}

/// The id of the synthetic lead-in section.
pub open spec fn ready_id() -> Seq<char> {
    "ready"@
}

impl Section {
    pub fn new(id: String, kind: SectionKind, bars: Vec<Bar>) -> (r: Self)
        ensures
            r.id == id,
            r.kind == kind,
            r.bars == bars,
    {
        Section { id, kind, bars }
    }

    /// The lead-in section: one empty bar, for a count-in.
    pub fn new_ready() -> (r: Self)
        ensures
            r.id@ == ready_id(),
            r.kind == SectionKind::Ready,
            r.bars@.len() == 1,
            r.bars@[0].layers@.len() == 0,
    {
        let mut bars: Vec<Bar> = Vec::new();
        bars.push(Bar { layers: Vec::new() });
        Section { id: "ready".to_owned(), kind: SectionKind::Ready, bars }
    }
}

/// The play order: section ids, a section may come more than once. An empty
/// order plays every section once, in document order.
#[derive(Debug)]
pub struct Form {
    pub sections: Vec<String>,
}

#[derive(Clone, Copy, PartialEq, Eq, Structural, Debug)]
pub enum Key {
    C,
    CSharp,
    D,
    DSharp,
    E,
    F,
    FSharp,
    G,
    GSharp,
    A,
    ASharp,
    B,
}

/// The octave of a note, from the lowest to the highest.
#[derive(Clone, Copy, PartialEq, Eq, Structural, Debug)]
pub enum Octave {
    P0,
    P1,
    P2,
    P3,
    P4,
    P5,
    P6,
    P7,
    P8,
}

#[derive(Clone, Copy, PartialEq, Eq, Structural, Debug)]
pub enum Scale {
    Major,
    Minor,
}

/// Beats per minute, or a named tempo.
#[derive(Clone, Copy, PartialEq, Eq, Structural, Debug)]
pub enum Tempo {
    Largo,
    Adagio,
    Andante,
    Moderato,
    Allegro,
    Presto,
    Bpm(u16),
}

#[derive(Clone, Copy, PartialEq, Eq, Structural, Debug)]
pub struct TabMeta {
    pub key: Key,
    pub scale: Scale,
    pub signature: Signature,
    pub tempo: Tempo,
}

impl TabMeta {
    pub fn new(key: Key, scale: Scale, signature: Signature, tempo: Tempo) -> (r: Self)
        ensures
            r.key == key,
            r.scale == scale,
            r.signature == signature,
            r.tempo == tempo,
    {
        TabMeta { key, scale, signature, tempo }
    }

    /// The length of one bar.
    pub fn bar_units(&self) -> (r: Units)
        ensures
            r.0 == signature_ticks(self.signature),
    {
        Units::from(self.signature)
    }
}

impl Default for TabMeta {
    /// C major, 4/4, moderato.
    fn default() -> (r: Self)
        ensures
            r.key == Key::C,
            r.scale == Scale::Major,
            r.signature.beat_unit == crate::duration::Unit::Quarter,
            r.signature.bar_beats == 4,
            r.tempo == Tempo::Moderato,
    {
        TabMeta {
            key: Key::C,
            scale: Scale::Major,
            signature: Signature::default(),
            tempo: Tempo::Moderato,
        }
    }
}

/// The whole document, as the compiler produces it.
#[derive(Debug)]
pub struct Tab {
    pub uuid: uuid::Uuid,
    pub meta: TabMeta,
    pub tracks: Vec<Track>,
    pub sections: Vec<Section>,
    pub form: Form,
}

impl Tab {
    /// A fresh random uuid, as text.
    pub fn new_uuid() -> (r: String)
        ensures
            uuid_parses(r@),
    {
        random_uuid_text()
    }

    /// A document with the given parts; fails when `uuid` is not a uuid.
    pub fn new(uuid: &str, meta: TabMeta, tracks: Vec<Track>, sections: Vec<Section>, form: Form) -> (r: Result<Self, uuid::Error>)
        ensures
            r is Ok <==> uuid_parses(uuid@),
            r matches Ok(t) ==> t.meta == meta && t.tracks == tracks && t.sections == sections
                && t.form == form,
    {
        match parse_uuid(uuid) {
            Ok(id) => Ok(Tab { uuid: id, meta, tracks, sections, form }),
            Err(e) => Err(e),
        }
    }

    /// An empty document with a fresh uuid and default meta.
    pub fn new_empty() -> (r: Self)
        ensures
            r.meta.key == Key::C && r.meta.scale == Scale::Major && r.meta.tempo == Tempo::Moderato,
            r.meta.signature.beat_unit == crate::duration::Unit::Quarter,
            r.meta.signature.bar_beats == 4,
            r.tracks@.len() == 0,
            r.sections@.len() == 0,
            r.form.sections@.len() == 0,
    {
        let id = Tab::new_uuid();
        let form = Form { sections: Vec::new() };
        match Tab::new(id.as_str(), TabMeta::default(), Vec::new(), Vec::new(), form) {
            Ok(t) => t,
            Err(_) => vstd::pervasive::unreached(),
        }
    }
}

} // verus!
