//! The running defaults that the notation compiler threads through a
//! document: key, scale, note length, octave and the string count of fretted
//! instruments. Held as a value that the compiler owns and passes along.
use vstd::prelude::*;

use crate::duration::{Duration, Unit};
use crate::proto::{Key, Octave, Scale};

verus! {

/// The string count of a guitar.
pub const GUITAR_STRING_NUM: usize = 6;

#[derive(Clone, Copy, Debug)]
pub struct FrettedContext {
    pub string_num: usize,
}

impl Default for FrettedContext {
    fn default() -> (r: Self)
        ensures
            r.string_num == GUITAR_STRING_NUM,
    {
        FrettedContext { string_num: GUITAR_STRING_NUM }
    }
}

#[derive(Debug)]
pub struct Context {
    pub key: Key,
    pub scale: Scale,
    pub duration: Duration,
    pub octave: Octave,
    pub fretted: FrettedContext,
}

impl Default for Context {
    /// C major, quarter notes, the middle octave, a guitar.
    fn default() -> (r: Self)
        ensures
            r.key == Key::C,
            r.scale == Scale::Major,
            r.duration == Duration::Simple(Unit::Quarter),
            r.octave == Octave::P4,
            r.fretted.string_num == GUITAR_STRING_NUM,
    {
        Context {
            key: Key::C,
            scale: Scale::Major,
            duration: Duration::Simple(Unit::Quarter),
            octave: Octave::P4,
            fretted: FrettedContext::default(),
        }
    }
}

impl Context {
    pub fn key(&self) -> (r: Key)
        ensures
            r == self.key,
    {
        self.key
    }

    pub fn scale(&self) -> (r: Scale)
        ensures
            r == self.scale,
    {
        self.scale
    }

    pub fn duration(&self) -> (r: Duration)
        ensures
            r == self.duration,
    {
        self.duration
    }

    pub fn octave(&self) -> (r: Octave)
        ensures
            r == self.octave,
    {
        self.octave
    }

    pub fn fretted(&self) -> (r: FrettedContext)
        ensures
            r == self.fretted,
    {
        self.fretted
    }

    pub fn set_key(&mut self, key: Key)
        ensures
            final(self).key == key,
            final(self).scale == old(self).scale,
            final(self).duration == old(self).duration,
            final(self).octave == old(self).octave,
            final(self).fretted == old(self).fretted,
    {
        self.key = key;
    }

    pub fn set_scale(&mut self, scale: Scale)
        ensures
            final(self).scale == scale,
            final(self).key == old(self).key,
            final(self).duration == old(self).duration,
            final(self).octave == old(self).octave,
            final(self).fretted == old(self).fretted,
    {
        self.scale = scale;
    }

    pub fn set_duration(&mut self, duration: Duration)
        ensures
            final(self).duration == duration,
            final(self).key == old(self).key,
            final(self).scale == old(self).scale,
            final(self).octave == old(self).octave,
            final(self).fretted == old(self).fretted,
    {
        self.duration = duration;
    }

    pub fn set_octave(&mut self, octave: Octave)
        ensures
            final(self).octave == octave,
            final(self).key == old(self).key,
            final(self).scale == old(self).scale,
            final(self).duration == old(self).duration,
            final(self).fretted == old(self).fretted,
    {
        self.octave = octave;
    }
}

} // verus!
