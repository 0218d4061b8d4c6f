use vstd::prelude::*;

verus! {

/// Number of ticks in a whole note. Every length that a `Duration` can name
/// (dotted and triplet variants of units down to 1/32) is a whole number of
/// ticks, so lengths are added and compared exactly.
pub const TICKS_PER_WHOLE: u128 = 192;

/// A note-length class, from the whole note down to the 1/32 note.
#[derive(Clone, Copy, PartialEq, Eq, Structural, Debug)]
pub enum Unit {
    Whole,
    Half,
    Quarter,
    Eighth,
    Sixteenth,
    ThirtySecondth,
}

/// Length of a unit in ticks.
pub open spec fn unit_ticks(u: Unit) -> nat {
    match u {
        Unit::Whole => 192,
        Unit::Half => 96,
        Unit::Quarter => 48,
        Unit::Eighth => 24,
        Unit::Sixteenth => 12,
        Unit::ThirtySecondth => 6,
    }
}

/// The identifier of a unit, as the notation source writes it.
pub open spec fn unit_ident(u: Unit) -> Seq<char> {
    match u {
        Unit::Whole => "_1"@,
        Unit::Half => "_1_2"@,
        Unit::Quarter => "_1_4"@,
        Unit::Eighth => "_1_8"@,
        Unit::Sixteenth => "_1_16"@,
        Unit::ThirtySecondth => "_1_32"@,
    }
}

/// The unit that an identifier names; anything unknown reads as a quarter.
pub open spec fn unit_of_ident(s: Seq<char>) -> Unit {
    if s == "_1"@ {
        Unit::Whole
    } else if s == "_1_2"@ {
        Unit::Half
    } else if s == "_1_4"@ {
        Unit::Quarter
    } else if s == "_1_8"@ {
        Unit::Eighth
    } else if s == "_1_16"@ {
        Unit::Sixteenth
    } else if s == "_1_32"@ {
        Unit::ThirtySecondth
    } else {
        Unit::Quarter
    }
}

/// Equality of two strings, by their characters.
fn same_text(a: &str, b: &str) -> (r: bool)
    ensures
        r == (a@ == b@),
{
    let x = a.to_owned();
    let y = b.to_owned();
    x == y
}

impl Default for Unit {
    fn default() -> (r: Self)
        ensures
            r == Unit::Quarter,
    {
        Unit::Quarter
    }
}

impl Unit {
    pub open spec fn ticks(self) -> nat {
        unit_ticks(self)
    }

    /// The next finer unit; the 1/32 unit stays as it is.
    pub fn halfed(&self) -> (r: Self)
        ensures
            r == halfed_of(*self),
            *self == Unit::ThirtySecondth ==> r == *self,
            *self != Unit::ThirtySecondth ==> 2 * r.ticks() == self.ticks(),
    {
        match self {
            Unit::Whole => Unit::Half,
            Unit::Half => Unit::Quarter,
            Unit::Quarter => Unit::Eighth,
            Unit::Eighth => Unit::Sixteenth,
            Unit::Sixteenth => Unit::ThirtySecondth,
            Unit::ThirtySecondth => Unit::ThirtySecondth,
        }
    }

    /// The next coarser unit; the whole unit stays as it is.
    pub fn doubled(&self) -> (r: Self)
        ensures
            r == doubled_of(*self),
            *self == Unit::Whole ==> r == *self,
            *self != Unit::Whole ==> r.ticks() == 2 * self.ticks(),
    {
        match self {
            Unit::Whole => Unit::Whole,
            Unit::Half => Unit::Whole,
            Unit::Quarter => Unit::Half,
            Unit::Eighth => Unit::Quarter,
            Unit::Sixteenth => Unit::Eighth,
            Unit::ThirtySecondth => Unit::Sixteenth,
        }
    }

    pub fn to_ident(&self) -> (r: String)
        ensures
            r@ == unit_ident(*self),
    {
        match self {
            Unit::Whole => "_1".to_owned(),
            Unit::Half => "_1_2".to_owned(),
            Unit::Quarter => "_1_4".to_owned(),
            Unit::Eighth => "_1_8".to_owned(),
            Unit::Sixteenth => "_1_16".to_owned(),
            Unit::ThirtySecondth => "_1_32".to_owned(),
        }
    }

    pub fn from_ident(ident: &str) -> (r: Self)
        ensures
            r == unit_of_ident(ident@),
    {
        if same_text(ident, "_1") {
            Unit::Whole
        } else if same_text(ident, "_1_2") {
            Unit::Half
        } else if same_text(ident, "_1_4") {
            Unit::Quarter
        } else if same_text(ident, "_1_8") {
            Unit::Eighth
        } else if same_text(ident, "_1_16") {
            Unit::Sixteenth
        } else if same_text(ident, "_1_32") {
            Unit::ThirtySecondth
        } else {
            Unit::Quarter
        }
    }
}

/// Halving after doubling, and doubling after halving, give the unit back,
/// except where the first step saturated: doubling the whole unit, or halving
/// the 1/32 unit.
pub proof fn lemma_halfed_doubled(u: Unit)
    ensures
        u != Unit::Whole ==> halfed_of(doubled_of(u)) == u,
        u == Unit::Whole ==> doubled_of(u) == u,
        u != Unit::ThirtySecondth ==> doubled_of(halfed_of(u)) == u,
        u == Unit::ThirtySecondth ==> halfed_of(u) == u,
{
}

/// What `Unit::halfed` returns.
pub open spec fn halfed_of(u: Unit) -> Unit {
    match u {
        Unit::Whole => Unit::Half,
        Unit::Half => Unit::Quarter,
        Unit::Quarter => Unit::Eighth,
        Unit::Eighth => Unit::Sixteenth,
        Unit::Sixteenth => Unit::ThirtySecondth,
        Unit::ThirtySecondth => Unit::ThirtySecondth,
    }
}

/// What `Unit::doubled` returns.
pub open spec fn doubled_of(u: Unit) -> Unit {
    match u {
        Unit::Whole => Unit::Whole,
        Unit::Half => Unit::Whole,
        Unit::Quarter => Unit::Half,
        Unit::Eighth => Unit::Quarter,
        Unit::Sixteenth => Unit::Eighth,
        Unit::ThirtySecondth => Unit::Sixteenth,
    }
}

/// A note length: a unit, plain, dotted or as a triplet, or no length at all.
#[derive(Clone, Copy, PartialEq, Eq, Structural, Debug)]
pub enum Duration {
    Zero,
    Simple(Unit),
    Dotted(Unit),
    Triplet(Unit),
    DottedTriplet(Unit),
}

/// Length of a duration in ticks: a dotted note lasts 3/2 of its unit, a
/// triplet 2/3, a dotted triplet 4/3.
pub open spec fn duration_ticks(d: Duration) -> nat {
    match d {
        Duration::Zero => 0,
        Duration::Simple(u) => unit_ticks(u),
        Duration::Dotted(u) => unit_ticks(u) * 3 / 2,
        Duration::Triplet(u) => unit_ticks(u) * 2 / 3,
        Duration::DottedTriplet(u) => unit_ticks(u) * 4 / 3,
    }
}

/// The identifier of a duration, as the notation source writes it.
pub open spec fn duration_ident(d: Duration) -> Seq<char> {
    match d {
        Duration::Zero => "_0"@,
        Duration::Simple(u) => unit_ident(u),
        Duration::Dotted(u) => "D"@ + unit_ident(u),
        Duration::Triplet(u) => "T"@ + unit_ident(u),
        Duration::DottedTriplet(u) => "DT"@ + unit_ident(u),
    }
}

/// The duration that an identifier names; anything unknown reads as `Zero`.
pub open spec fn duration_of_ident(s: Seq<char>) -> Duration {
    if s == "_0"@ {
        Duration::Zero
    } else if s == "_1"@ {
        Duration::Simple(Unit::Whole)
    } else if s == "_1_2"@ {
        Duration::Simple(Unit::Half)
    } else if s == "_1_4"@ {
        Duration::Simple(Unit::Quarter)
    } else if s == "_1_8"@ {
        Duration::Simple(Unit::Eighth)
    } else if s == "_1_16"@ {
        Duration::Simple(Unit::Sixteenth)
    } else if s == "_1_32"@ {
        Duration::Simple(Unit::ThirtySecondth)
    } else if s == "D_1"@ {
        Duration::Dotted(Unit::Whole)
    } else if s == "D_1_2"@ {
        Duration::Dotted(Unit::Half)
    } else if s == "D_1_4"@ {
        Duration::Dotted(Unit::Quarter)
    } else if s == "D_1_8"@ {
        Duration::Dotted(Unit::Eighth)
    } else if s == "D_1_16"@ {
        Duration::Dotted(Unit::Sixteenth)
    } else if s == "D_1_32"@ {
        Duration::Dotted(Unit::ThirtySecondth)
    } else if s == "T_1"@ {
        Duration::Triplet(Unit::Whole)
    } else if s == "T_1_2"@ {
        Duration::Triplet(Unit::Half)
    } else if s == "T_1_4"@ {
        Duration::Triplet(Unit::Quarter)
    } else if s == "T_1_8"@ {
        Duration::Triplet(Unit::Eighth)
    } else if s == "T_1_16"@ {
        Duration::Triplet(Unit::Sixteenth)
    } else if s == "T_1_32"@ {
        Duration::Triplet(Unit::ThirtySecondth)
    } else if s == "DT_1"@ {
        Duration::DottedTriplet(Unit::Whole)
    } else if s == "DT_1_2"@ {
        Duration::DottedTriplet(Unit::Half)
    } else if s == "DT_1_4"@ {
        Duration::DottedTriplet(Unit::Quarter)
    } else if s == "DT_1_8"@ {
        Duration::DottedTriplet(Unit::Eighth)
    } else if s == "DT_1_16"@ {
        Duration::DottedTriplet(Unit::Sixteenth)
    } else if s == "DT_1_32"@ {
        Duration::DottedTriplet(Unit::ThirtySecondth)
    } else {
        Duration::Zero
    }
}

impl Default for Duration {
    fn default() -> (r: Self)
        ensures
            r == Duration::Simple(Unit::Quarter),
    {
        Duration::Simple(Unit::Quarter)
    }
}

impl From<Unit> for Duration {
    fn from(v: Unit) -> (r: Self)
        ensures
            r == Duration::Simple(v),
    {
        Duration::Simple(v)
    }
}

impl vstd::std_specs::convert::FromSpecImpl<Unit> for Duration {
    open spec fn obeys_from_spec() -> bool {
        true
    }

    open spec fn from_spec(v: Unit) -> Self {
        Duration::Simple(v)
    }
}

impl Duration {
    pub open spec fn ticks(self) -> nat {
        duration_ticks(self)
    }

    pub fn is_simple(&self) -> (r: bool)
        ensures
            r == (*self is Simple),
    {
        match self {
            Duration::Simple(_) => true,
            _ => false,
        }
    }

    pub fn as_simple(&self) -> (r: Option<&Unit>)
        ensures
            *self is Simple ==> r == Some(&self->Simple_0),
            !(*self is Simple) ==> r is None,
    {
        match self {
            Duration::Simple(v) => Some(v),
            _ => None,
        }
    }

    pub fn to_ident(&self) -> (r: String)
        ensures
            r@ == duration_ident(*self),
    {
        match self {
            Duration::Zero => "_0".to_owned(),
            Duration::Simple(u) => u.to_ident(),
            Duration::Dotted(u) => {
                let mut s = "D".to_owned();
                s.append(u.to_ident().as_str());
                s
            },
            Duration::Triplet(u) => {
                let mut s = "T".to_owned();
                s.append(u.to_ident().as_str());
                s
            },
            Duration::DottedTriplet(u) => {
                let mut s = "DT".to_owned();
                s.append(u.to_ident().as_str());
                s
            },
        }
    }

    pub fn from_ident(ident: &str) -> (r: Self)
        ensures
            r == duration_of_ident(ident@),
    {
        if same_text(ident, "_0") {
            Duration::Zero
        } else if same_text(ident, "_1") {
            Duration::Simple(Unit::Whole)
        } else if same_text(ident, "_1_2") {
            Duration::Simple(Unit::Half)
        } else if same_text(ident, "_1_4") {
            Duration::Simple(Unit::Quarter)
        } else if same_text(ident, "_1_8") {
            Duration::Simple(Unit::Eighth)
        } else if same_text(ident, "_1_16") {
            Duration::Simple(Unit::Sixteenth)
        } else if same_text(ident, "_1_32") {
            Duration::Simple(Unit::ThirtySecondth)
        } else if same_text(ident, "D_1") {
            Duration::Dotted(Unit::Whole)
        } else if same_text(ident, "D_1_2") {
            Duration::Dotted(Unit::Half)
        } else if same_text(ident, "D_1_4") {
            Duration::Dotted(Unit::Quarter)
        } else if same_text(ident, "D_1_8") {
            Duration::Dotted(Unit::Eighth)
        } else if same_text(ident, "D_1_16") {
            Duration::Dotted(Unit::Sixteenth)
        } else if same_text(ident, "D_1_32") {
            Duration::Dotted(Unit::ThirtySecondth)
        } else if same_text(ident, "T_1") {
            Duration::Triplet(Unit::Whole)
        } else if same_text(ident, "T_1_2") {
            Duration::Triplet(Unit::Half)
        } else if same_text(ident, "T_1_4") {
            Duration::Triplet(Unit::Quarter)
        } else if same_text(ident, "T_1_8") {
            Duration::Triplet(Unit::Eighth)
        } else if same_text(ident, "T_1_16") {
            Duration::Triplet(Unit::Sixteenth)
        } else if same_text(ident, "T_1_32") {
            Duration::Triplet(Unit::ThirtySecondth)
        } else if same_text(ident, "DT_1") {
            Duration::DottedTriplet(Unit::Whole)
        } else if same_text(ident, "DT_1_2") {
            Duration::DottedTriplet(Unit::Half)
        } else if same_text(ident, "DT_1_4") {
            Duration::DottedTriplet(Unit::Quarter)
        } else if same_text(ident, "DT_1_8") {
            Duration::DottedTriplet(Unit::Eighth)
        } else if same_text(ident, "DT_1_16") {
            Duration::DottedTriplet(Unit::Sixteenth)
        } else if same_text(ident, "DT_1_32") {
            Duration::DottedTriplet(Unit::ThirtySecondth)
        } else {
            Duration::Zero
        }
    }
}

/// A length as a whole number of ticks; `Units(TICKS_PER_WHOLE)` is one whole
/// note. Lengths here are exact, so two of them compare without a tolerance:
/// the smallest nonzero difference, one tick, is far above any rounding that a
/// float representation would have to absorb.
#[derive(Clone, Copy, PartialEq, Eq, Structural, Debug)]
pub struct Units(pub u128);

impl Default for Units {
    fn default() -> (r: Self)
        ensures
            r.0 == 0,
    {
        Units(0)
    }
}

impl Units {
    /// True when this length exceeds the other one.
    pub fn is_bigger_than(&self, other: &Units) -> (r: bool)
        ensures
            r == (self.0 > other.0),
    {
        self.0 > other.0
    }

    pub fn cmp(&self, other: &Self) -> (r: core::cmp::Ordering)
        ensures
            self.0 == other.0 ==> r == core::cmp::Ordering::Equal,
            self.0 < other.0 ==> r == core::cmp::Ordering::Less,
            self.0 > other.0 ==> r == core::cmp::Ordering::Greater,
    {
        if self.0 == other.0 {
            core::cmp::Ordering::Equal
        } else if self.0 < other.0 {
            core::cmp::Ordering::Less
        } else {
            core::cmp::Ordering::Greater
        }
    }
}

impl From<Unit> for Units {
    fn from(v: Unit) -> (r: Self)
        ensures
            r.0 == unit_ticks(v),
    {
        match v {
            Unit::Whole => Units(192),
            Unit::Half => Units(96),
            Unit::Quarter => Units(48),
            Unit::Eighth => Units(24),
            Unit::Sixteenth => Units(12),
            Unit::ThirtySecondth => Units(6),
        }
    }
}

impl vstd::std_specs::convert::FromSpecImpl<Unit> for Units {
    open spec fn obeys_from_spec() -> bool {
        true
    }

    open spec fn from_spec(v: Unit) -> Self {
        Units(unit_ticks(v) as u128)
    }
}

impl From<Duration> for Units {
    fn from(v: Duration) -> (r: Self)
        ensures
            r.0 == duration_ticks(v),
    {
        match v {
            Duration::Zero => Units(0),
            Duration::Simple(u) => Units::from(u),
            Duration::Dotted(u) => Units(Units::from(u).0 * 3 / 2),
            Duration::Triplet(u) => Units(Units::from(u).0 * 2 / 3),
            Duration::DottedTriplet(u) => Units(Units::from(u).0 * 4 / 3),
        }
    }
}

impl vstd::std_specs::convert::FromSpecImpl<Duration> for Units {
    open spec fn obeys_from_spec() -> bool {
        true
    }

    open spec fn from_spec(v: Duration) -> Self {
        Units(duration_ticks(v) as u128)
    }
}

/// The longest length a single duration can have: a dotted whole note.
pub proof fn lemma_duration_ticks_bound(d: Duration)
    ensures
        duration_ticks(d) <= 288,
{
}

/// The length table of durations: a unit 1/n of a whole note lasts
/// `TICKS_PER_WHOLE / n` ticks; a dotted note lasts 3/2 of its unit, a triplet
/// 2/3 and a dotted triplet 4/3, each exactly; `Zero` lasts nothing.
pub proof fn lemma_duration_table(u: Unit)
    ensures
        duration_ticks(Duration::Zero) == 0,
        duration_ticks(Duration::Simple(u)) == unit_ticks(u),
        2 * duration_ticks(Duration::Dotted(u)) == 3 * unit_ticks(u),
        3 * duration_ticks(Duration::Triplet(u)) == 2 * unit_ticks(u),
        3 * duration_ticks(Duration::DottedTriplet(u)) == 4 * unit_ticks(u),
        unit_ticks(Unit::Whole) == TICKS_PER_WHOLE,
        2 * unit_ticks(Unit::Half) == TICKS_PER_WHOLE,
        4 * unit_ticks(Unit::Quarter) == TICKS_PER_WHOLE,
        8 * unit_ticks(Unit::Eighth) == TICKS_PER_WHOLE,
        16 * unit_ticks(Unit::Sixteenth) == TICKS_PER_WHOLE,
        32 * unit_ticks(Unit::ThirtySecondth) == TICKS_PER_WHOLE,
{
}

/// A time signature: `bar_beats` beats of `beat_unit` to the bar.
#[derive(Clone, Copy, PartialEq, Eq, Structural, Debug)]
pub struct Signature {
    pub beat_unit: Unit,
    pub bar_beats: u8,
}

/// Length of one bar in ticks.
pub open spec fn signature_ticks(s: Signature) -> nat {
    (s.bar_beats as nat) * unit_ticks(s.beat_unit)
}

impl Signature {
    pub fn new(beat_unit: Unit, bar_beats: u8) -> (r: Self)
        ensures
            r.beat_unit == beat_unit,
            r.bar_beats == bar_beats,
    {
        Signature { beat_unit, bar_beats }
    }
}

impl Default for Signature {
    fn default() -> (r: Self)
        ensures
            r.beat_unit == Unit::Quarter,
            r.bar_beats == 4,
    {
        Signature { beat_unit: Unit::Quarter, bar_beats: 4 }
    }
}

impl From<Signature> for Units {
    fn from(v: Signature) -> (r: Self)
        ensures
            r.0 == signature_ticks(v),
    {
        let u = Units::from(v.beat_unit);
        assert(v.bar_beats * unit_ticks(v.beat_unit) <= 255 * 192) by (nonlinear_arith)
            requires
                v.bar_beats <= 255,
                unit_ticks(v.beat_unit) <= 192,
        ;
        Units(v.bar_beats as u128 * u.0)
    }
}

impl vstd::std_specs::convert::FromSpecImpl<Signature> for Units {
    open spec fn obeys_from_spec() -> bool {
        true
    }

    open spec fn from_spec(v: Signature) -> Self {
        Units(signature_ticks(v) as u128)
    }
}

} // verus!
