use notation_model::duration::{Duration, Signature, Unit, Units, TICKS_PER_WHOLE};

const ALL_UNITS: [Unit; 6] = [
    Unit::Whole,
    Unit::Half,
    Unit::Quarter,
    Unit::Eighth,
    Unit::Sixteenth,
    Unit::ThirtySecondth,
];

fn whole_fraction(u: Units) -> f64 {
    u.0 as f64 / TICKS_PER_WHOLE as f64
}

#[test]
fn halfed_and_doubled_step_one_unit() {
    assert_eq!(Unit::Whole.halfed(), Unit::Half);
    assert_eq!(Unit::Quarter.halfed(), Unit::Eighth);
    assert_eq!(Unit::Sixteenth.halfed(), Unit::ThirtySecondth);
    assert_eq!(Unit::Half.doubled(), Unit::Whole);
    assert_eq!(Unit::Eighth.doubled(), Unit::Quarter);
    assert_eq!(Unit::ThirtySecondth.doubled(), Unit::Sixteenth);
}

#[test]
fn halfed_and_doubled_saturate_at_the_ends() {
    assert_eq!(Unit::ThirtySecondth.halfed(), Unit::ThirtySecondth);
    assert_eq!(Unit::Whole.doubled(), Unit::Whole);
}

#[test]
fn halfed_doubled_round_trip_except_at_extremes() {
    for u in ALL_UNITS {
        if u != Unit::Whole {
            assert_eq!(u.doubled().halfed(), u);
        } else {
            assert_eq!(u.doubled().halfed(), Unit::Half);
        }
        if u != Unit::ThirtySecondth {
            assert_eq!(u.halfed().doubled(), u);
        } else {
            assert_eq!(u.halfed().doubled(), Unit::Sixteenth);
        }
    }
}

#[test]
fn unit_lengths() {
    let expected = [1.0, 0.5, 0.25, 0.125, 0.0625, 0.03125];
    for (u, e) in ALL_UNITS.iter().zip(expected.iter()) {
        assert_eq!(whole_fraction(Units::from(*u)), *e);
    }
}

#[test]
fn duration_multiplier_table() {
    assert_eq!(whole_fraction(Units::from(Duration::Dotted(Unit::Half))), 0.75);
    assert_eq!(Units::from(Duration::Triplet(Unit::Quarter)).0 * 6, TICKS_PER_WHOLE);
    assert_eq!(Units::from(Duration::DottedTriplet(Unit::Eighth)).0 * 6, TICKS_PER_WHOLE);
    assert_eq!(Units::from(Duration::Zero), Units(0));
    for u in ALL_UNITS {
        let base = Units::from(u).0;
        assert_eq!(Units::from(Duration::Simple(u)).0, base);
        assert_eq!(Units::from(Duration::Dotted(u)).0 * 2, base * 3);
        assert_eq!(Units::from(Duration::Triplet(u)).0 * 3, base * 2);
        assert_eq!(Units::from(Duration::DottedTriplet(u)).0 * 3, base * 4);
    }
}

#[test]
fn unit_idents() {
    assert_eq!(Unit::Half.to_ident(), "_1_2");
    assert_eq!(Unit::ThirtySecondth.to_ident(), "_1_32");
    for u in ALL_UNITS {
        assert_eq!(Unit::from_ident(&u.to_ident()), u);
    }
    assert_eq!(Unit::from_ident("nonsense"), Unit::Quarter);
}

#[test]
fn duration_idents() {
    assert_eq!(Duration::Zero.to_ident(), "_0");
    assert_eq!(Duration::Simple(Unit::Quarter).to_ident(), "_1_4");
    assert_eq!(Duration::Dotted(Unit::Half).to_ident(), "D_1_2");
    assert_eq!(Duration::Triplet(Unit::Eighth).to_ident(), "T_1_8");
    assert_eq!(Duration::DottedTriplet(Unit::Sixteenth).to_ident(), "DT_1_16");
    assert_eq!(Duration::from_ident("DT_1_32"), Duration::DottedTriplet(Unit::ThirtySecondth));
    assert_eq!(Duration::from_ident("D_1"), Duration::Dotted(Unit::Whole));
    assert_eq!(Duration::from_ident("what"), Duration::Zero);
    for u in ALL_UNITS {
        for d in [
            Duration::Simple(u),
            Duration::Dotted(u),
            Duration::Triplet(u),
            Duration::DottedTriplet(u),
        ] {
            assert_eq!(Duration::from_ident(&d.to_ident()), d);
        }
    }
}

#[test]
fn simple_durations() {
    assert!(Duration::Simple(Unit::Eighth).is_simple());
    assert!(!Duration::Dotted(Unit::Eighth).is_simple());
    assert_eq!(Duration::Simple(Unit::Eighth).as_simple(), Some(&Unit::Eighth));
    assert_eq!(Duration::Zero.as_simple(), None);
    assert_eq!(Duration::from(Unit::Half), Duration::Simple(Unit::Half));
    assert_eq!(Duration::default(), Duration::Simple(Unit::Quarter));
    assert_eq!(Unit::default(), Unit::Quarter);
}

#[test]
fn units_compare_exactly() {
    let a = Units::from(Duration::Triplet(Unit::Eighth));
    let b = Units::from(Duration::Triplet(Unit::Eighth));
    let c = Units::from(Unit::Sixteenth);
    assert!(!a.is_bigger_than(&b));
    assert!(a.is_bigger_than(&c));
    assert!(!c.is_bigger_than(&a));
    assert_eq!(a.cmp(&b), std::cmp::Ordering::Equal);
    assert_eq!(c.cmp(&a), std::cmp::Ordering::Less);
    assert_eq!(a.cmp(&c), std::cmp::Ordering::Greater);
}

#[test]
fn signature_bar_units() {
    assert_eq!(Units::from(Signature::default()), Units::from(Unit::Whole));
    assert_eq!(whole_fraction(Units::from(Signature::new(Unit::Eighth, 6))), 0.75);
    assert_eq!(Units::from(Signature::new(Unit::Quarter, 0)), Units(0));
}
