use trefoil_portal::membrane::{Arc, RegionTests};

fn tests_of(bits: u8) -> RegionTests {
    RegionTests {
        x_positive: bits & 1 != 0,
        left_of_rising: bits & 2 != 0,
        left_of_falling: bits & 4 != 0,
        outer: bits & 8 != 0,
    }
}

#[test]
fn arc_labels() {
    assert_eq!(Arc::A.label(), 1);
    assert_eq!(Arc::B.label(), 5);
    assert_eq!(Arc::C.label(), 3);
}

#[test]
fn membrane_sign_follows_parity() {
    for bits in 0u8..16 {
        let t = tests_of(bits);
        let expected = if bits.count_ones() % 2 == 1 { -1 } else { 1 };
        assert_eq!(t.membrane_sign(), expected, "bits {}", bits);
    }
}

#[test]
fn membrane_sign_examples() {
    // the point (2, 0): only x > 0 and r > 1.5 hold, an even count
    let t = RegionTests { x_positive: true, left_of_rising: false, left_of_falling: false, outer: true };
    assert_eq!(t.membrane_sign(), 1);
    // the point (1, 0): only x > 0 holds
    let t = RegionTests { x_positive: true, left_of_rising: false, left_of_falling: false, outer: false };
    assert_eq!(t.membrane_sign(), -1);
}

#[test]
fn arc_base_formula_on_all_outcomes() {
    for bits in 0u8..16 {
        let t = tests_of(bits);
        let strand = if t.x_positive {
            if t.left_of_falling { 3 } else { 5 }
        } else if t.left_of_rising {
            1
        } else {
            3
        };
        let expected = strand + if t.outer { 0 } else { 2 };
        assert_eq!(t.arc_base(), expected, "bits {}", bits);
    }
}

#[test]
fn arc_base_examples() {
    // outer ring, top left sector: arc A
    let a = RegionTests { x_positive: false, left_of_rising: true, left_of_falling: false, outer: true };
    assert_eq!(a.arc_base(), 1);
    // outer ring, right sector: arc B
    let b = RegionTests { x_positive: true, left_of_rising: false, left_of_falling: false, outer: true };
    assert_eq!(b.arc_base(), 5);
    // outer ring, bottom sector: arc C
    let c = RegionTests { x_positive: true, left_of_rising: false, left_of_falling: true, outer: true };
    assert_eq!(c.arc_base(), 3);
    // inner disk, right sector
    let inner = RegionTests { x_positive: true, left_of_rising: false, left_of_falling: false, outer: false };
    assert_eq!(inner.arc_base(), 7);
}

#[test]
fn crossed_arc_follows_diagram() {
    let cases = [
        // (x > 0, x < y√3, x < -y√3, r > 1.5) and the arc of the diagram
        ((false, true, false, true), Arc::A),
        ((true, false, false, true), Arc::B),
        ((true, false, true, true), Arc::C),
        ((false, true, false, false), Arc::C),
        ((true, false, false, false), Arc::A),
        ((true, false, true, false), Arc::B),
    ];
    for ((p, r, f, o), arc) in cases {
        let t = RegionTests { x_positive: p, left_of_rising: r, left_of_falling: f, outer: o };
        assert_eq!(t.crossed_arc(), arc);
    }
}

#[test]
fn crossed_arc_label_agrees_with_base() {
    for bits in 0u8..16 {
        let t = tests_of(bits);
        assert_eq!(t.crossed_arc().label(), t.arc_base().rem_euclid(6), "bits {}", bits);
    }
}
