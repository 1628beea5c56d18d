use risk::actions::{attacking_allowed, defending_allowed, max_allowed};
use risk::combat::{resolve, DRAW_SCALE};

#[test]
fn draws_are_counted_in_millionths() {
    assert_eq!(DRAW_SCALE, 1_000_000);
}

#[test]
fn one_against_one_at_the_boundary() {
    assert_eq!(resolve(1, 1, 0), (1, 0));
    assert_eq!(resolve(1, 1, 583_299), (1, 0));
    assert_eq!(resolve(1, 1, 583_300), (1, 0));
    assert_eq!(resolve(1, 1, 583_301), (0, 1));
    assert_eq!(resolve(1, 1, 999_999), (0, 1));
}

#[test]
fn two_against_one_at_the_boundary() {
    assert_eq!(resolve(2, 1, 421_300), (1, 0));
    assert_eq!(resolve(2, 1, 421_301), (0, 1));
}

#[test]
fn three_against_one_at_the_boundary() {
    assert_eq!(resolve(3, 1, 340_300), (1, 0));
    assert_eq!(resolve(3, 1, 340_301), (0, 1));
}

#[test]
fn one_against_two_at_the_boundary() {
    assert_eq!(resolve(1, 2, 745_400), (1, 0));
    assert_eq!(resolve(1, 2, 745_401), (0, 1));
}

#[test]
fn two_against_two_at_the_boundaries() {
    assert_eq!(resolve(2, 2, 0), (2, 0));
    assert_eq!(resolve(2, 2, 448_300), (2, 0));
    assert_eq!(resolve(2, 2, 448_301), (0, 2));
    assert_eq!(resolve(2, 2, 675_900), (0, 2));
    assert_eq!(resolve(2, 2, 675_901), (1, 1));
    assert_eq!(resolve(2, 2, 999_999), (1, 1));
}

#[test]
fn three_against_two_at_the_boundaries() {
    assert_eq!(resolve(3, 2, 292_600), (2, 0));
    assert_eq!(resolve(3, 2, 292_601), (0, 2));
    assert_eq!(resolve(3, 2, 664_300), (0, 2));
    assert_eq!(resolve(3, 2, 664_301), (1, 1));
}

#[test]
fn the_same_draw_gives_the_same_losses() {
    for attacking in 1..=3u16 {
        for defending in 1..=2u16 {
            let mut draw = 0u32;
            while draw < DRAW_SCALE {
                assert_eq!(resolve(attacking, defending, draw), resolve(attacking, defending, draw));
                draw += 9_973;
            }
        }
    }
}

#[test]
fn losses_add_up_to_the_armies_at_stake() {
    for attacking in 1..=3u16 {
        for defending in 1..=2u16 {
            let at_stake = if attacking < defending { attacking } else { defending };
            let mut draw = 0u32;
            while draw < DRAW_SCALE {
                let (lost, killed) = resolve(attacking, defending, draw);
                assert_eq!(lost + killed, at_stake);
                assert!(lost <= attacking);
                assert!(killed <= defending);
                draw += 7_919;
            }
        }
    }
}

#[test]
fn a_draw_beyond_the_scale_selects_the_last_outcome() {
    assert_eq!(resolve(1, 1, u32::MAX), (0, 1));
    assert_eq!(resolve(3, 2, u32::MAX), (1, 1));
}

#[test]
fn pools_are_capped() {
    assert_eq!(attacking_allowed(0), 0);
    assert_eq!(attacking_allowed(1), 1);
    assert_eq!(attacking_allowed(3), 3);
    assert_eq!(attacking_allowed(4), 3);
    assert_eq!(attacking_allowed(u16::MAX), 3);
    assert_eq!(defending_allowed(1), 1);
    assert_eq!(defending_allowed(2), 2);
    assert_eq!(defending_allowed(9), 2);
    assert_eq!(max_allowed(7, 5), 5);
    assert_eq!(max_allowed(5, 7), 5);
    assert_eq!(max_allowed(5, 5), 5);
}
