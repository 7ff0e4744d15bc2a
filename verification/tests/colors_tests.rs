use arenae::colormap_editor::{can_remove_stop, selection_after_removal};
use arenae::colors::{color_position, ColorMode, ColorPosition, ParticleMetadata};

#[test]
fn particle_metadata_new_sets_fields() {
    let m = ParticleMetadata::new(42, 3, 9);
    assert_eq!(m.creation_frame, 42);
    assert_eq!(m.stationary_frames, 0);
    assert_eq!(m.last_x, 3);
    assert_eq!(m.last_y, 9);
}

#[test]
fn creation_time_cycles_with_the_period() {
    let m = ParticleMetadata::new(1234, 0, 0);
    let p = color_position(ColorMode::CreationTime, &m, 500, 0, 0, 600);
    assert_eq!(p, ColorPosition { numerator: 234, denominator: 500, complement: false });
    let q = color_position(ColorMode::CreationTime, &ParticleMetadata::new(500, 0, 0), 500, 0, 0, 600);
    assert_eq!(q.numerator, 0);
}

#[test]
fn age_saturates_at_one_hundred_frames() {
    let mut m = ParticleMetadata::new(0, 0, 0);
    m.stationary_frames = 42;
    assert_eq!(
        color_position(ColorMode::Age, &m, 500, 0, 0, 600),
        ColorPosition { numerator: 42, denominator: 100, complement: false }
    );
    m.stationary_frames = 250;
    assert_eq!(
        color_position(ColorMode::Age, &m, 500, 0, 0, 600),
        ColorPosition { numerator: 100, denominator: 100, complement: false }
    );
    m.stationary_frames = 100;
    assert_eq!(color_position(ColorMode::Age, &m, 500, 0, 0, 600).numerator, 100);
}

#[test]
fn height_counts_from_the_top() {
    let m = ParticleMetadata::new(0, 0, 0);
    assert_eq!(
        color_position(ColorMode::Height, &m, 500, 7, 150, 600),
        ColorPosition { numerator: 150, denominator: 600, complement: true }
    );
}

#[test]
fn random_is_fixed_per_particle() {
    let m = ParticleMetadata::new(998, 0, 0);
    assert_eq!(
        color_position(ColorMode::Random, &m, 500, 1, 3, 600),
        ColorPosition { numerator: 2, denominator: 1000, complement: false }
    );
    let a = color_position(ColorMode::Random, &m, 500, 17, 4, 600);
    let b = color_position(ColorMode::Random, &m, 900, 17, 4, 10);
    assert_eq!(a, b);
    assert_eq!(a.numerator, 19);
}

#[test]
fn positions_stay_in_unit_range() {
    let mut m = ParticleMetadata::new(987_654, 0, 0);
    m.stationary_frames = 12345;
    for mode in [ColorMode::CreationTime, ColorMode::Age, ColorMode::Height, ColorMode::Random] {
        for y in 0..600 {
            let p = color_position(mode, &m, 333, 799, y, 600);
            assert!(p.denominator > 0);
            assert!(p.numerator <= p.denominator);
        }
    }
}

#[test]
fn selection_after_removal_cases() {
    assert_eq!(selection_after_removal(None, 0), None);
    assert_eq!(selection_after_removal(Some(1), 1), None);
    assert_eq!(selection_after_removal(Some(3), 1), Some(2));
    assert_eq!(selection_after_removal(Some(0), 1), Some(0));
}

#[test]
fn selection_keeps_pointing_at_its_stop() {
    let stops = vec!["a", "b", "c", "d"];
    for removed in 0..4 {
        for selected in 0..4 {
            let mut left = stops.clone();
            left.remove(removed);
            match selection_after_removal(Some(selected), removed) {
                Some(i) => assert_eq!(left[i], stops[selected]),
                None => assert_eq!(selected, removed),
            }
        }
    }
}

#[test]
fn at_least_two_stops_remain() {
    assert!(!can_remove_stop(0));
    assert!(!can_remove_stop(2));
    assert!(can_remove_stop(3));
    assert!(can_remove_stop(10));
}
