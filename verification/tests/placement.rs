use fathomable::placement::{center_span, top_third};

#[test]
fn fitting_span_is_centered_with_even_height_rounding_up_below() {
    assert_eq!(center_span(10..14, 13..14, 10, 100), 7);
    assert_eq!(center_span(10..15, 14..15, 10, 100), 8);
}

#[test]
fn overflowing_span_centers_priority_start_and_clamps() {
    assert_eq!(center_span(2..30, 20..25, 10, 100), 16);
    assert_eq!(center_span(0..30, 2..3, 10, 100), 0);
    assert_eq!(center_span(90..120, 115..120, 10, 108), 108);
}

#[test]
fn top_third_uses_exact_floor_semantics() {
    assert_eq!(top_third(10, 1, 100), 10);
    assert_eq!(top_third(10, 8, 100), 8);
    assert_eq!(top_third(10, 9, 100), 8);
    assert_eq!(top_third(2, 9, 100), 0);
    assert_eq!(top_third(20, 9, 11), 11);
}

#[test]
fn a_zero_height_body_counts_as_one_row() {
    assert_eq!(center_span(5..6, 5..6, 0, 100), 5);
    assert_eq!(center_span(5..8, 6..7, 0, 100), 6);
    assert_eq!(top_third(4, 0, 100), 4);
}

#[test]
fn an_empty_or_reversed_span_is_centred_on_its_start() {
    assert_eq!(center_span(10..10, 10..10, 9, 100), 6);
    assert_eq!(center_span(10..4, 0..0, 9, 100), 6);
}

#[test]
fn fitting_span_stays_visible_after_centring() {
    let top = center_span(40..45, 40..41, 12, 500);
    assert!(top <= 40 && 45 <= top + 12);
    assert_eq!(top, 37);
}
