use polynomial_solver::wall_spacer::{draw_frame, pad_center};

#[test]
fn frames_are_marked_at_their_centre() {
    assert_eq!(draw_frame(0), "");
    assert_eq!(draw_frame(1), "^");
    assert_eq!(draw_frame(2), "^^");
    assert_eq!(draw_frame(3), "+^+");
    assert_eq!(draw_frame(4), "+^^+");
    assert_eq!(draw_frame(7), "+++^+++");
    assert_eq!(draw_frame(8), "+++^^+++");
}

#[test]
fn centre_points_are_padded_on_both_sides() {
    assert_eq!(pad_center("35.5"), "  35.5  ");
    assert_eq!(pad_center("129.5"), " 129.5 ");
    assert_eq!(pad_center("9.5"), "  9.5  ");
    assert_eq!(pad_center("1234.5"), " 1234.5 ");
    assert_eq!(pad_center(""), "        ");
    assert_eq!(pad_center("12345.5"), "12345.5");
    assert_eq!(pad_center("123456.5"), "123456.5");
    assert_eq!(pad_center("2"), "   2   ");
}
