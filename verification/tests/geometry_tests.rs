use epd_driver::{NormalRectangle, EightSizedRectangle};

fn byte_width(pixel_width: u16) -> u16 {
    EightSizedRectangle::from(NormalRectangle::new(0, 0, pixel_width, 1)).width
}

#[test]
fn byte_width_of_zero_is_one() {
    assert_eq!(byte_width(0), 1);
}

#[test]
fn byte_width_of_eight_is_one() {
    assert_eq!(byte_width(8), 1);
}

#[test]
fn byte_width_of_nine_is_two() {
    assert_eq!(byte_width(9), 2);
}

#[test]
fn byte_width_matches_ceiling_up_to_4096() {
    for w in 0u16..=4096 {
        let expected = std::cmp::max(1, (w as u32 + 7) / 8) as u16;
        assert_eq!(byte_width(w), expected, "pixel width {}", w);
    }
}

#[test]
fn conversion_carries_x_y_height_through() {
    let rect = NormalRectangle::new(3, 17, 30, 90);
    let eight = EightSizedRectangle::from(rect);
    assert_eq!(eight.x, 3);
    assert_eq!(eight.y, 17);
    assert_eq!(eight.width, 4);
    assert_eq!(eight.height, 90);
}

#[test]
fn normal_rectangle_new_sets_fields() {
    let rect = NormalRectangle::new(1, 2, 3, 4);
    assert_eq!(rect.x, 1);
    assert_eq!(rect.y, 2);
    assert_eq!(rect.width, 3);
    assert_eq!(rect.height, 4);
}

#[test]
fn eight_sized_rectangle_new_sets_fields() {
    let rect = EightSizedRectangle::new(5, 6, 7, 8);
    assert_eq!(rect.x, 5);
    assert_eq!(rect.y, 6);
    assert_eq!(rect.width, 7);
    assert_eq!(rect.height, 8);
}

#[test]
fn xywh_widens_the_fields() {
    let rect = NormalRectangle::new(9, 10, 11, 12);
    assert_eq!(rect.xywh(), (9usize, 10usize, 11usize, 12usize));
}
