use particles::{
    record_message, saturating_add, saturating_mul, saturating_sub, ButtonState, Color,
    InputState, MouseState, Pixel, Vec2, HEIGHT, WIDTH,
};

#[test]
fn color_packs_one_byte_per_channel() {
    let terracotta = Color::new(216, 81, 33, 255);
    assert_eq!(terracotta.to_u32(), 0xFF2151D8);
    let black = Color::new(0, 0, 0, 255);
    assert_eq!(black.to_u32(), 0xFF000000);
    let c = Color::new(1, 2, 3, 4);
    assert_eq!(c.to_u32(), 0x04030201);
}

#[test]
fn pixel_index_is_row_major() {
    assert_eq!(Pixel::new(0, 0).to_index(), 0);
    assert_eq!(Pixel::new(300, 300).to_index(), 300 * WIDTH + 300);
    assert_eq!(
        Pixel::new((WIDTH - 1) as u32, (HEIGHT - 1) as u32).to_index(),
        WIDTH * HEIGHT - 1
    );
}

#[test]
fn center_pixel_maps_to_origin() {
    let pos = Pixel::new(300, 300).to_pos();
    assert_eq!(pos, Vec2 { x: 0, y: 0 });
}

#[test]
fn to_pos_flips_y_and_centers() {
    // One pixel right and one down from the top-left corner, in sub-units.
    let pos = Pixel::new(1, 1).to_pos();
    assert_eq!(pos, Vec2 { x: -2990, y: 2990 });
}

#[test]
fn pixel_roundtrip_inside_canvas() {
    for &(x, y) in &[(0u32, 0u32), (1, 599), (299, 300), (300, 300), (599, 0), (599, 599)] {
        let px = Pixel::new(x, y);
        assert_eq!(px.to_pos().to_px(), Some(px));
    }
}

#[test]
fn to_px_clips_points_off_canvas() {
    assert_eq!(Vec2::new(3000, 0).to_px(), None);
    assert_eq!(Vec2::new(-3001, 0).to_px(), None);
    assert_eq!(Vec2::new(0, 3001).to_px(), None);
    assert_eq!(Vec2::new(0, -3000).to_px(), None);
    // The inclusive corners stay on the canvas.
    assert_eq!(Vec2::new(2999, -2999).to_px(), Some(Pixel { x: 599, y: 599 }));
    assert_eq!(Vec2::new(-3000, 3000).to_px(), Some(Pixel { x: 0, y: 0 }));
}

#[test]
fn to_px_truncates_sub_pixel_positions() {
    // Nine sub-units short of a whole pixel still lands on that pixel.
    assert_eq!(Vec2::new(9, 0).to_px(), Some(Pixel { x: 300, y: 300 }));
    assert_eq!(Vec2::new(10, 0).to_px(), Some(Pixel { x: 301, y: 300 }));
    assert_eq!(Vec2::new(0, 9).to_px(), Some(Pixel { x: 300, y: 299 }));
}

#[test]
fn vector_addition_is_componentwise() {
    let v = Vec2::new(3, -4).add(Vec2::new(10, 20));
    assert_eq!(v, Vec2 { x: 13, y: 16 });
    let w = Vec2::new(3, -4).sub(Vec2::new(10, 20));
    assert_eq!(w, Vec2 { x: -7, y: -24 });
}

#[test]
fn coordinate_sums_saturate_at_range_ends() {
    assert_eq!(saturating_add(i64::MAX, 1), i64::MAX);
    assert_eq!(saturating_add(i64::MIN, -1), i64::MIN);
    assert_eq!(saturating_add(5, 7), 12);
    assert_eq!(saturating_sub(i64::MIN, 1), i64::MIN);
    assert_eq!(saturating_sub(i64::MAX, -1), i64::MAX);
    assert_eq!(saturating_sub(5, 7), -2);
}

#[test]
fn vector_products_are_componentwise_and_saturate() {
    assert_eq!(Vec2::new(3, -4).mul(Vec2::new(10, 20)), Vec2 { x: 30, y: -80 });
    assert_eq!(Vec2::new(2, -3).scale(5), Vec2 { x: 10, y: -15 });
    assert_eq!(saturating_mul(i64::MAX, 2), i64::MAX);
    assert_eq!(saturating_mul(i64::MAX, -2), i64::MIN);
    assert_eq!(saturating_mul(-7, 6), -42);
}

#[test]
fn messages_copy_truncated_into_fixed_buffers() {
    let mut small = vec![0u8; 5];
    record_message(&mut small, b"overflowing");
    assert_eq!(small, b"overf");
    let mut roomy = vec![9u8; 8];
    record_message(&mut roomy, b"hi");
    assert_eq!(roomy, [b'h', b'i', 9, 9, 9, 9, 9, 9]);
}

#[test]
fn button_codes_decode_to_states() {
    assert_eq!(ButtonState::from(0), ButtonState::Released);
    assert_eq!(ButtonState::from(1), ButtonState::Pressed);
    // Any unknown code falls back to released.
    assert_eq!(ButtonState::from(2), ButtonState::Released);
    assert_eq!(ButtonState::from(255), ButtonState::Released);
}

#[test]
fn default_input_is_idle_at_origin() {
    let input = InputState::default();
    assert_eq!(input.frame, 0);
    assert!(!input.dt_positive);
    assert_eq!(input.mouse, MouseState {
        position: Vec2 { x: 0, y: 0 },
        left_button: ButtonState::Released,
        right_button: ButtonState::Released,
    });
}
