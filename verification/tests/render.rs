use particles::scene::{Particle, Scene};
use particles::{ButtonState, Color, InputState, MouseState, Pixel, Vec2, HEIGHT, WIDTH};

const TERRACOTTA: u32 = 0xFF2151D8;
const BLACK: u32 = 0xFF000000;

fn pressed_at_center(frame: u32, dt_positive: bool) -> InputState {
    InputState {
        frame,
        dt_positive,
        mouse: MouseState {
            // Raw mouse pixel (300, 300) is the canvas center, simulation (0, 0).
            position: Pixel::new(300, 300).to_pos(),
            left_button: ButtonState::from(1),
            right_button: ButtonState::from(0),
        },
    }
}

#[test]
fn empty_scene_renders_all_black() {
    let s = Scene::new();
    let mut buf = vec![7u32; WIDTH * HEIGHT];
    s.render(&mut buf);
    assert_eq!(buf.len(), WIDTH * HEIGHT);
    assert!(buf.iter().all(|&c| c == BLACK));
}

#[test]
fn center_click_without_time_paints_the_center_pixel() {
    let mut s = Scene::new();
    s.update(pressed_at_center(0, false));
    assert_eq!(s.particles.len(), 10);
    for p in &s.particles {
        assert_eq!(p.pos, Vec2 { x: 0, y: 0 });
    }
    let mut buf = vec![0u32; WIDTH * HEIGHT];
    s.render(&mut buf);
    // All ten particles share the center pixel; the last write wins.
    let center = Pixel::new(300, 300).to_index();
    assert_eq!(buf[center], TERRACOTTA);
    assert_eq!(buf.iter().filter(|&&c| c == TERRACOTTA).count(), 1);
}

#[test]
fn center_click_with_time_moves_particles_before_painting() {
    let mut s = Scene::new();
    s.update(pressed_at_center(0, true));
    assert_eq!(s.particles.len(), 10);
    // The same update already integrated once: each particle sits one
    // velocity step away from the shared spawn position.
    for p in &s.particles {
        assert_eq!(p.pos, Vec2 { x: p.velocity.x, y: p.velocity.y + 2 });
    }
    let mut buf = vec![0u32; WIDTH * HEIGHT];
    s.render(&mut buf);
    // The last-spawned particle moved to (4, 30) sub-units: pixel (300, 297).
    assert_eq!(s.particles[9].pos, Vec2 { x: 4, y: 30 });
    assert_eq!(buf[Pixel::new(300, 297).to_index()], TERRACOTTA);
    // The center pixel itself was left behind.
    assert_eq!(buf[Pixel::new(300, 300).to_index()], BLACK);
}

#[test]
fn later_particles_overwrite_earlier_on_shared_pixels() {
    let mut s = Scene::new();
    s.particles = vec![
        Particle {
            color: Color::new(10, 20, 30, 255),
            start_frame: 0,
            lifetime: 100,
            pos: Vec2::new(0, 0),
            velocity: Vec2::new(0, 0),
        },
        Particle {
            color: Color::new(40, 50, 60, 255),
            start_frame: 0,
            lifetime: 100,
            pos: Vec2::new(0, 0),
            velocity: Vec2::new(0, 0),
        },
    ];
    let mut buf = vec![0u32; WIDTH * HEIGHT];
    s.render(&mut buf);
    let center = Pixel::new(300, 300).to_index();
    assert_eq!(buf[center], Color::new(40, 50, 60, 255).to_u32());
}

#[test]
fn off_canvas_particles_are_skipped_silently() {
    let mut s = Scene::new();
    s.particles = vec![Particle::new(Vec2::new(100000, 0), Vec2::new(0, 0), 0, 100)];
    let mut buf = vec![0u32; WIDTH * HEIGHT];
    s.render(&mut buf);
    assert!(buf.iter().all(|&c| c == BLACK));
}
