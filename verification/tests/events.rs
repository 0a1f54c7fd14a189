//! Input decoding, camera event routing, and render-resource data.
use orbit_scene::camera::Camera;
use orbit_scene::game::GameObject;
use orbit_scene::game::WorldGrid;
use orbit_scene::geometry::Point2;
use orbit_scene::geometry::Point3;
use orbit_scene::graphics_engine::RGBATexture;
use orbit_scene::graphics_engine::Rgba;
use orbit_scene::Event;
use orbit_scene::GraphicsContext;
use orbit_scene::MouseButton;
use orbit_scene::RenderTransform;
use orbit_scene::UNIT;

#[test]
fn button_bitmask_decodes_every_valid_mask() {
    let l = MouseButton::LeftClick;
    let m = MouseButton::MiddleClick;
    let r = MouseButton::RightClick;
    let cases: [(u32, &[MouseButton]); 8] = [
        (0, &[]),
        (1, &[l]),
        (2, &[r]),
        (3, &[l, r]),
        (4, &[m]),
        (5, &[l, m]),
        (6, &[m, r]),
        (7, &[l, m, r]),
    ];
    for (bits, want) in cases.iter() {
        let got = MouseButton::buttons_from_bits(*bits).expect("valid mask");
        assert_eq!(got.as_slice(), *want, "mask {}", bits);
    }
}

#[test]
fn button_bitmask_rejects_invalid_masks() {
    assert!(MouseButton::buttons_from_bits(8).is_none());
    assert!(MouseButton::buttons_from_bits(255).is_none());
}

#[test]
fn scroll_events_move_the_radius() {
    let cam = Camera::new(Point3 { x: 0, y: 0, z: 0 }, 1000, 0, 0);
    let mut ctx = GraphicsContext::new(cam);
    // 100 * 100 / 10 = 1000, clamped to 999 before reaching the camera.
    ctx.process_events(&vec![Event::Scroll { delta_y: 100, delta_time_ms: 100 }]);
    assert_eq!(ctx.camera.radius, 1999);
    // 10 * 50 / 10 = 50: radius += 50/1000 of itself (truncated).
    ctx.process_events(&vec![Event::Scroll { delta_y: 10, delta_time_ms: 50 }]);
    assert_eq!(ctx.camera.radius, 1999 + (50 * 1999) / 1000);
}

#[test]
fn dragging_with_the_right_button_orbits() {
    let cam = Camera::new(Point3 { x: 0, y: 0, z: 0 }, 1000, 0, 0);
    let mut ctx = GraphicsContext::new(cam);
    ctx.process_events(&vec![Event::MouseMove {
        delta_x: 50,
        delta_y: -30,
        delta_time_ms: 10,
        buttons_pressed: vec![MouseButton::LeftClick, MouseButton::RightClick],
    }]);
    assert_eq!(ctx.camera.phi, 50, "50 * 10 / 10");
    assert_eq!(ctx.camera.theta, (-30i64).rem_euclid(0x1_0000_0000) as u32);
    assert_eq!(ctx.camera.radius, 1000);
}

#[test]
fn dragging_without_the_right_button_does_nothing() {
    let cam = Camera::new(Point3 { x: 0, y: 0, z: 0 }, 1000, 7, 9);
    let mut ctx = GraphicsContext::new(cam);
    ctx.process_events(&vec![Event::MouseMove {
        delta_x: 50,
        delta_y: -30,
        delta_time_ms: 10,
        buttons_pressed: vec![MouseButton::LeftClick],
    }]);
    assert_eq!(ctx.camera.phi, 7);
    assert_eq!(ctx.camera.theta, 9);
}

#[test]
fn constant_color_textures_flatten_row_major() {
    let t = RGBATexture::constant_color(Rgba { r: 1, g: 2, b: 3, a: 4 }, 2, 2);
    assert_eq!(t.pixels.len(), 4);
    let raw = t.get_raw_vector();
    assert_eq!(raw, vec![1, 2, 3, 4, 1, 2, 3, 4, 1, 2, 3, 4, 1, 2, 3, 4]);
}

#[test]
fn grid_meshes_cover_every_cell() {
    let grid = WorldGrid::new(2, 3);
    let m = grid.get_model();
    assert_eq!(m.mesh.vertices.len(), 2 * 3 * 6);
    // First vertex of the first cell sits at the world origin.
    let v0 = m.mesh.vertices[0];
    assert_eq!((v0.position.x, v0.position.y, v0.position.z), (0, 0, 0));
    // Cell (1, 2) is cell index 5; its second vertex is the far corner.
    let v = m.mesh.vertices[5 * 6 + 1];
    assert_eq!(
        (v.position.x, v.position.y, v.position.z),
        (2 * UNIT, 0, 3 * UNIT)
    );
    // The grid texture is a constant color.
    assert_eq!(m.texture.width, 8);
    assert_eq!(m.texture.height, 8);
    assert!(m
        .texture
        .pixels
        .iter()
        .all(|px| *px == Rgba { r: 0, g: 255, b: 255, a: 255 }));
}

#[test]
fn scale_transforms_fill_the_diagonal() {
    let t = RenderTransform::new_scale(&Point3 { x: 500, y: 600, z: 700 });
    assert_eq!(t.matrix[0], 500);
    assert_eq!(t.matrix[5], 600);
    assert_eq!(t.matrix[10], 700);
    assert_eq!(t.matrix[15], UNIT as i64);
    assert_eq!(t.matrix[1], 0);
    assert_eq!(t.matrix[4], 0);
}
