//! Frame dispatch scenarios: publication, clicks, message routing, dirty
//! sets, and the build-once discipline.
use orbit_scene::camera::Camera;
use orbit_scene::game::GameObject;
use orbit_scene::game::SceneObject;
use orbit_scene::game::SimpleActor;
use orbit_scene::game::Skiier;
use orbit_scene::game::WorldGrid;
use orbit_scene::geometry::BoundingBox;
use orbit_scene::geometry::Point2;
use orbit_scene::geometry::Point3;
use orbit_scene::graphics_engine::Mesh;
use orbit_scene::graphics_engine::RGBATexture;
use orbit_scene::graphics_engine::Rgba;
use orbit_scene::graphics_engine::RuntimeModel;
use orbit_scene::gui::GuiContainer;
use orbit_scene::gui::Message;
use orbit_scene::gui::StateChange;
use orbit_scene::gui::UiElement;
use orbit_scene::handle::Handle;
use orbit_scene::Event;
use orbit_scene::EventState;
use orbit_scene::GraphicsContext;
use orbit_scene::Model;
use orbit_scene::MouseButton;
use orbit_scene::MouseClick;

fn p(x: i32, y: i32) -> Point2 {
    Point2 { x, y }
}

fn tiny_model() -> Model {
    Model {
        mesh: Mesh { vertices: vec![] },
        texture: RGBATexture::constant_color(Rgba { r: 9, g: 9, b: 9, a: 255 }, 1, 1),
    }
}

/// A camera far enough out that the cube colliders project to a tiny box
/// around the screen origin, clear of the UI boxes used below.
fn far_camera() -> Camera {
    Camera::new(Point3 { x: 0, y: 0, z: 0 }, 100_000, 0, 0)
}

fn click_at(x: i32, y: i32) -> Event {
    Event::MouseClick(MouseClick { position: p(x, y), button_pressed: MouseButton::LeftClick })
}

fn actor_with_boxes(a: (i32, i32, i32, i32), b: (i32, i32, i32, i32)) -> SceneObject {
    let e1 = UiElement::new(
        BoundingBox::new(p(a.0, a.1), p(a.2, a.3)),
        tiny_model(),
        StateChange::NeedsRebuild,
        vec![Message::ClickedOn],
    );
    let e2 = UiElement::new(
        BoundingBox::new(p(b.0, b.1), p(b.2, b.3)),
        tiny_model(),
        StateChange::DeleteContainer,
        vec![Message::ClickedOn],
    );
    let ui = GuiContainer::new(vec![e1, e2]);
    SceneObject::Actor(SimpleActor::new_with_ui(Skiier {}, ui))
}

#[test]
fn click_scenario_routes_to_the_hit_element_only() {
    // Container C owns E1 at [0,0]-[10,10] and E2 at [20,20]-[30,30]; the
    // cursor sits at (5,5) with one click event.
    let mut ctx = GraphicsContext::new(far_camera());
    let h = ctx.insert_object(actor_with_boxes((0, 0, 10, 10), (20, 20, 30, 30)));

    // First frame publishes the container; the whole new container is dirty.
    let diff1 = ctx.dispatch_frame(EventState { position: p(200, 200) }, vec![]);
    assert_eq!(diff1.len(), 2);
    assert_eq!(ctx.gui.containers.len(), 1);

    // Second frame: the click hits E1 and only E1.
    let diff2 = ctx.dispatch_frame(EventState { position: p(5, 5) }, vec![click_at(5, 5)]);

    // E1's NeedsRebuild marks C dirty, so the diff carries key (C, E1).
    assert!(diff2.iter().any(|((c, e), _)| *c == h && e.index == 0));
    // E2 was never processed: its DeleteContainer reaction did not fire.
    assert_eq!(ctx.gui.containers.len(), 1);
    // The owner's message handler ran exactly once.
    match ctx.game_objects.get(h) {
        Some(SceneObject::Actor(a)) => {
            assert_eq!(a.received.len(), 1);
            assert_eq!(a.received[0], Message::ClickedOn);
        }
        _ => panic!("actor expected"),
    }
}

#[test]
fn element_delete_reaction_removes_the_container() {
    let mut ctx = GraphicsContext::new(far_camera());
    let h = ctx.insert_object(actor_with_boxes((0, 0, 10, 10), (20, 20, 30, 30)));
    let _ = ctx.dispatch_frame(EventState { position: p(200, 200) }, vec![]);
    assert_eq!(ctx.gui.containers.len(), 1);
    // Clicking E2 asks for the container's deletion.
    let diff = ctx.dispatch_frame(EventState { position: p(25, 25) }, vec![click_at(25, 25)]);
    assert_eq!(ctx.gui.containers.len(), 0);
    // A deleted container is dirty for cleanup but yields no rebuild keys.
    assert!(diff.iter().all(|((c, _), _)| *c != h));
}

#[test]
fn object_without_ui_never_appears() {
    // An object that reports no UI for consecutive frames never owns a
    // container and is never referenced by the geometry diff.
    let mut ctx = GraphicsContext::new(far_camera());
    let hg = ctx.insert_object(SceneObject::Grid(WorldGrid::new(2, 2)));
    for _ in 0..2 {
        let diff = ctx.dispatch_frame(EventState { position: p(0, 0) }, vec![click_at(0, 0)]);
        assert!(ctx.gui.containers.is_empty());
        assert!(diff.iter().all(|((c, _), _)| *c != hg));
        assert!(diff.is_empty());
    }
}

#[test]
fn untouched_container_yields_no_diff_entries() {
    // Dirty-set minimality: a click that touches only container A leaves
    // container B out of the diff entirely.
    let mut ctx = GraphicsContext::new(far_camera());
    let ha = ctx.insert_object(actor_with_boxes((0, 0, 10, 10), (20, 20, 30, 30)));
    let hb = ctx.insert_object(actor_with_boxes((100, 100, 110, 110), (120, 120, 130, 130)));
    let diff1 = ctx.dispatch_frame(EventState { position: p(200, 200) }, vec![]);
    assert_eq!(diff1.len(), 4, "both fresh containers are rebuilt once");
    let diff2 = ctx.dispatch_frame(EventState { position: p(5, 5) }, vec![click_at(5, 5)]);
    assert!(diff2.iter().all(|((c, _), _)| *c == ha));
    assert!(diff2.iter().any(|((c, _), _)| *c == ha));
    assert!(diff2.iter().all(|((c, _), _)| *c != hb));
}

#[test]
fn quiet_frames_produce_empty_diffs() {
    let mut ctx = GraphicsContext::new(far_camera());
    let _ = ctx.insert_object(actor_with_boxes((0, 0, 10, 10), (20, 20, 30, 30)));
    let _ = ctx.dispatch_frame(EventState { position: p(200, 200) }, vec![]);
    for _ in 0..3 {
        let diff = ctx.dispatch_frame(EventState { position: p(200, 200) }, vec![]);
        assert!(diff.is_empty(), "no change, no rebuild work");
    }
}

#[test]
fn objects_are_built_at_most_once() {
    // Simulate several frames with no state change: exactly one build round
    // is requested, then the build list stays empty.
    let mut ctx = GraphicsContext::new(far_camera());
    let _ = ctx.insert_object(Skiier::new());
    let _ = ctx.insert_object(SceneObject::Grid(WorldGrid::new(10, 10)));
    let builds = ctx.models_to_build();
    assert_eq!(builds.len(), 2);
    let submissions: Vec<(Handle, RuntimeModel)> = builds
        .iter()
        .enumerate()
        .map(|(k, (h, _m))| (*h, RuntimeModel { mesh_id: k as u64, texture_id: 100 + k as u64 }))
        .collect();
    ctx.submit_built_models(submissions);
    for _ in 0..5 {
        assert!(ctx.models_to_build().is_empty(), "nothing is ever rebuilt");
        let _ = ctx.dispatch_frame(EventState { position: p(0, 0) }, vec![]);
    }
    let draw = ctx.scene_draw_list();
    assert_eq!(draw.len(), 2, "everything built is drawn every frame");
}

#[test]
fn scene_click_reaches_the_object_collider() {
    // With the camera close, the cube's screen collider is hit at the
    // origin and the actor receives the scene-level click.
    let cam = Camera::new(Point3 { x: 0, y: 0, z: 0 }, 1000, 0, 0);
    let mut ctx = GraphicsContext::new(cam);
    let h = ctx.insert_object(Skiier::new());
    let _ = ctx.dispatch_frame(EventState { position: p(0, 0) }, vec![click_at(0, 0)]);
    match ctx.game_objects.get(h) {
        Some(SceneObject::Actor(a)) => assert_eq!(a.received.len(), 1),
        _ => panic!("actor expected"),
    }
}

#[test]
fn stale_handles_are_dropped_not_faulted() {
    let mut ctx = GraphicsContext::new(far_camera());
    let h = ctx.insert_object(Skiier::new());
    let removed = ctx.game_objects.remove(h);
    assert!(removed.is_some());
    // Builds addressed to the removed object are skipped silently.
    ctx.submit_built_models(vec![(h, RuntimeModel { mesh_id: 1, texture_id: 1 })]);
    assert!(ctx.scene_draw_list().is_empty());
    // Frames keep running.
    let diff = ctx.dispatch_frame(EventState { position: p(0, 0) }, vec![click_at(0, 0)]);
    assert!(diff.is_empty());
}

#[test]
fn submitted_ui_resources_are_drawn() {
    let mut ctx = GraphicsContext::new(far_camera());
    let _owner = ctx.insert_object(actor_with_boxes((0, 0, 10, 10), (20, 20, 30, 30)));
    let diff = ctx.dispatch_frame(EventState { position: p(200, 200) }, vec![]);
    assert_eq!(diff.len(), 2);
    assert!(ctx.gui.get_runtime_model().is_empty());
    let built: Vec<((Handle, Handle), RuntimeModel)> = diff
        .iter()
        .enumerate()
        .map(|(k, (key, _m))| (*key, RuntimeModel { mesh_id: 7 + k as u64, texture_id: 9 }))
        .collect();
    ctx.gui.submit_model(built);
    let drawn = ctx.gui.get_runtime_model();
    assert_eq!(drawn.len(), 2);
    assert!(drawn.iter().any(|rm| rm.mesh_id == 7));
    assert!(drawn.iter().any(|rm| rm.mesh_id == 8));
}
