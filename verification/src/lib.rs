//! Handle-indexed scene-object and UI-container core of an interactive
//! scene viewer: stable generation-stamped handles, screen-space hit
//! testing, per-frame event dispatch, and render-resource lifecycle
//! bookkeeping, all over plain fixed-point integer coordinates.
//!
//! The embedding program owns everything this core deliberately leaves
//! out: the graphics backend, the floating-point camera matrices, and the
//! translation of host input into the plain [`Event`] values consumed here.
use vstd::prelude::*;

pub mod camera;
pub mod game;
pub mod geometry;
pub mod graphics_engine;
pub mod gui;
pub mod handle;

use crate::camera::clamp_to_i32;
use crate::camera::tdiv;
use crate::camera::Camera;
use crate::camera::RADIUS_SCALE;
use crate::geometry::Point2;
use crate::geometry::Point3;
use crate::graphics_engine::Mesh;
use crate::graphics_engine::RGBATexture;
use crate::graphics_engine::Rgba;
use crate::graphics_engine::RuntimeModel;
use crate::graphics_engine::Vertex;
use crate::game::GameObject;
use crate::game::SceneObject;
use crate::gui::diff_view;
use crate::gui::GuiState;
use crate::handle::Handle;
use crate::handle::Slot;
use crate::handle::Store;

verus! {

/// Fixed-point unit: this many integer steps make one world/texture unit.
pub const UNIT: i32 = 1000;

/// Buildable geometry and texture for one drawable thing.
pub struct Model {
    pub mesh: Mesh,
    pub texture: RGBATexture,
}

/// The mathematical content of a [`Model`]: its vertices and its texture
/// image.
#[verifier::ext_equal]
pub struct ModelView {
    pub vertices: Seq<Vertex>,
    pub tex_width: u32,
    pub tex_height: u32,
    pub pixels: Seq<Rgba>,
}

impl View for Model {
    type V = ModelView;

    open spec fn view(&self) -> ModelView {
        ModelView {
            vertices: self.mesh.vertices@,
            tex_width: self.texture.width,
            tex_height: self.texture.height,
            pixels: self.texture.pixels@,
        }
    }
}

impl Model {
    /// A fresh model with the same content.
    pub fn duplicate(&self) -> (r: Model)
        ensures
            r@ == self@,
    {
        let r = Model {
            mesh: Mesh { vertices: copy_vertices(&self.mesh.vertices) },
            texture: RGBATexture {
                width: self.texture.width,
                height: self.texture.height,
                pixels: copy_pixels(&self.texture.pixels),
            },
        };
        proof {
            assert(r@ =~= self@);
        }
        r
    }
}

fn copy_vertices(src: &Vec<Vertex>) -> (v: Vec<Vertex>)
    ensures
        v@ == src@,
{
    let n = src.len();
    let mut v: Vec<Vertex> = Vec::new();
    let mut i: usize = 0;
    while i < n
        invariant
            i <= n,
            n == src@.len(),
            v@ == src@.take(i as int),
        decreases n - i,
    {
        v.push(src[i]);
        proof {
            assert(v@ =~= src@.take(i + 1));
        }
        i = i + 1;
    }
    proof {
        assert(v@ =~= src@);
    }
    v
}

fn copy_pixels(src: &Vec<Rgba>) -> (v: Vec<Rgba>)
    ensures
        v@ == src@,
{
    let n = src.len();
    let mut v: Vec<Rgba> = Vec::new();
    let mut i: usize = 0;
    while i < n
        invariant
            i <= n,
            n == src@.len(),
            v@ == src@.take(i as int),
        decreases n - i,
    {
        v.push(src[i]);
        proof {
            assert(v@ =~= src@.take(i + 1));
        }
        i = i + 1;
    }
    proof {
        assert(v@ =~= src@);
    }
    v
}

/// A mouse button, as reported by the host.
#[derive(Clone, Copy, PartialEq, Eq, Structural, Debug)]
pub enum MouseButton {
    LeftClick,
    MiddleClick,
    RightClick,
}

/// A click at a screen position.
#[derive(Clone, Copy, PartialEq, Eq, Structural, Debug)]
pub struct MouseClick {
    pub position: Point2,
    pub button_pressed: MouseButton,
}

/// One host input event.  Distances are in screen units, times in
/// milliseconds.
#[derive(Clone)]
pub enum Event {
    MouseMove {
        delta_x: i32,
        delta_y: i32,
        delta_time_ms: u32,
        buttons_pressed: Vec<MouseButton>,
    },
    Scroll {
        delta_y: i32,
        delta_time_ms: u32,
    },
    MouseClick(MouseClick),
}

/// The cursor state a frame is delivered with.
pub struct EventState {
    pub position: Point2,
}

/// The canonical decoding of the host's button bitmask: bit 0 is the left
/// button, bit 1 the right, bit 2 the middle, listed in left, middle,
/// right order.
pub open spec fn spec_buttons_from_bits(bits: u32) -> Seq<MouseButton>
    recommends
        bits <= 7,
{
    if bits == 0 {
        seq![]
    } else if bits == 1 {
        seq![MouseButton::LeftClick]
    } else if bits == 2 {
        seq![MouseButton::RightClick]
    } else if bits == 3 {
        seq![MouseButton::LeftClick, MouseButton::RightClick]
    } else if bits == 4 {
        seq![MouseButton::MiddleClick]
    } else if bits == 5 {
        seq![MouseButton::LeftClick, MouseButton::MiddleClick]
    } else if bits == 6 {
        seq![MouseButton::MiddleClick, MouseButton::RightClick]
    } else {
        seq![MouseButton::LeftClick, MouseButton::MiddleClick, MouseButton::RightClick]
    }
}

impl MouseButton {
    /// Decodes the host's button bitmask; masks above 7 are rejected as
    /// malformed input.
    pub fn buttons_from_bits(bits: u32) -> (r: Option<Vec<MouseButton>>)
        ensures
            bits <= 7 ==> (r matches Some(v) && v@ == spec_buttons_from_bits(bits)),
            bits > 7 ==> r is None,
    {
        if bits > 7 {
            return None;
        }
        let mut v: Vec<MouseButton> = Vec::new();
        if bits & 1 == 1 {
            v.push(MouseButton::LeftClick);
        }
        if bits & 4 == 4 {
            v.push(MouseButton::MiddleClick);
        }
        if bits & 2 == 2 {
            v.push(MouseButton::RightClick);
        }
        proof {
            assert(bits == 0 || bits == 1 || bits == 2 || bits == 3 || bits == 4 || bits == 5
                || bits == 6 || bits == 7);
            assert((bits & 1) == (if bits == 1 || bits == 3 || bits == 5 || bits == 7 {
                1u32
            } else {
                0u32
            }) && (bits & 2) == (if bits == 2 || bits == 3 || bits == 6 || bits == 7 {
                2u32
            } else {
                0u32
            }) && (bits & 4) == (if bits == 4 || bits == 5 || bits == 6 || bits == 7 {
                4u32
            } else {
                0u32
            })) by (bit_vector)
                requires
                    bits <= 7,
            ;
            assert(v@ =~= spec_buttons_from_bits(bits));
        }
        Some(v)
    }
}

/// A draw-time transform: a row-major 4x4 fixed-point matrix in units of
/// `1/UNIT`; applied by the backend after converting to its own number
/// format.
#[derive(Clone, Copy)]
pub struct RenderTransform {
    pub matrix: [i64; 16],
}

/// The row-major scale matrix with the given fixed-point diagonal.
pub open spec fn spec_scale_matrix(scale: Point3) -> Seq<i64> {
    seq![
        scale.x as i64,
        0,
        0,
        0,
        0,
        scale.y as i64,
        0,
        0,
        0,
        0,
        scale.z as i64,
        0,
        0,
        0,
        0,
        UNIT as i64,
    ]
}

impl RenderTransform {
    /// A (possibly non-uniform) scale, components in units of `1/UNIT`.
    pub fn new_scale(scale: &Point3) -> (t: RenderTransform)
        ensures
            t.matrix@ == spec_scale_matrix(*scale),
    {
        let t = RenderTransform {
            matrix: [
                scale.x as i64,
                0,
                0,
                0,
                0,
                scale.y as i64,
                0,
                0,
                0,
                0,
                scale.z as i64,
                0,
                0,
                0,
                0,
                UNIT as i64,
            ],
        };
        proof {
            assert(t.matrix@ =~= spec_scale_matrix(*scale));
        }
        t
    }
}

/// The angle/scroll sensitivity divisor: an input delta times the frame time
/// is divided by this before it reaches the camera.
pub const INPUT_SCALE_DIV: u64 = 10;

/// A movement delta scaled by the frame time: `d * dt / INPUT_SCALE_DIV`,
/// truncated toward zero and clamped into `i32`.
pub open spec fn spec_input_scale(d: i32, dt: u32) -> int {
    clamp_to_i32(tdiv(d * dt, INPUT_SCALE_DIV as int))
}

/// The scroll delta handed to the camera: the scaled input, clamped so its
/// magnitude stays below one whole radius unit, as the camera demands.
pub open spec fn spec_scroll_delta(d: i32, dt: u32) -> int {
    let v = spec_input_scale(d, dt);
    if v >= RADIUS_SCALE as int {
        RADIUS_SCALE as int - 1
    } else if v <= -(RADIUS_SCALE as int) {
        -(RADIUS_SCALE as int) + 1
    } else {
        v
    }
}

/// What one event does to the camera: dragging with the right button held
/// orbits, scrolling changes the radius, a click leaves it alone.
pub open spec fn spec_apply_event(cam: Camera, ev: Event) -> Camera {
    match ev {
        Event::MouseMove { delta_x, delta_y, delta_time_ms, buttons_pressed } => {
            if buttons_pressed@.contains(MouseButton::RightClick) {
                Camera {
                    origin: cam.origin,
                    radius: cam.radius,
                    phi: ((cam.phi + spec_input_scale(delta_x, delta_time_ms)) % (
                    crate::camera::FULL_TURN as int)) as u32,
                    theta: ((cam.theta + spec_input_scale(delta_y, delta_time_ms)) % (
                    crate::camera::FULL_TURN as int)) as u32,
                }
            } else {
                cam
            }
        },
        Event::Scroll { delta_y, delta_time_ms } => Camera {
            origin: cam.origin,
            radius: crate::camera::spec_update_radius(
                cam.radius as int,
                spec_scroll_delta(delta_y, delta_time_ms),
            ) as u64,
            phi: cam.phi,
            theta: cam.theta,
        },
        Event::MouseClick(_) => cam,
    }
}

/// The camera after a whole event list.
pub open spec fn spec_apply_events(cam: Camera, evs: Seq<Event>, i: int) -> Camera
    decreases evs.len() - i,
{
    if i < 0 || i >= evs.len() {
        cam
    } else {
        spec_apply_events(spec_apply_event(cam, evs[i]), evs, i + 1)
    }
}

/// Scales an input delta by the frame time; see [`spec_input_scale`].
fn input_scale(d: i32, dt: u32) -> (r: i32)
    ensures
        r as int == spec_input_scale(d, dt),
{
    proof {
        assert(d * dt < 0x8000_0000_0000_0000 && d * dt > -0x8000_0000_0000_0000)
            by (nonlinear_arith)
            requires
                -0x8000_0000 <= d <= 0x7fff_ffff,
                0 <= dt <= 0xffff_ffff;
    }
    let prod: i64 = (d as i64) * (dt as i64);
    if prod >= 0 {
        let q = (prod as u64) / INPUT_SCALE_DIV;
        if q > i32::MAX as u64 {
            i32::MAX
        } else {
            q as i32
        }
    } else {
        let q = ((-prod) as u64) / INPUT_SCALE_DIV;
        if q >= 0x8000_0000u64 {
            i32::MIN
        } else {
            let qi = q as i32;
            -qi
        }
    }
}

/// Whether the right mouse button is among the pressed ones.
fn right_button_held(buttons: &Vec<MouseButton>) -> (r: bool)
    ensures
        r == buttons@.contains(MouseButton::RightClick),
{
    let n = buttons.len();
    let mut i: usize = 0;
    while i < n
        invariant
            i <= n,
            n == buttons@.len(),
            forall|j: int| 0 <= j < i ==> buttons@[j] != MouseButton::RightClick,
        decreases n - i,
    {
        if buttons[i] == MouseButton::RightClick {
            proof {
                assert(buttons@.contains(MouseButton::RightClick));
            }
            return true;
        }
        i = i + 1;
    }
    proof {
        assert(!buttons@.contains(MouseButton::RightClick)) by {
            if buttons@.contains(MouseButton::RightClick) {
                let j = choose|j: int|
                    0 <= j < buttons@.len() && buttons@[j] == MouseButton::RightClick;
                assert(buttons@[j] != MouseButton::RightClick);
            }
        }
    }
    false
}

/// The handles of the live objects that still need a backend build, in slot
/// order.
pub open spec fn spec_build_list(objs: Seq<Slot<SceneObject>>, i: int) -> Seq<Handle>
    decreases objs.len() - i,
{
    if i < 0 || i >= objs.len() {
        Seq::empty()
    } else {
        let rest = spec_build_list(objs, i + 1);
        match objs[i] {
            Slot::Full { generation, value } => if !value.initialized() {
                seq![Handle { index: i as usize, generation }] + rest
            } else {
                rest
            },
            Slot::Vacant => rest,
        }
    }
}

/// The render resource an object ends up with after a submission batch: the
/// last build addressed to its handle wins.
pub open spec fn spec_submitted_model(
    builds: Seq<(Handle, RuntimeModel)>,
    i: int,
    g: u64,
    fallback: Option<RuntimeModel>,
) -> Option<RuntimeModel>
    decreases builds.len(),
{
    if builds.len() == 0 {
        fallback
    } else {
        let last = builds.last();
        if last.0 == (Handle { index: i as usize, generation: g }) {
            Some(last.1)
        } else {
            spec_submitted_model(builds.drop_last(), i, g, fallback)
        }
    }
}

/// Slot-wise: what a submission batch does to one object.
pub open spec fn submit_slot_ok(
    pre: Slot<SceneObject>,
    post: Slot<SceneObject>,
    i: int,
    builds: Seq<(Handle, RuntimeModel)>,
) -> bool {
    match (pre, post) {
        (Slot::Vacant, Slot::Vacant) => true,
        (Slot::Full { generation: g1, value: v1 }, Slot::Full { generation: g2, value: v2 }) => {
            &&& g2 == g1
            &&& v2.received_of() == v1.received_of()
            &&& v2.pending_of() == v1.pending_of()
            &&& v2.has_ui_of() == v1.has_ui_of()
            &&& v2.render_model() == spec_submitted_model(builds, i, g1, v1.render_model())
            &&& v2.transform_matrix_of() == v1.transform_matrix_of()
            &&& forall|cam: Camera, p: Point2| v2.hit(cam, p) == v1.hit(cam, p)
        },
        _ => false,
    }
}

/// The `(resource, transform)` pairs of the drawable objects, in slot order.
pub open spec fn spec_draw_list(objs: Seq<Slot<SceneObject>>, i: int) -> Seq<
    (RuntimeModel, Seq<i64>),
>
    decreases objs.len() - i,
{
    if i < 0 || i >= objs.len() {
        Seq::empty()
    } else {
        let rest = spec_draw_list(objs, i + 1);
        match objs[i] {
            Slot::Full { value, .. } => match value.render_model() {
                Some(rm) => seq![(rm, value.transform_matrix_of())] + rest,
                None => rest,
            },
            Slot::Vacant => rest,
        }
    }
}

/// The content of a draw list.
pub open spec fn draw_list_view(v: Seq<(RuntimeModel, RenderTransform)>) -> Seq<
    (RuntimeModel, Seq<i64>),
> {
    v.map_values(|p: (RuntimeModel, RenderTransform)| (p.0, p.1.matrix@))
}

/// The world: the handle-indexed object store, the orbit camera, and the UI
/// dispatch engine.  The embedding program drives it once per animation
/// frame: route input here, build what [`GraphicsContext::models_to_build`]
/// and the dispatch diff ask for, hand the built resources back, and draw
/// the scene list before the UI overlay.
pub struct GraphicsContext {
    pub game_objects: Store<SceneObject>,
    pub camera: Camera,
    pub gui: GuiState,
}

impl GraphicsContext {
    /// Every part is internally valid.
    pub open spec fn wf(self) -> bool {
        &&& self.camera.wf()
        &&& self.game_objects.wf()
        &&& crate::game::objects_wf(self.game_objects)
        &&& self.gui.wf()
    }

    /// An empty world watched by `camera`.
    pub fn new(camera: Camera) -> (g: GraphicsContext)
        requires
            camera.wf(),
        ensures
            g.wf(),
            g.camera == camera,
            g.game_objects.slots@.len() == 0,
            g.game_objects.generation == 0,
            g.gui.containers@.len() == 0,
    {
        GraphicsContext { game_objects: Store::new(), camera, gui: GuiState::new() }
    }

    /// Adds an object to the world and hands back its stable handle.
    pub fn insert_object(&mut self, object: SceneObject) -> (h: Handle)
        requires
            old(self).wf(),
            object.wf(),
        ensures
            final(self).wf(),
            crate::handle::insert_step(old(self).game_objects, final(self).game_objects, object, h),
            final(self).camera == old(self).camera,
            final(self).gui == old(self).gui,
    {
        let h = self.game_objects.insert(object);
        proof {
            assert forall|i: int| 0 <= i < self.game_objects.slots@.len() implies ((
            #[trigger] self.game_objects.slots@[i]) matches Slot::Full { value, .. }
                ==> value.wf()) by {
                if h.index < old(self).game_objects.slots@.len() {
                    if i != h.index {
                        assert(self.game_objects.slots@[i] == old(self).game_objects.slots@[i]);
                    }
                } else {
                    if i < old(self).game_objects.slots@.len() {
                        assert(self.game_objects.slots@[i] == old(self).game_objects.slots@[i]);
                    }
                }
            }
        }
        h
    }

    /// Applies one frame's events to the camera: right-button drags orbit,
    /// scrolling moves the radius multiplicatively (clamped so it stays
    /// strictly positive), clicks change nothing here.
    pub fn process_events(&mut self, events: &Vec<Event>)
        requires
            old(self).wf(),
        ensures
            final(self).wf(),
            final(self).camera == spec_apply_events(old(self).camera, events@, 0),
            final(self).game_objects == old(self).game_objects,
            final(self).gui == old(self).gui,
    {
        let n = events.len();
        let mut i: usize = 0;
        while i < n
            invariant
                i <= n,
                n == events@.len(),
                self.camera.wf(),
                self.game_objects == old(self).game_objects,
                self.gui == old(self).gui,
                spec_apply_events(self.camera, events@, i as int) == spec_apply_events(
                    old(self).camera,
                    events@,
                    0,
                ),
            decreases n - i,
        {
            let ghost cam_pre = self.camera;
            match &events[i] {
                Event::MouseMove { delta_x, delta_y, delta_time_ms, buttons_pressed } => {
                    if right_button_held(buttons_pressed) {
                        self.camera.rotate_phi(input_scale(*delta_x, *delta_time_ms));
                        self.camera.rotate_theta(input_scale(*delta_y, *delta_time_ms));
                    }
                }
                Event::Scroll { delta_y, delta_time_ms } => {
                    let v = input_scale(*delta_y, *delta_time_ms);
                    let d: i64 = if v as i64 >= RADIUS_SCALE as i64 {
                        RADIUS_SCALE as i64 - 1
                    } else if v as i64 <= -(RADIUS_SCALE as i64) {
                        -(RADIUS_SCALE as i64) + 1
                    } else {
                        v as i64
                    };
                    self.camera.update_radius(d);
                }
                Event::MouseClick(_) => {}
            }
            proof {
                assert(self.camera == spec_apply_event(cam_pre, events@[i as int]));
            }
            i = i + 1;
        }
    }

    /// The geometry of every live object that has no render resource yet;
    /// non-dirty, already built objects are never listed, which keeps
    /// backend builds at most once per object.
    pub fn models_to_build(&self) -> (r: Vec<(Handle, Model)>)
        requires
            self.wf(),
        ensures
            r@.len() == spec_build_list(self.game_objects.slots@, 0).len(),
            forall|k: int|
                0 <= k < r@.len() ==> (#[trigger] r@[k]).0 == spec_build_list(
                    self.game_objects.slots@,
                    0,
                )[k] && self.game_objects.live(r@[k].0) && self.game_objects.value_of(
                    r@[k].0,
                ).model_spec(r@[k].1),
    {
        let ghost objs = self.game_objects.slots@;
        let ghost whole = spec_build_list(objs, 0);
        let mut r: Vec<(Handle, Model)> = Vec::new();
        let n = self.game_objects.slot_count();
        let mut i: usize = 0;
        while i < n
            invariant
                i <= n,
                n == objs.len(),
                objs == self.game_objects.slots@,
                self.wf(),
                whole == spec_build_list(objs, 0),
                r@.len() + spec_build_list(objs, i as int).len() == whole.len(),
                forall|k: int|
                    0 <= k < r@.len() ==> (#[trigger] r@[k]).0 == whole[k]
                        && self.game_objects.live(r@[k].0) && self.game_objects.value_of(
                        r@[k].0,
                    ).model_spec(r@[k].1),
                forall|k: int|
                    r@.len() <= k < whole.len() ==> whole[k] == spec_build_list(
                        objs,
                        i as int,
                    )[k - r@.len()],
            decreases n - i,
        {
            let ghost r_pre = r@;
            match &self.game_objects.slots[i] {
                Slot::Full { generation, value } => {
                    if !value.is_initilized() {
                        let h = Handle { index: i, generation: *generation };
                        let m = value.get_model();
                        proof {
                            assert(self.game_objects.live(h));
                            assert(self.game_objects.value_of(h) == *value);
                            assert(spec_build_list(objs, i as int) == seq![h] + spec_build_list(
                                objs,
                                i + 1,
                            ));
                        }
                        r.push((h, m));
                    }
                }
                Slot::Vacant => {}
            }
            i = i + 1;
        }
        r
    }

    /// Stores backend-built resources into the objects their handles name; a
    /// stale handle is skipped.  Submitting replaces the handle: each object
    /// then reports itself initialized and is no longer listed for building.
    pub fn submit_built_models(&mut self, builds: Vec<(Handle, RuntimeModel)>)
        requires
            old(self).wf(),
        ensures
            final(self).wf(),
            final(self).camera == old(self).camera,
            final(self).gui == old(self).gui,
            final(self).game_objects.slots@.len() == old(self).game_objects.slots@.len(),
            final(self).game_objects.generation == old(self).game_objects.generation,
            forall|i: int|
                0 <= i < old(self).game_objects.slots@.len() ==> submit_slot_ok(
                    old(self).game_objects.slots@[i],
                    final(self).game_objects.slots@[i],
                    i,
                    builds@,
                ),
    {
        let n = builds.len();
        let ghost objs0 = old(self).game_objects.slots@;
        let mut k: usize = 0;
        while k < n
            invariant
                k <= n,
                n == builds@.len(),
                self.camera == old(self).camera,
                self.gui == old(self).gui,
                self.camera.wf(),
                self.gui.wf(),
                self.game_objects.wf(),
                crate::game::objects_wf(self.game_objects),
                self.game_objects.slots@.len() == objs0.len(),
                self.game_objects.generation == old(self).game_objects.generation,
                forall|i: int|
                    0 <= i < objs0.len() ==> submit_slot_ok(
                        objs0[i],
                        self.game_objects.slots@[i],
                        i,
                        builds@.take(k as int),
                    ),
            decreases n - k,
        {
            let h = builds[k].0;
            let rm = builds[k].1;
            let ghost mid = self.game_objects.slots@;
            if h.index < self.game_objects.slots.len() {
                let slot = &mut self.game_objects.slots[h.index];
                match slot {
                    Slot::Full { generation, value } => {
                        if *generation == h.generation {
                            value.submit_render_model(rm);
                        }
                    }
                    Slot::Vacant => {}
                }
            }
            proof {
                assert(builds@.take(k + 1).drop_last() =~= builds@.take(k as int));
                assert(builds@.take(k + 1).last() == builds@[k as int]);
                assert forall|i: int| 0 <= i < objs0.len() implies submit_slot_ok(
                    objs0[i],
                    self.game_objects.slots@[i],
                    i,
                    builds@.take(k + 1),
                ) by {
                    assert(submit_slot_ok(objs0[i], mid[i], i, builds@.take(k as int)));
                    match objs0[i] {
                        Slot::Full { generation: g1, value: v1 } => {
                            let hi = Handle { index: i as usize, generation: g1 };
                            if h == hi {
                                assert(spec_submitted_model(
                                    builds@.take(k + 1),
                                    i,
                                    g1,
                                    v1.render_model(),
                                ) == Some(rm));
                            } else {
                                assert(spec_submitted_model(
                                    builds@.take(k + 1),
                                    i,
                                    g1,
                                    v1.render_model(),
                                ) == spec_submitted_model(
                                    builds@.take(k as int),
                                    i,
                                    g1,
                                    v1.render_model(),
                                ));
                                assert(self.game_objects.slots@[i] == mid[i]);
                            }
                        }
                        Slot::Vacant => {
                            assert(self.game_objects.slots@[i] == mid[i]);
                        }
                    }
                }
            }
            k = k + 1;
        }
        proof {
            assert(builds@.take(n as int) =~= builds@);
        }
    }

    /// The scene draw list: the resource and transform of every initialized
    /// object, in slot order.  Drawing reads the full current set every
    /// frame, independent of what was rebuilt.
    pub fn scene_draw_list(&self) -> (r: Vec<(RuntimeModel, RenderTransform)>)
        requires
            self.wf(),
        ensures
            draw_list_view(r@) == spec_draw_list(self.game_objects.slots@, 0),
    {
        let ghost objs = self.game_objects.slots@;
        let mut r: Vec<(RuntimeModel, RenderTransform)> = Vec::new();
        let n = self.game_objects.slot_count();
        let mut i: usize = 0;
        while i < n
            invariant
                i <= n,
                n == objs.len(),
                objs == self.game_objects.slots@,
                self.wf(),
                draw_list_view(r@) + spec_draw_list(objs, i as int) == spec_draw_list(objs, 0),
            decreases n - i,
        {
            let ghost dv_pre = draw_list_view(r@);
            match &self.game_objects.slots[i] {
                Slot::Full { value, .. } => {
                    let out = value.get_render_model();
                    match out.model {
                        Some(rm) => {
                            r.push((rm, out.transform));
                            proof {
                                let head = seq![(rm, value.transform_matrix_of())];
                                assert(draw_list_view(r@) =~= dv_pre + head);
                                assert(spec_draw_list(objs, i as int) == head + spec_draw_list(
                                    objs,
                                    i + 1,
                                ));
                                assert((dv_pre + head) + spec_draw_list(objs, i + 1) =~= dv_pre + (
                                head + spec_draw_list(objs, i + 1)));
                            }
                        }
                        None => {}
                    }
                }
                Slot::Vacant => {}
            }
            i = i + 1;
        }
        proof {
            assert(draw_list_view(r@) + Seq::<(RuntimeModel, Seq<i64>)>::empty() =~= draw_list_view(
                r@,
            ));
        }
        r
    }

    /// One frame's computation: apply the events to the camera, then run the
    /// UI dispatch over the same packet, returning the geometry diff the
    /// backend must rebuild.
    pub fn dispatch_frame(&mut self, event_state: EventState, events: Vec<Event>) -> (diff: Vec<
        ((Handle, Handle), Model),
    >)
        requires
            old(self).wf(),
        ensures
            final(self).wf(),
            final(self).camera == spec_apply_events(old(self).camera, events@, 0),
            final(self).gui.containers@ == crate::gui::spec_frame_containers_dirty(
                old(self).gui.containers@,
                old(self).game_objects.slots@,
                event_state.position,
                events@,
            ).0,
            diff_view(diff@) == crate::gui::build_diff(
                crate::gui::spec_frame_containers_dirty(
                    old(self).gui.containers@,
                    old(self).game_objects.slots@,
                    event_state.position,
                    events@,
                ).0,
                crate::gui::spec_frame_containers_dirty(
                    old(self).gui.containers@,
                    old(self).game_objects.slots@,
                    event_state.position,
                    events@,
                ).1,
                0,
            ),
            final(self).game_objects.slots@.len() == old(self).game_objects.slots@.len(),
            final(self).game_objects.generation == old(self).game_objects.generation,
            forall|i: int|
                0 <= i < old(self).game_objects.slots@.len() ==> crate::gui::frame_slot_ok(
                    old(self).game_objects.slots@[i],
                    final(self).game_objects.slots@[i],
                    i,
                    crate::gui::spec_frame_messages(
                        old(self).gui.containers@,
                        old(self).game_objects.slots@,
                        spec_apply_events(old(self).camera, events@, 0),
                        event_state.position,
                        events@,
                    ),
                ),
    {
        self.process_events(&events);
        let packet = crate::gui::EventPacket { mouse_position: event_state.position, events };
        let camera = &self.camera;
        self.gui.game_loop(packet, camera, &mut self.game_objects)
    }
}

// ---------------------------------------------------------------------------
// At-most-once build: the build list names exactly the objects without a
// render resource, one submission round initializes them all, and dispatch
// frames never invalidate anything — so with no state change, each object is
// built exactly once, in the first round.
// ---------------------------------------------------------------------------

/// Every live, unbuilt object is listed for building.
pub proof fn lemma_uninitialized_listed(objs: Seq<Slot<SceneObject>>, i: int, j: int)
    requires
        0 <= i <= j < objs.len(),
        objs[j] is Full,
        !objs[j]->value.initialized(),
    ensures
        spec_build_list(objs, i).contains(
            Handle { index: j as usize, generation: objs[j]->generation },
        ),
    decreases j - i,
{
    let h = Handle { index: j as usize, generation: objs[j]->generation };
    if i == j {
        assert(spec_build_list(objs, i)[0] == h);
    } else {
        lemma_uninitialized_listed(objs, i + 1, j);
        let rest = spec_build_list(objs, i + 1);
        let k = choose|k: int| 0 <= k < rest.len() && rest[k] == h;
        match objs[i] {
            Slot::Full { generation, value } => {
                if !value.initialized() {
                    assert(spec_build_list(objs, i)[k + 1] == h);
                } else {
                    assert(spec_build_list(objs, i)[k] == h);
                }
            }
            Slot::Vacant => {
                assert(spec_build_list(objs, i)[k] == h);
            }
        }
    }
}

/// A submission batch that contains a build for a handle leaves that handle's
/// object with a resource.
pub proof fn lemma_submitted_covers(
    builds: Seq<(Handle, RuntimeModel)>,
    i: int,
    g: u64,
    fallback: Option<RuntimeModel>,
)
    requires
        exists|k: int|
            0 <= k < builds.len() && (#[trigger] builds[k]).0 == (
            Handle { index: i as usize, generation: g }),
    ensures
        spec_submitted_model(builds, i, g, fallback) is Some,
    decreases builds.len(),
{
    let h = Handle { index: i as usize, generation: g };
    if builds.last().0 != h {
        let k = choose|k: int| 0 <= k < builds.len() && (#[trigger] builds[k]).0 == h;
        assert(builds.drop_last()[k] == builds[k]);
        lemma_submitted_covers(builds.drop_last(), i, g, fallback);
    }
}

/// One build round initializes the world: submitting a batch that covers
/// every handle the build list names leaves every live object initialized.
pub proof fn lemma_build_round_initializes(
    pre: Seq<Slot<SceneObject>>,
    post: Seq<Slot<SceneObject>>,
    builds: Seq<(Handle, RuntimeModel)>,
)
    requires
        pre.len() == post.len(),
        forall|i: int| 0 <= i < pre.len() ==> submit_slot_ok(pre[i], post[i], i, builds),
        forall|h: Handle|
            spec_build_list(pre, 0).contains(h) ==> exists|k: int|
                0 <= k < builds.len() && (#[trigger] builds[k]).0 == h,
    ensures
        forall|i: int|
            0 <= i < post.len() ==> ((#[trigger] post[i]) matches Slot::Full { value, .. }
                ==> value.initialized()),
{
    assert forall|i: int| 0 <= i < post.len() implies ((#[trigger] post[i]) matches Slot::Full {
        value, .. } ==> value.initialized()) by {
        if post[i] is Full {
            assert(submit_slot_ok(pre[i], post[i], i, builds));
            let g = pre[i]->generation;
            let v1 = pre[i]->value;
            if v1.initialized() {
                assert(spec_submitted_model(builds, i, g, v1.render_model()) is Some) by {
                    lemma_submitted_keeps_some(builds, i, g, v1.render_model());
                }
            } else {
                lemma_uninitialized_listed(pre, 0, i);
                lemma_submitted_covers(builds, i, g, v1.render_model());
            }
        }
    }
}

/// A submission never takes a resource away.
proof fn lemma_submitted_keeps_some(
    builds: Seq<(Handle, RuntimeModel)>,
    i: int,
    g: u64,
    fallback: Option<RuntimeModel>,
)
    requires
        fallback is Some,
    ensures
        spec_submitted_model(builds, i, g, fallback) is Some,
    decreases builds.len(),
{
    if builds.len() > 0 && builds.last().0 != (Handle { index: i as usize, generation: g }) {
        lemma_submitted_keeps_some(builds.drop_last(), i, g, fallback);
    }
}

/// A dispatch frame touches no render resource, so it never re-opens a
/// build: the build list after the frame is the one before it.
pub proof fn lemma_frame_preserves_build_list(
    pre: Seq<Slot<SceneObject>>,
    post: Seq<Slot<SceneObject>>,
    msgs: Seq<(Handle, crate::gui::Message)>,
    i: int,
)
    requires
        pre.len() == post.len(),
        forall|j: int| 0 <= j < pre.len() ==> crate::gui::frame_slot_ok(pre[j], post[j], j, msgs),
    ensures
        spec_build_list(post, i) == spec_build_list(pre, i),
    decreases pre.len() - i,
{
    if 0 <= i < pre.len() {
        lemma_frame_preserves_build_list(pre, post, msgs, i + 1);
        assert(crate::gui::frame_slot_ok(pre[i], post[i], i, msgs));
        match pre[i] {
            Slot::Full { generation, value } => {
                assert(post[i]->value.initialized() == value.initialized());
            }
            Slot::Vacant => {}
        }
    }
}

/// At-most-once build, closing the loop: once every live object is
/// initialized, the build list is empty — no second build is ever requested
/// until something is explicitly invalidated.
pub proof fn lemma_at_most_once_build(objs: Seq<Slot<SceneObject>>, i: int)
    requires
        forall|j: int|
            0 <= j < objs.len() ==> ((#[trigger] objs[j]) matches Slot::Full { value, .. }
                ==> value.initialized()),
    ensures
        spec_build_list(objs, i) == Seq::<Handle>::empty(),
    decreases objs.len() - i,
{
    if 0 <= i < objs.len() {
        lemma_at_most_once_build(objs, i + 1);
    }
}

} // verus!
