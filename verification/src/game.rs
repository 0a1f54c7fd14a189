//! The scene-object model: a capability trait, a terrain grid, a generic
//! actor adapter, and the closed set of objects the world store holds.
//!
//! Objects own an optional backend-built render resource, a hit-test
//! collider, and may publish a UI container; all cross-object effects go
//! through handle-addressed messages, never direct references.
use crate::camera::Camera;
use crate::geometry::Point2;
use crate::geometry::Point3;
use crate::geometry::Triangle;
use crate::graphics_engine::Mesh;
use crate::graphics_engine::RGBATexture;
use crate::graphics_engine::Rgba;
use crate::graphics_engine::RuntimeModel;
use crate::graphics_engine::Vertex;
use crate::gui::GetGuiOutput;
use crate::handle::Slot;
use crate::handle::Store;
use crate::gui::GuiContainer;
use crate::gui::GuiParent;
use crate::gui::Message;
use crate::Model;
use crate::RenderTransform;
use crate::UNIT;
use vstd::prelude::*;

verus! {

/// What an object reports for drawing each frame: its built resource (if
/// any) and its current draw transform.
pub struct ObjectTickOutput {
    pub model: Option<RuntimeModel>,
    pub transform: RenderTransform,
}

/// `t` is a constant-color texture of the given dimensions.
pub open spec fn is_constant_texture(t: RGBATexture, width: u32, height: u32, color: Rgba) -> bool {
    &&& t.width == width
    &&& t.height == height
    &&& t.wf()
    &&& forall|i: int| 0 <= i < t.pixels@.len() ==> t.pixels@[i] == color
}

/// The capability interface every scene object offers the frame loop.
pub trait GameObject: Sized {
    /// The object's internal validity; constructors establish it and every
    /// method preserves it.
    spec fn wf(self) -> bool;

    /// Whether a render resource has been submitted.
    spec fn initialized(self) -> bool;

    /// The submitted render resource, if any.
    spec fn render_model(self) -> Option<RuntimeModel>;

    /// What the object's buildable geometry looks like.
    spec fn model_spec(self, m: Model) -> bool;

    /// The object's buildable geometry; meant to be called once before the
    /// first build.
    fn get_model(&self) -> (m: Model)
        requires
            self.wf(),
        ensures
            self.model_spec(m),
    ;

    fn is_initilized(&self) -> (b: bool)
        ensures
            b == self.initialized(),
    ;

    fn get_render_model(&self) -> (out: ObjectTickOutput)
        requires
            self.wf(),
        ensures
            out.model == self.render_model(),
            (out.model is Some) == self.initialized(),
    ;

    /// Stores the backend-built resource; the object is drawable afterwards.
    fn submit_render_model(&mut self, model: RuntimeModel)
        requires
            old(self).wf(),
        ensures
            final(self).wf(),
            final(self).initialized(),
            final(self).render_model() == Some(model),
    ;

    /// The object's UI for this frame; `&mut` so a pending container can be
    /// noted as published.
    fn get_gui_g(&mut self) -> (g: GetGuiOutput)
        requires
            old(self).wf(),
        ensures
            final(self).wf(),
    ;

    /// Receives a routed message.
    fn process_message_g(&mut self, message: &Message)
        requires
            old(self).wf(),
        ensures
            final(self).wf(),
    ;

    /// Screen-space hit-test collider; an object without one reports an
    /// empty collider rather than failing the frame.
    fn get_screen_collider_g(&self, camera: &Camera) -> (ts: Vec<Triangle>)
        requires
            self.wf(),
            camera.wf(),
    ;
}

/// Largest grid dimension, so vertex coordinates and counts stay in range.
pub const MAX_GRID_DIM: u32 = 2000;

/// The flat terrain grid: `dim_x * dim_y` unit cells of two triangles each.
pub struct WorldGrid {
    pub dim_x: u32,
    pub dim_y: u32,
    pub model: Option<RuntimeModel>,
}

/// Vertex `t` (of 6) of grid cell `(x, y)`: two triangles covering the unit
/// cell at `(x, 0, y)`, in fixed-point units.
pub open spec fn grid_cell_vertex(x: int, y: int, t: int) -> Vertex
    recommends
        0 <= x,
        0 <= y,
        (x + 1) * UNIT <= i32::MAX,
        (y + 1) * UNIT <= i32::MAX,
        0 <= t < 6,
{
    let x0 = x * UNIT;
    let x1 = (x + 1) * UNIT;
    let z0 = y * UNIT;
    let z1 = (y + 1) * UNIT;
    if t == 0 {
        vtx(x0, 0, z0, 0, 0)
    } else if t == 1 {
        vtx(x1, 0, z1, UNIT as int, UNIT as int)
    } else if t == 2 {
        vtx(x1, 0, z0, UNIT as int, 0)
    } else if t == 3 {
        vtx(x0, 0, z0, 0, 0)
    } else if t == 4 {
        vtx(x0, 0, z1, 0, UNIT as int)
    } else {
        vtx(x1, 0, z1, UNIT as int, UNIT as int)
    }
}

/// Shorthand for a vertex.
pub open spec fn vtx(x: int, y: int, z: int, u: int, w: int) -> Vertex {
    Vertex {
        position: Point3 { x: x as i32, y: y as i32, z: z as i32 },
        uv: Point2 { x: u as i32, y: w as i32 },
    }
}

/// The whole grid mesh, cell by cell in row-major order.
pub open spec fn spec_grid_mesh(dim_x: int, dim_y: int) -> Seq<Vertex> {
    Seq::new((dim_x * dim_y * 6) as nat, |i: int| grid_cell_vertex((i / 6) / dim_y, (i / 6) % dim_y, i % 6))
}

/// The grid's texture color.
pub open spec fn grid_color() -> Rgba {
    Rgba { r: 0, g: 255, b: 255, a: 255 }
}

impl WorldGrid {
    pub fn new(dim_x: u32, dim_y: u32) -> (g: WorldGrid)
        requires
            dim_x <= MAX_GRID_DIM,
            dim_y <= MAX_GRID_DIM,
        ensures
            g == (WorldGrid { dim_x, dim_y, model: None::<RuntimeModel> }),
            g.wf(),
    {
        WorldGrid { dim_x, dim_y, model: None }
    }
}

impl GameObject for WorldGrid {
    open spec fn wf(self) -> bool {
        self.dim_x <= MAX_GRID_DIM && self.dim_y <= MAX_GRID_DIM
    }

    open spec fn initialized(self) -> bool {
        self.model is Some
    }

    open spec fn render_model(self) -> Option<RuntimeModel> {
        self.model
    }

    open spec fn model_spec(self, m: Model) -> bool {
        &&& m.mesh.vertices@ == spec_grid_mesh(self.dim_x as int, self.dim_y as int)
        &&& is_constant_texture(m.texture, 8, 8, grid_color())
    }

    fn get_model(&self) -> (m: Model) {
        let dx = self.dim_x;
        let dy = self.dim_y;
        proof {
            assert(dx as int * dy as int <= 2000 * 2000) by (nonlinear_arith)
                requires
                    dx <= 2000,
                    dy <= 2000;
        }
        let cells = (dx as usize) * (dy as usize);
        let mut vertices: Vec<Vertex> = Vec::new();
        let ghost total = spec_grid_mesh(dx as int, dy as int);
        let mut c: usize = 0;
        while c < cells
            invariant
                c <= cells,
                cells == dx * dy,
                dx <= MAX_GRID_DIM,
                dy <= MAX_GRID_DIM,
                total == spec_grid_mesh(dx as int, dy as int),
                vertices@.len() == c * 6,
                forall|j: int| 0 <= j < c * 6 ==> vertices@[j] == total[j],
            decreases cells - c,
        {
            proof {
                assert(dy != 0) by {
                    if dy == 0 {
                        assert(cells == 0) by (nonlinear_arith)
                            requires
                                cells == dx * dy,
                                dy == 0;
                    }
                }
            }
            let xw = c / (dy as usize);
            let yw = c % (dy as usize);
            proof {
                assert(xw < dx && yw < dy) by (nonlinear_arith)
                    requires
                        c < dx * dy,
                        dy > 0,
                        xw == c as int / dy as int,
                        yw == c as int % dy as int;
            }
            let x = xw as u32;
            let y = yw as u32;
            proof {
                assert((x + 1) * (UNIT as int) <= 2001 * 1000 && (y + 1) * (UNIT as int) <= 2001
                    * 1000) by (nonlinear_arith)
                    requires
                        x < 2000,
                        y < 2000;
            }
            let x0 = (x * (UNIT as u32)) as i32;
            let x1 = ((x + 1) * (UNIT as u32)) as i32;
            let z0 = (y * (UNIT as u32)) as i32;
            let z1 = ((y + 1) * (UNIT as u32)) as i32;
            vertices.push(vertex_exec(x0, 0, z0, 0, 0));
            vertices.push(vertex_exec(x1, 0, z1, UNIT, UNIT));
            vertices.push(vertex_exec(x1, 0, z0, UNIT, 0));
            vertices.push(vertex_exec(x0, 0, z0, 0, 0));
            vertices.push(vertex_exec(x0, 0, z1, 0, UNIT));
            vertices.push(vertex_exec(x1, 0, z1, UNIT, UNIT));
            proof {
                assert forall|j: int| 0 <= j < (c + 1) * 6 implies vertices@[j] == total[j] by {
                    if j >= c * 6 {
                        assert(j / 6 == c && j == c * 6 + j % 6) by (nonlinear_arith)
                            requires
                                c * 6 <= j < c * 6 + 6;
                        assert(j < dx * dy * 6) by (nonlinear_arith)
                            requires
                                j < (c + 1) * 6,
                                c < dx * dy;
                        assert((j / 6) / (dy as int) == x as int && (j / 6) % (dy as int)
                            == y as int);
                        assert(total[j] == grid_cell_vertex(x as int, y as int, j % 6));
                    }
                }
            }
            c = c + 1;
        }
        proof {
            assert(vertices@ =~= total);
        }
        Model {
            mesh: Mesh { vertices },
            texture: RGBATexture::constant_color(grid_color_exec(), 8, 8),
        }
    }

    fn is_initilized(&self) -> (b: bool) {
        self.model.is_some()
    }

    fn get_render_model(&self) -> (out: ObjectTickOutput)
        ensures
            out.transform.matrix@ == crate::spec_scale_matrix(Point3 { x: UNIT, y: UNIT, z: UNIT }),
    {
        ObjectTickOutput {
            model: self.model,
            transform: RenderTransform::new_scale(&Point3 { x: UNIT, y: UNIT, z: UNIT }),
        }
    }

    fn submit_render_model(&mut self, model: RuntimeModel)
        ensures
            *final(self) == (WorldGrid {
                dim_x: old(self).dim_x,
                dim_y: old(self).dim_y,
                model: Some(model),
            }),
    {
        self.model = Some(model);
    }

    fn get_gui_g(&mut self) -> (g: GetGuiOutput)
        ensures
            g is NoGui,
            *final(self) == *old(self),
    {
        GetGuiOutput::NoGui
    }

    fn process_message_g(&mut self, message: &Message)
        ensures
            *final(self) == *old(self),
    {
    }

    fn get_screen_collider_g(&self, camera: &Camera) -> (ts: Vec<Triangle>)
        ensures
            ts@ == Seq::<Triangle>::empty(),
    {
        let ts: Vec<Triangle> = Vec::new();
        proof {
            assert(ts@ =~= Seq::<Triangle>::empty());
        }
        ts
    }
}

fn grid_color_exec() -> (c: Rgba)
    ensures
        c == grid_color(),
{
    Rgba { r: 0, g: 255, b: 255, a: 255 }
}

fn vertex_exec(x: i32, y: i32, z: i32, u: i32, w: i32) -> (v: Vertex)
    ensures
        v == vtx(x as int, y as int, z as int, u as int, w as int),
{
    Vertex { position: Point3 { x, y, z }, uv: Point2 { x: u, y: w } }
}

/// An object-local hit-test shape: a flat list of triangle corners, three
/// per triangle.
pub struct Collider {
    pub mesh: Vec<Point3>,
}

/// The collider projected into screen space: each consecutive corner triple
/// becomes one screen triangle; a trailing partial triple is dropped.
pub open spec fn spec_screenspace_collider(pts: Seq<Point3>, cam: Camera) -> Seq<Triangle> {
    Seq::new(
        (pts.len() / 3) as nat,
        |k: int|
            Triangle {
                a: cam.spec_project(pts[3 * k]),
                b: cam.spec_project(pts[3 * k + 1]),
                c: cam.spec_project(pts[3 * k + 2]),
            },
    )
}

impl Collider {
    /// Projects the local collider through the camera's hit-test projection.
    pub fn get_screenspace_collider(&self, camera: &Camera) -> (ts: Vec<Triangle>)
        requires
            camera.wf(),
        ensures
            ts@ == spec_screenspace_collider(self.mesh@, *camera),
    {
        let n = self.mesh.len() / 3;
        proof {
            vstd::arithmetic::div_mod::lemma_fundamental_div_mod(self.mesh@.len() as int, 3);
        }
        let mut ts: Vec<Triangle> = Vec::new();
        let mut k: usize = 0;
        while k < n
            invariant
                k <= n,
                n == self.mesh@.len() / 3,
                3 * n <= self.mesh@.len(),
                self.mesh@.len() <= usize::MAX,
                camera.wf(),
                ts@.len() == k,
                forall|j: int| 0 <= j < k ==> ts@[j] == spec_screenspace_collider(
                    self.mesh@, *camera)[j],
            decreases n - k,
        {
            proof {
                assert(3 * k + 2 < 3 * n) by (nonlinear_arith)
                    requires
                        k < n,
                ;
            }
            let a = camera.project_point(&self.mesh[3 * k]);
            let b = camera.project_point(&self.mesh[3 * k + 1]);
            let c = camera.project_point(&self.mesh[3 * k + 2]);
            ts.push(Triangle { a, b, c });
            k = k + 1;
        }
        proof {
            assert(ts@ =~= spec_screenspace_collider(self.mesh@, *camera));
        }
        ts
    }
}

/// What an actor kind supplies: geometry, a local collider, and a per-frame
/// draw transform.  The adapter [`SimpleActor`] turns any behavior into a
/// full scene object.
pub trait ActorBehavior: Sized {
    /// The behavior's mesh.
    spec fn spec_mesh(self) -> Seq<Vertex>;

    /// What the behavior's texture looks like.
    spec fn texture_spec(self, t: RGBATexture) -> bool;

    /// The behavior's local collider corners.
    spec fn spec_collider(self) -> Seq<Point3>;

    /// The behavior's draw transform, as a row-major matrix view.
    spec fn spec_transform_matrix(self) -> Seq<i64>;

    fn get_model(&self) -> (m: Model)
        ensures
            m.mesh.vertices@ == self.spec_mesh(),
            self.texture_spec(m.texture),
    ;

    fn get_collider(&self) -> (c: Collider)
        ensures
            c.mesh@ == self.spec_collider(),
    ;

    fn get_render_transform(&self) -> (t: RenderTransform)
        ensures
            t.matrix@ == self.spec_transform_matrix(),
    ;
}

/// Wraps a behavior into the scene-object interface, adding the resource
/// lifecycle, message log, and UI bookkeeping.  The collider is computed
/// once at construction from the behavior's local geometry.
pub struct SimpleActor<B: ActorBehavior> {
    pub actor: B,
    pub render_model: Option<RuntimeModel>,
    pub collider: Collider,
    /// Messages delivered to this actor, oldest first.
    pub received: Vec<Message>,
    /// A container waiting to be published.
    pub pending_ui: Option<GuiContainer>,
    /// Whether a container of this actor is currently published.
    pub has_ui: bool,
}

impl<B: ActorBehavior> SimpleActor<B> {
    /// An actor without UI, as most are.
    pub fn new(actor: B) -> (a: SimpleActor<B>)
        ensures
            a.collider.mesh@ == a.actor.spec_collider(),
            a.actor == actor,
            a.render_model is None,
            a.received@.len() == 0,
            a.pending_ui is None,
            !a.has_ui,
    {
        let collider = actor.get_collider();
        SimpleActor {
            actor,
            render_model: None,
            collider,
            received: Vec::new(),
            pending_ui: None,
            has_ui: false,
        }
    }

    /// An actor that publishes `ui` on its first frame and keeps it
    /// afterwards.
    pub fn new_with_ui(actor: B, ui: GuiContainer) -> (a: SimpleActor<B>)
        ensures
            a.collider.mesh@ == a.actor.spec_collider(),
            a.actor == actor,
            a.render_model is None,
            a.received@.len() == 0,
            a.pending_ui == Some(ui),
            !a.has_ui,
    {
        let collider = actor.get_collider();
        SimpleActor {
            actor,
            render_model: None,
            collider,
            received: Vec::new(),
            pending_ui: Some(ui),
            has_ui: false,
        }
    }
}

impl<B: ActorBehavior> GameObject for SimpleActor<B> {
    open spec fn wf(self) -> bool {
        self.collider.mesh@ == self.actor.spec_collider()
    }

    open spec fn initialized(self) -> bool {
        self.render_model is Some
    }

    open spec fn render_model(self) -> Option<RuntimeModel> {
        self.render_model
    }

    open spec fn model_spec(self, m: Model) -> bool {
        &&& m.mesh.vertices@ == self.actor.spec_mesh()
        &&& self.actor.texture_spec(m.texture)
    }

    fn get_model(&self) -> (m: Model) {
        self.actor.get_model()
    }

    fn is_initilized(&self) -> (b: bool) {
        self.render_model.is_some()
    }

    fn get_render_model(&self) -> (out: ObjectTickOutput)
        ensures
            out.transform.matrix@ == self.actor.spec_transform_matrix(),
    {
        ObjectTickOutput { model: self.render_model, transform: self.actor.get_render_transform() }
    }

    fn submit_render_model(&mut self, model: RuntimeModel)
        ensures
            final(self).actor == old(self).actor,
            final(self).collider == old(self).collider,
            final(self).received == old(self).received,
            final(self).pending_ui == old(self).pending_ui,
            final(self).has_ui == old(self).has_ui,
            final(self).render_model == Some(model),
    {
        self.render_model = Some(model);
    }

    fn get_gui_g(&mut self) -> (g: GetGuiOutput)
        ensures
            final(self).actor == old(self).actor,
            final(self).collider == old(self).collider,
            final(self).received == old(self).received,
            final(self).render_model == old(self).render_model,
            final(self).pending_ui is None,
            final(self).has_ui == (old(self).has_ui || old(self).pending_ui is Some),
            g == (match old(self).pending_ui {
                Some(c) => GetGuiOutput::Container(c),
                None => if old(self).has_ui {
                    GetGuiOutput::NoChange
                } else {
                    GetGuiOutput::NoGui
                },
            }),
    {
        let pending = self.pending_ui.take();
        match pending {
            Some(c) => {
                self.has_ui = true;
                GetGuiOutput::Container(c)
            }
            None => {
                if self.has_ui {
                    GetGuiOutput::NoChange
                } else {
                    GetGuiOutput::NoGui
                }
            }
        }
    }

    fn process_message_g(&mut self, message: &Message)
        ensures
            final(self).actor == old(self).actor,
            final(self).collider == old(self).collider,
            final(self).received@ == old(self).received@.push(*message),
            final(self).render_model == old(self).render_model,
            final(self).pending_ui == old(self).pending_ui,
            final(self).has_ui == old(self).has_ui,
    {
        self.received.push(*message);
    }

    fn get_screen_collider_g(&self, camera: &Camera) -> (ts: Vec<Triangle>)
        ensures
            ts@ == spec_screenspace_collider(self.collider.mesh@, *camera),
    {
        self.collider.get_screenspace_collider(camera)
    }
}

/// The skiing actor: a unit cube, drawn small, with a matching collider.
pub struct Skiier {}

/// The cube's half-extent, in fixed-point units.
pub const SKIIER_EXTENT: i32 = 1000;

/// The actor's draw scale (one tenth of a unit), in fixed-point units.
pub const SKIIER_SCALE: i32 = 100;

/// The skiing actor's texture color.
pub open spec fn skiier_color() -> Rgba {
    Rgba { r: 255, g: 0, b: 0, a: 255 }
}

/// The cube mesh: twelve triangles, two per face.
pub open spec fn skiier_mesh() -> Seq<Vertex> {
    let s = SKIIER_EXTENT as int;
    let t = UNIT as int;
    seq![
        vtx(-s, -s, s, 0, 0),
        vtx(s, s, s, t, t),
        vtx(s, -s, s, t, 0),
        vtx(-s, -s, s, 0, 0),
        vtx(-s, s, s, 0, t),
        vtx(s, s, s, t, t),
        vtx(s, -s, s, 0, 0),
        vtx(s, s, -s, 0, t),
        vtx(s, -s, -s, 0, t),
        vtx(s, -s, s, 0, 0),
        vtx(s, s, s, 0, t),
        vtx(s, s, -s, t, t),
        vtx(s, -s, -s, 0, 0),
        vtx(-s, -s, -s, t, 0),
        vtx(s, s, -s, 0, t),
        vtx(-s, -s, -s, t, 0),
        vtx(-s, s, -s, t, t),
        vtx(s, s, -s, 0, t),
        vtx(-s, -s, -s, 0, 0),
        vtx(-s, -s, s, t, 0),
        vtx(-s, s, s, t, t),
        vtx(-s, -s, -s, 0, 0),
        vtx(-s, s, s, t, t),
        vtx(-s, s, -s, 0, t),
        vtx(s, s, s, 0, 0),
        vtx(s, s, -s, 0, t),
        vtx(-s, s, -s, t, t),
        vtx(s, s, s, 0, 0),
        vtx(-s, s, -s, t, t),
        vtx(-s, s, s, 0, t),
        vtx(s, -s, s, 0, 0),
        vtx(-s, -s, s, t, 0),
        vtx(-s, -s, -s, t, t),
        vtx(s, -s, s, 0, 0),
        vtx(-s, -s, -s, t, t),
        vtx(s, -s, -s, 0, t),
    ]
}

/// The cube collider: the mesh's corner positions, in the same order.
pub open spec fn skiier_collider() -> Seq<Point3> {
    Seq::new(skiier_mesh().len(), |i: int| skiier_mesh()[i].position)
}

/// Builds the cube's vertex list.
fn skiier_vertices() -> (v: Vec<Vertex>)
    ensures
        v@ == skiier_mesh(),
{
    let s = SKIIER_EXTENT;
    let t = UNIT;
    let mut v: Vec<Vertex> = Vec::new();
    v.push(vertex_exec(-s, -s, s, 0, 0));
    v.push(vertex_exec(s, s, s, t, t));
    v.push(vertex_exec(s, -s, s, t, 0));
    v.push(vertex_exec(-s, -s, s, 0, 0));
    v.push(vertex_exec(-s, s, s, 0, t));
    v.push(vertex_exec(s, s, s, t, t));
    v.push(vertex_exec(s, -s, s, 0, 0));
    v.push(vertex_exec(s, s, -s, 0, t));
    v.push(vertex_exec(s, -s, -s, 0, t));
    v.push(vertex_exec(s, -s, s, 0, 0));
    v.push(vertex_exec(s, s, s, 0, t));
    v.push(vertex_exec(s, s, -s, t, t));
    v.push(vertex_exec(s, -s, -s, 0, 0));
    v.push(vertex_exec(-s, -s, -s, t, 0));
    v.push(vertex_exec(s, s, -s, 0, t));
    v.push(vertex_exec(-s, -s, -s, t, 0));
    v.push(vertex_exec(-s, s, -s, t, t));
    v.push(vertex_exec(s, s, -s, 0, t));
    v.push(vertex_exec(-s, -s, -s, 0, 0));
    v.push(vertex_exec(-s, -s, s, t, 0));
    v.push(vertex_exec(-s, s, s, t, t));
    v.push(vertex_exec(-s, -s, -s, 0, 0));
    v.push(vertex_exec(-s, s, s, t, t));
    v.push(vertex_exec(-s, s, -s, 0, t));
    v.push(vertex_exec(s, s, s, 0, 0));
    v.push(vertex_exec(s, s, -s, 0, t));
    v.push(vertex_exec(-s, s, -s, t, t));
    v.push(vertex_exec(s, s, s, 0, 0));
    v.push(vertex_exec(-s, s, -s, t, t));
    v.push(vertex_exec(-s, s, s, 0, t));
    v.push(vertex_exec(s, -s, s, 0, 0));
    v.push(vertex_exec(-s, -s, s, t, 0));
    v.push(vertex_exec(-s, -s, -s, t, t));
    v.push(vertex_exec(s, -s, s, 0, 0));
    v.push(vertex_exec(-s, -s, -s, t, t));
    v.push(vertex_exec(s, -s, -s, 0, t));
    proof {
        assert(v@ =~= skiier_mesh());
    }
    v
}

impl Skiier {
    /// A fresh skiing actor, wrapped as a scene object.
    pub fn new() -> (o: SceneObject)
        ensures
            o matches SceneObject::Actor(a) && (a.collider.mesh@ == skiier_collider()
                && a.received@.len() == 0 && a.render_model is None && a.pending_ui is None
                && !a.has_ui),
            o.wf(),
            !o.initialized(),
    {
        SceneObject::Actor(SimpleActor::new(Skiier {}))
    }
}

impl ActorBehavior for Skiier {
    open spec fn spec_mesh(self) -> Seq<Vertex> {
        skiier_mesh()
    }

    open spec fn texture_spec(self, t: RGBATexture) -> bool {
        is_constant_texture(t, 8, 8, skiier_color())
    }

    open spec fn spec_collider(self) -> Seq<Point3> {
        skiier_collider()
    }

    open spec fn spec_transform_matrix(self) -> Seq<i64> {
        crate::spec_scale_matrix(Point3 { x: SKIIER_SCALE, y: SKIIER_SCALE, z: SKIIER_SCALE })
    }

    fn get_model(&self) -> (m: Model) {
        Model {
            mesh: Mesh { vertices: skiier_vertices() },
            texture: RGBATexture::constant_color(
                Rgba { r: 255, g: 0, b: 0, a: 255 },
                8,
                8,
            ),
        }
    }

    fn get_collider(&self) -> (c: Collider) {
        let vertices = skiier_vertices();
        let n = vertices.len();
        let mut mesh: Vec<Point3> = Vec::new();
        let mut i: usize = 0;
        while i < n
            invariant
                i <= n,
                n == vertices@.len(),
                vertices@ == skiier_mesh(),
                mesh@.len() == i,
                forall|j: int| 0 <= j < i ==> mesh@[j] == skiier_mesh()[j].position,
            decreases n - i,
        {
            mesh.push(vertices[i].position);
            i = i + 1;
        }
        proof {
            assert(mesh@ =~= skiier_collider());
        }
        Collider { mesh }
    }

    fn get_render_transform(&self) -> (t: RenderTransform) {
        RenderTransform::new_scale(&Point3 { x: SKIIER_SCALE, y: SKIIER_SCALE, z: SKIIER_SCALE })
    }
}

/// The closed set of objects a world store holds.
pub enum SceneObject {
    Grid(WorldGrid),
    Actor(SimpleActor<Skiier>),
}

impl SceneObject {
    /// Messages delivered to this object so far (its reaction record).
    pub open spec fn received_of(self) -> Seq<Message> {
        match self {
            SceneObject::Grid(_) => Seq::<Message>::empty(),
            SceneObject::Actor(a) => a.received@,
        }
    }

    /// The container waiting to be published, if any.
    pub open spec fn pending_of(self) -> Option<GuiContainer> {
        match self {
            SceneObject::Grid(_) => None,
            SceneObject::Actor(a) => a.pending_ui,
        }
    }

    /// Whether the object currently has a published container.
    pub open spec fn has_ui_of(self) -> bool {
        match self {
            SceneObject::Grid(_) => false,
            SceneObject::Actor(a) => a.has_ui,
        }
    }

    /// Whether the object keeps a log of delivered messages; the grid
    /// ignores them.
    pub open spec fn logs_messages(self) -> bool {
        self is Actor
    }

    /// Everything a frame's dispatch leaves untouched: the object's kind,
    /// its behavior state, its collider, and its render resource.
    pub open spec fn same_core(self, other: SceneObject) -> bool {
        match (self, other) {
            (SceneObject::Grid(g1), SceneObject::Grid(g2)) => g1 == g2,
            (SceneObject::Actor(a1), SceneObject::Actor(a2)) => {
                &&& a1.actor == a2.actor
                &&& a1.render_model == a2.render_model
                &&& a1.collider == a2.collider
            },
            _ => false,
        }
    }

    /// The object's screen-space collider under `cam`.
    pub open spec fn screen_collider(self, cam: Camera) -> Seq<Triangle> {
        match self {
            SceneObject::Grid(_) => Seq::<Triangle>::empty(),
            SceneObject::Actor(a) => spec_screenspace_collider(a.collider.mesh@, cam),
        }
    }

    /// The cursor hits the object's screen collider.
    pub open spec fn hit(self, cam: Camera, p: Point2) -> bool {
        exists|k: int|
            0 <= k < self.screen_collider(cam).len() && crate::geometry::triangle_hit(
                #[trigger] self.screen_collider(cam)[k],
                p,
            )
    }

    /// The draw transform the object reports, as a row-major matrix view.
    pub open spec fn transform_matrix_of(self) -> Seq<i64> {
        match self {
            SceneObject::Grid(_) => crate::spec_scale_matrix(Point3 { x: UNIT, y: UNIT, z: UNIT }),
            SceneObject::Actor(a) => a.actor.spec_transform_matrix(),
        }
    }

    /// What the object answers when asked for its UI this frame.
    pub open spec fn emit_output(self) -> GetGuiOutput {
        match self {
            SceneObject::Grid(_) => GetGuiOutput::NoGui,
            SceneObject::Actor(a) => match a.pending_ui {
                Some(c) => GetGuiOutput::Container(c),
                None => if a.has_ui {
                    GetGuiOutput::NoChange
                } else {
                    GetGuiOutput::NoGui
                },
            },
        }
    }
}

impl GameObject for SceneObject {
    open spec fn wf(self) -> bool {
        match self {
            SceneObject::Grid(g) => g.wf(),
            SceneObject::Actor(a) => a.wf() && (a.pending_ui matches Some(c) ==> c.wf()),
        }
    }

    open spec fn initialized(self) -> bool {
        match self {
            SceneObject::Grid(g) => g.initialized(),
            SceneObject::Actor(a) => a.initialized(),
        }
    }

    open spec fn render_model(self) -> Option<RuntimeModel> {
        match self {
            SceneObject::Grid(g) => g.render_model(),
            SceneObject::Actor(a) => GameObject::render_model(a),
        }
    }

    open spec fn model_spec(self, m: Model) -> bool {
        match self {
            SceneObject::Grid(g) => g.model_spec(m),
            SceneObject::Actor(a) => a.model_spec(m),
        }
    }

    fn get_model(&self) -> (m: Model) {
        match self {
            SceneObject::Grid(g) => g.get_model(),
            SceneObject::Actor(a) => a.get_model(),
        }
    }

    fn is_initilized(&self) -> (b: bool) {
        match self {
            SceneObject::Grid(g) => g.is_initilized(),
            SceneObject::Actor(a) => a.is_initilized(),
        }
    }

    fn get_render_model(&self) -> (out: ObjectTickOutput)
        ensures
            out.transform.matrix@ == self.transform_matrix_of(),
    {
        match self {
            SceneObject::Grid(g) => g.get_render_model(),
            SceneObject::Actor(a) => a.get_render_model(),
        }
    }

    fn submit_render_model(&mut self, model: RuntimeModel)
        ensures
            final(self).received_of() == old(self).received_of(),
            final(self).pending_of() == old(self).pending_of(),
            final(self).has_ui_of() == old(self).has_ui_of(),
            final(self).transform_matrix_of() == old(self).transform_matrix_of(),
            final(self).logs_messages() == old(self).logs_messages(),
            forall|cam: Camera, p: Point2| final(self).hit(cam, p) == old(self).hit(cam, p),
    {
        match self {
            SceneObject::Grid(g) => g.submit_render_model(model),
            SceneObject::Actor(a) => a.submit_render_model(model),
        }
        proof {
            assert forall|cam: Camera, p: Point2| self.hit(cam, p) == old(self).hit(cam, p) by {
                assert(self.screen_collider(cam) == old(self).screen_collider(cam));
            }
        }
    }

    fn get_gui_g(&mut self) -> (g: GetGuiOutput)
        ensures
            g == old(self).emit_output(),
            final(self).same_core(*old(self)),
            final(self).received_of() == old(self).received_of(),
            final(self).pending_of() is None,
            final(self).has_ui_of() == (old(self).has_ui_of() || old(self).pending_of() is Some),
            final(self).initialized() == old(self).initialized(),
            final(self).render_model() == old(self).render_model(),
    {
        match self {
            SceneObject::Grid(g) => g.get_gui_g(),
            SceneObject::Actor(a) => a.get_gui_g(),
        }
    }

    fn process_message_g(&mut self, message: &Message)
        ensures
            final(self).same_core(*old(self)),
            old(self).logs_messages() ==> final(self).received_of() == old(
                self).received_of().push(*message),
            !old(self).logs_messages() ==> final(self).received_of() == old(self).received_of(),
            final(self).pending_of() == old(self).pending_of(),
            final(self).has_ui_of() == old(self).has_ui_of(),
            final(self).initialized() == old(self).initialized(),
            final(self).render_model() == old(self).render_model(),
    {
        match self {
            SceneObject::Grid(g) => g.process_message_g(message),
            SceneObject::Actor(a) => a.process_message_g(message),
        }
    }

    fn get_screen_collider_g(&self, camera: &Camera) -> (ts: Vec<Triangle>)
        ensures
            ts@ == self.screen_collider(*camera),
    {
        match self {
            SceneObject::Grid(g) => g.get_screen_collider_g(camera),
            SceneObject::Actor(a) => a.get_screen_collider_g(camera),
        }
    }
}

impl GuiParent for SceneObject {
    open spec fn gui_parent_wf(self) -> bool {
        self.wf()
    }

    fn get_gui(&mut self) -> GetGuiOutput {
        self.get_gui_g()
    }

    fn process_message(&mut self, message: &Message) {
        self.process_message_g(message)
    }

    fn get_screen_collider(&self, camera: &Camera) -> Vec<Triangle> {
        match self {
            SceneObject::Grid(g) => g.get_screen_collider_g(camera),
            SceneObject::Actor(a) => a.get_screen_collider_g(camera),
        }
    }
}



/// Every object held by the store is internally valid.
pub open spec fn objects_wf(s: Store<SceneObject>) -> bool {
    forall|i: int|
        0 <= i < s.slots@.len() ==> ((#[trigger] s.slots@[i]) matches Slot::Full { value, .. }
            ==> value.wf())
}

} // verus!
