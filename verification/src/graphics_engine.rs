//! Plain-data render resources: mesh geometry, RGBA textures, and the opaque
//! runtime-resource token a backend hands back after building them.
//!
//! The graphics backend itself (shader compilation, buffer and texture
//! upload, draw submission) lives outside this crate; this core only decides
//! *what* to build and draw, and records *whether* an object's resources
//! have been built.
use crate::geometry::Point2;
use crate::geometry::Point3;
use vstd::prelude::*;

verus! {

/// One mesh vertex: a position and a texture coordinate, in fixed-point
/// units.
#[derive(Clone, Copy, PartialEq, Eq, Structural, Debug)]
pub struct Vertex {
    pub position: Point3,
    pub uv: Point2,
}

/// Triangle-list geometry: every three consecutive vertices form one
/// triangle.
#[derive(Clone)]
pub struct Mesh {
    pub vertices: Vec<Vertex>,
}

/// One RGBA pixel, a byte per channel.
#[derive(Clone, Copy, PartialEq, Eq, Structural, Debug)]
pub struct Rgba {
    pub r: u8,
    pub g: u8,
    pub b: u8,
    pub a: u8,
}

/// A row-major RGBA texture.
#[derive(Clone)]
pub struct RGBATexture {
    pub width: u32,
    pub height: u32,
    pub pixels: Vec<Rgba>,
}

/// The flattened byte image of a pixel sequence: four bytes per pixel, in
/// R, G, B, A order.
pub open spec fn raw_of(pixels: Seq<Rgba>) -> Seq<u8> {
    Seq::new(
        pixels.len() * 4,
        |i: int|
            {
                let p = pixels[i / 4];
                if i % 4 == 0 {
                    p.r
                } else if i % 4 == 1 {
                    p.g
                } else if i % 4 == 2 {
                    p.b
                } else {
                    p.a
                }
            },
    )
}

impl RGBATexture {
    /// The pixel buffer covers the stated dimensions, and the flattened
    /// byte image stays within index range.
    pub open spec fn wf(self) -> bool {
        &&& self.pixels@.len() == self.width * self.height
        &&& self.width * self.height * 4 <= u32::MAX
    }

    /// Flattens the texture into raw row-major RGBA bytes, four per pixel.
    pub fn get_raw_vector(&self) -> (v: Vec<u8>)
        requires
            self.wf(),
        ensures
            v@ == raw_of(self.pixels@),
            v@.len() == self.pixels@.len() * 4,
    {
        let n = self.pixels.len();
        let mut v: Vec<u8> = Vec::new();
        let mut i: usize = 0;
        while i < n
            invariant
                i <= n,
                n == self.pixels@.len(),
                n * 4 <= usize::MAX,
                v@.len() == i * 4,
                forall|j: int| 0 <= j < i * 4 ==> v@[j] == raw_of(self.pixels@)[j],
            decreases n - i,
        {
            let p = self.pixels[i];
            v.push(p.r);
            v.push(p.g);
            v.push(p.b);
            v.push(p.a);
            proof {
                assert forall|j: int| 0 <= j < (i + 1) * 4 implies v@[j] == raw_of(
                    self.pixels@)[j] by {
                    if j >= i * 4 {
                        assert(j / 4 == i && (j == i * 4 + j % 4)) by (nonlinear_arith)
                            requires
                                i * 4 <= j < i * 4 + 4;
                    }
                }
            }
            i = i + 1;
        }
        proof {
            assert(v@ =~= raw_of(self.pixels@));
        }
        v
    }

    /// A texture of the given dimensions with every pixel set to `color`.
    pub fn constant_color(color: Rgba, width: u32, height: u32) -> (t: RGBATexture)
        requires
            width * height * 4 <= u32::MAX,
        ensures
            t.width == width,
            t.height == height,
            t.wf(),
            forall|i: int| 0 <= i < t.pixels@.len() ==> t.pixels@[i] == color,
    {
        let total = (width as usize) * (height as usize);
        let mut pixels: Vec<Rgba> = Vec::new();
        let mut i: usize = 0;
        while i < total
            invariant
                i <= total,
                pixels@.len() == i,
                forall|j: int| 0 <= j < i ==> pixels@[j] == color,
            decreases total - i,
        {
            pixels.push(color);
            i = i + 1;
        }
        RGBATexture { width, height, pixels }
    }
}

/// The opaque backend-built resource pair for one drawable thing: a mesh
/// identifier and a texture identifier, as issued by the backend.  The core
/// never looks inside; it only stores, compares and returns these tokens.
#[derive(Clone, Copy, PartialEq, Eq, Structural, Debug)]
pub struct RuntimeModel {
    pub mesh_id: u64,
    pub texture_id: u64,
}

} // verus!
