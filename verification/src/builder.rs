use vstd::prelude::*;
use crate::fx::SCALE;
use crate::vec3::{Float3, Color, Point3, bounded};
use crate::texture::{Texture, texture_wf};
use crate::material::{Material, material_wf};
use crate::shape::{Shape, ShapeKind, RectFace, RectAxisType, shape_wf, face_wf, rect_dims_wf};

verus! {

/// A fluent construction helper accumulating an in-progress texture,
/// material and shape. Selecting a material kind consumes the staged
/// texture; selecting a shape kind consumes the staged material; a
/// terminal call without its required staged state is a precondition
/// violation, not a recoverable error.
pub struct ShapeBuilder {
    pub texture: Option<Texture>,
    pub material: Option<Material>,
    pub shape: Option<Shape>,
}

/// Whatever the builder holds so far is well-formed.
pub open spec fn builder_wf(b: ShapeBuilder) -> bool {
    (match b.texture {
        Some(t) => texture_wf(t),
        None => true,
    }) && (match b.material {
        Some(m) => material_wf(m),
        None => true,
    }) && (match b.shape {
        Some(s) => shape_wf(s),
        None => true,
    })
}

/// The six axis-aligned faces of the box with opposite corners `p0` and
/// `p1`; the three faces swept first by a ray entering from the positive
/// side carry flipped normals.
pub open spec fn box_faces_s(p0: Point3, p1: Point3) -> Seq<RectFace> {
    seq![
        RectFace { x0: p0.x, x1: p1.x, y0: p0.y, y1: p1.y, k: p1.z, axis: RectAxisType::XY,
            flip: false },
        RectFace { x0: p0.x, x1: p1.x, y0: p0.y, y1: p1.y, k: p0.z, axis: RectAxisType::XY,
            flip: true },
        RectFace { x0: p0.x, x1: p1.x, y0: p0.z, y1: p1.z, k: p1.y, axis: RectAxisType::XZ,
            flip: false },
        RectFace { x0: p0.x, x1: p1.x, y0: p0.z, y1: p1.z, k: p0.y, axis: RectAxisType::XZ,
            flip: true },
        RectFace { x0: p0.y, x1: p1.y, y0: p0.z, y1: p1.z, k: p1.x, axis: RectAxisType::YZ,
            flip: false },
        RectFace { x0: p0.y, x1: p1.y, y0: p0.z, y1: p1.z, k: p0.x, axis: RectAxisType::YZ,
            flip: true },
    ]
}

/// Proper box corners: `p0` strictly below `p1` on every axis, both
/// within the world range.
pub open spec fn box_corners_wf(p0: Point3, p1: Point3) -> bool {
    bounded(p0, 0x400_0000) && bounded(p1, 0x400_0000) && p0.x < p1.x && p0.y < p1.y && p0.z
        < p1.z
}

/// Build the six faces of an axis-aligned box.
pub fn box_faces(p0: Point3, p1: Point3) -> (r: Vec<RectFace>)
    requires
        box_corners_wf(p0, p1),
    ensures
        r@ == box_faces_s(p0, p1),
        forall|i: int| 0 <= i < r@.len() ==> face_wf(#[trigger] r@[i]),
{
    let mut faces: Vec<RectFace> = Vec::new();
    faces.push(RectFace { x0: p0.x, x1: p1.x, y0: p0.y, y1: p1.y, k: p1.z,
        axis: RectAxisType::XY, flip: false });
    faces.push(RectFace { x0: p0.x, x1: p1.x, y0: p0.y, y1: p1.y, k: p0.z,
        axis: RectAxisType::XY, flip: true });
    faces.push(RectFace { x0: p0.x, x1: p1.x, y0: p0.z, y1: p1.z, k: p1.y,
        axis: RectAxisType::XZ, flip: false });
    faces.push(RectFace { x0: p0.x, x1: p1.x, y0: p0.z, y1: p1.z, k: p0.y,
        axis: RectAxisType::XZ, flip: true });
    faces.push(RectFace { x0: p0.y, x1: p1.y, y0: p0.z, y1: p1.z, k: p1.x,
        axis: RectAxisType::YZ, flip: false });
    faces.push(RectFace { x0: p0.y, x1: p1.y, y0: p0.z, y1: p1.z, k: p0.x,
        axis: RectAxisType::YZ, flip: true });
    proof {
        assert(faces@ =~= box_faces_s(p0, p1));
    }
    faces
}

impl ShapeBuilder {
    pub fn new() -> (r: Self)
        ensures
            r.texture is None,
            r.material is None,
            r.shape is None,
    {
        ShapeBuilder { texture: None, material: None, shape: None }
    }

    /// Stage a constant-color texture.
    pub fn color_texture(self, color: Color) -> (r: Self)
        requires
            builder_wf(self),
            bounded(color, 0x8000_0000),
        ensures
            builder_wf(r),
            r.texture == Some(Texture::Constant { color }),
            r.material == self.material,
            r.shape == self.shape,
    {
        ShapeBuilder { texture: Some(Texture::Constant { color }), ..self }
    }

    /// Stage a checkerboard texture of two constant colors.
    pub fn checker_texture(self, odd_color: Color, even_color: Color, freq: i64) -> (r: Self)
        requires
            builder_wf(self),
            bounded(odd_color, 0x8000_0000),
            bounded(even_color, 0x8000_0000),
            0 <= freq <= 0x800_0000,
        ensures
            builder_wf(r),
            r.texture == Some(Texture::Checker { odd: odd_color, even: even_color, freq }),
            r.material == self.material,
            r.shape == self.shape,
    {
        ShapeBuilder {
            texture: Some(Texture::Checker { odd: odd_color, even: even_color, freq }),
            ..self
        }
    }

    /// Stage an already-built material.
    pub fn material(self, material: Material) -> (r: Self)
        requires
            builder_wf(self),
            material_wf(material),
        ensures
            builder_wf(r),
            r.material == Some(material),
            r.texture == self.texture,
            r.shape == self.shape,
    {
        ShapeBuilder { material: Some(material), ..self }
    }

    /// Turn the staged texture into a diffuse material.
    pub fn lambertian(self) -> (r: Self)
        requires
            builder_wf(self),
            self.texture is Some,
        ensures
            builder_wf(r),
            r.material == Some(Material::Lambertian { albedo: self.texture.unwrap() }),
            r.texture is None,
            r.shape == self.shape,
    {
        match self {
            ShapeBuilder { texture: Some(t), material: _, shape } => ShapeBuilder {
                texture: None,
                material: Some(Material::Lambertian { albedo: t }),
                shape,
            },
            _ => unreached(),
        }
    }

    /// Turn the staged texture into a fuzzy metal material.
    pub fn metal(self, fuzz: i64) -> (r: Self)
        requires
            builder_wf(self),
            self.texture is Some,
            0 <= fuzz <= SCALE,
        ensures
            builder_wf(r),
            r.material == Some(Material::Metal { albedo: self.texture.unwrap(), fuzz }),
            r.texture is None,
            r.shape == self.shape,
    {
        match self {
            ShapeBuilder { texture: Some(t), material: _, shape } => ShapeBuilder {
                texture: None,
                material: Some(Material::Metal { albedo: t, fuzz }),
                shape,
            },
            _ => unreached(),
        }
    }

    /// Stage a refractive material; no texture is consumed.
    pub fn dielectric(self, ri: i64) -> (r: Self)
        requires
            builder_wf(self),
            0x1000 <= ri <= 0x10_0000,
        ensures
            builder_wf(r),
            r.material == Some(Material::Dielectric { ri }),
            r.texture == self.texture,
            r.shape == self.shape,
    {
        ShapeBuilder { material: Some(Material::Dielectric { ri }), ..self }
    }

    /// Turn the staged texture into a one-sided emitter.
    pub fn diffuse_light(self) -> (r: Self)
        requires
            builder_wf(self),
            self.texture is Some,
        ensures
            builder_wf(r),
            r.material == Some(Material::DiffuseLight { emit: self.texture.unwrap() }),
            r.texture is None,
            r.shape == self.shape,
    {
        match self {
            ShapeBuilder { texture: Some(t), material: _, shape } => ShapeBuilder {
                texture: None,
                material: Some(Material::DiffuseLight { emit: t }),
                shape,
            },
            _ => unreached(),
        }
    }

    /// Bind the staged material to a sphere.
    pub fn sphere(self, center: Point3, radius: i64) -> (r: Self)
        requires
            builder_wf(self),
            self.material is Some,
            bounded(center, 0x400_0000),
            1 <= radius <= 0x400_0000,
        ensures
            builder_wf(r),
            r.shape == Some(
                Shape {
                    kind: ShapeKind::Sphere { center, radius },
                    m: self.material.unwrap(),
                    flip: false,
                },
            ),
            r.material is None,
            r.texture == self.texture,
    {
        match self {
            ShapeBuilder { texture, material: Some(m), shape: _ } => ShapeBuilder {
                texture,
                material: None,
                shape: Some(Shape { kind: ShapeKind::Sphere { center, radius }, m, flip: false }),
            },
            _ => unreached(),
        }
    }

    /// Bind the staged material to a rectangle in the XY plane at `z = k`.
    pub fn rect_xy(self, x0: i64, x1: i64, y0: i64, y1: i64, k: i64) -> (r: Self)
        requires
            builder_wf(self),
            self.material is Some,
            rect_dims_wf(x0 as int, x1 as int, y0 as int, y1 as int, k as int),
        ensures
            builder_wf(r),
            r.shape == Some(
                Shape {
                    kind: ShapeKind::Rect { x0, x1, y0, y1, k, axis: RectAxisType::XY },
                    m: self.material.unwrap(),
                    flip: false,
                },
            ),
            r.material is None,
            r.texture == self.texture,
    {
        match self {
            ShapeBuilder { texture, material: Some(m), shape: _ } => ShapeBuilder {
                texture,
                material: None,
                shape: Some(
                    Shape {
                        kind: ShapeKind::Rect { x0, x1, y0, y1, k, axis: RectAxisType::XY },
                        m,
                        flip: false,
                    },
                ),
            },
            _ => unreached(),
        }
    }

    /// Bind the staged material to a rectangle in the XZ plane at `y = k`.
    pub fn rect_xz(self, x0: i64, x1: i64, y0: i64, y1: i64, k: i64) -> (r: Self)
        requires
            builder_wf(self),
            self.material is Some,
            rect_dims_wf(x0 as int, x1 as int, y0 as int, y1 as int, k as int),
        ensures
            builder_wf(r),
            r.shape == Some(
                Shape {
                    kind: ShapeKind::Rect { x0, x1, y0, y1, k, axis: RectAxisType::XZ },
                    m: self.material.unwrap(),
                    flip: false,
                },
            ),
            r.material is None,
            r.texture == self.texture,
    {
        match self {
            ShapeBuilder { texture, material: Some(m), shape: _ } => ShapeBuilder {
                texture,
                material: None,
                shape: Some(
                    Shape {
                        kind: ShapeKind::Rect { x0, x1, y0, y1, k, axis: RectAxisType::XZ },
                        m,
                        flip: false,
                    },
                ),
            },
            _ => unreached(),
        }
    }

    /// Bind the staged material to a rectangle in the YZ plane at `x = k`.
    pub fn rect_yz(self, x0: i64, x1: i64, y0: i64, y1: i64, k: i64) -> (r: Self)
        requires
            builder_wf(self),
            self.material is Some,
            rect_dims_wf(x0 as int, x1 as int, y0 as int, y1 as int, k as int),
        ensures
            builder_wf(r),
            r.shape == Some(
                Shape {
                    kind: ShapeKind::Rect { x0, x1, y0, y1, k, axis: RectAxisType::YZ },
                    m: self.material.unwrap(),
                    flip: false,
                },
            ),
            r.material is None,
            r.texture == self.texture,
    {
        match self {
            ShapeBuilder { texture, material: Some(m), shape: _ } => ShapeBuilder {
                texture,
                material: None,
                shape: Some(
                    Shape {
                        kind: ShapeKind::Rect { x0, x1, y0, y1, k, axis: RectAxisType::YZ },
                        m,
                        flip: false,
                    },
                ),
            },
            _ => unreached(),
        }
    }

    /// Bind the staged material to an axis-aligned box.
    pub fn box3d(self, p0: Point3, p1: Point3) -> (r: Self)
        requires
            builder_wf(self),
            self.material is Some,
            box_corners_wf(p0, p1),
        ensures
            builder_wf(r),
            (match r.shape {
                Some(s) => s.m == self.material.unwrap() && !s.flip && (match s.kind {
                    ShapeKind::Box3D { p0: q0, p1: q1, faces } => q0 == p0 && q1 == p1 && faces@
                        == box_faces_s(p0, p1),
                    _ => false,
                }),
                None => false,
            }),
            r.material is None,
            r.texture == self.texture,
    {
        let faces: Vec<RectFace> = box_faces(p0, p1);
        match self {
            ShapeBuilder { texture, material: Some(m), shape: _ } => ShapeBuilder {
                texture,
                material: None,
                shape: Some(Shape { kind: ShapeKind::Box3D { p0, p1, faces }, m, flip: false }),
            },
            _ => unreached(),
        }
    }

    /// Flip the staged shape's normal orientation.
    pub fn flip_face(self) -> (r: Self)
        requires
            builder_wf(self),
            self.shape is Some,
        ensures
            builder_wf(r),
            (match (r.shape, self.shape) {
                (Some(after), Some(before)) => after.kind == before.kind && after.m == before.m
                    && after.flip == !before.flip,
                _ => false,
            }),
            r.material == self.material,
            r.texture == self.texture,
    {
        match self {
            ShapeBuilder { texture, material, shape: Some(s) } => {
                let flipped: bool = !s.flip;
                ShapeBuilder {
                    texture,
                    material,
                    shape: Some(Shape { flip: flipped, ..s }),
                }
            },
            _ => unreached(),
        }
    }

    /// Finish: the built shape.
    pub fn build(self) -> (r: Shape)
        requires
            builder_wf(self),
            self.shape is Some,
        ensures
            Some(r) == self.shape,
            shape_wf(r),
    {
        match self {
            ShapeBuilder { texture: _, material: _, shape: Some(s) } => s,
            _ => unreached(),
        }
    }
}

} // verus!
