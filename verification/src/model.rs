//! Assembling the triangle list of a mesh from indexed geometry.
use vstd::prelude::*;
use crate::triangle::Triangle;
use crate::vec3f::Vec3f;

verus! {

/// One corner of a shape: the index of its position in the object's vertex
/// list and, where the corner is textured, the index of its texture vertex.
#[derive(Debug, Copy, Clone, PartialEq, Eq, Structural)]
pub struct Corner {
    pub vertex: usize,
    pub texture: Option<usize>,
}

/// A shape of the geometry, given by its corners.
#[derive(Debug, Copy, Clone, PartialEq, Eq, Structural)]
pub enum Primitive {
    Point(Corner),
    Line(Corner, Corner),
    Triangle(Corner, Corner, Corner),
}

/// A group of shapes that share a material.
#[derive(Debug, PartialEq, Eq)]
pub struct Geometry {
    pub shapes: Vec<Primitive>,
}

/// A mesh object: the vertex lists and the shapes that index into them.
#[derive(Debug, PartialEq, Eq)]
pub struct Object {
    pub vertices: Vec<Vec3f>,
    pub tex_vertices: Vec<Vec3f>,
    pub geometry: Vec<Geometry>,
}

/// Everything an exchange file holds: its objects, in file order.
#[derive(Debug, PartialEq, Eq)]
pub struct ObjSet {
    pub objects: Vec<Object>,
}

/// Why a set of objects yields no model.
#[derive(Debug, Copy, Clone, PartialEq, Eq, Structural)]
pub enum ModelError {
    /// The set holds no object.
    NoObject,
    /// The first object holds no geometry.
    NoGeometry,
    /// A corner of the triangle at this position in the shape list has no
    /// texture vertex.
    MissingTexture { shape: usize },
    /// A corner of the triangle at this position names a vertex the object
    /// does not have.
    VertexOutOfRange { shape: usize },
    /// A corner of the triangle at this position names a texture vertex the
    /// object does not have.
    TextureOutOfRange { shape: usize },
}

/// What is wrong with the shape at position `shape`, if anything. Only
/// triangles are looked at; of several defects the first of missing texture,
/// vertex out of range, texture out of range is reported.
pub open spec fn shape_defect(
    vertices: Seq<Vec3f>,
    tex_vertices: Seq<Vec3f>,
    primitive: Primitive,
    shape: usize,
) -> Option<ModelError> {
    match primitive {
        Primitive::Triangle(a, b, c) => {
            if a.texture is None || b.texture is None || c.texture is None {
                Some(ModelError::MissingTexture { shape })
            } else if a.vertex >= vertices.len() || b.vertex >= vertices.len() || c.vertex
                >= vertices.len() {
                Some(ModelError::VertexOutOfRange { shape })
            } else if a.texture->0 >= tex_vertices.len() || b.texture->0 >= tex_vertices.len()
                || c.texture->0 >= tex_vertices.len() {
                Some(ModelError::TextureOutOfRange { shape })
            } else {
                None
            }
        },
        _ => None,
    }
}

/// The triangle that three sound corners describe.
pub open spec fn resolve(
    vertices: Seq<Vec3f>,
    tex_vertices: Seq<Vec3f>,
    a: Corner,
    b: Corner,
    c: Corner,
) -> Triangle {
    Triangle {
        vertices: [
            vertices[a.vertex as int],
            vertices[b.vertex as int],
            vertices[c.vertex as int],
        ],
        uv: [
            tex_vertices[a.texture->0 as int],
            tex_vertices[b.texture->0 as int],
            tex_vertices[c.texture->0 as int],
        ],
    }
}

/// The triangles among `shapes`, in order, each with its indices resolved;
/// points and lines are passed over.
pub open spec fn triangles_of(
    vertices: Seq<Vec3f>,
    tex_vertices: Seq<Vec3f>,
    shapes: Seq<Primitive>,
) -> Seq<Triangle>
    decreases shapes.len(),
{
    if shapes.len() == 0 {
        Seq::empty()
    } else {
        let rest = triangles_of(vertices, tex_vertices, shapes.drop_last());
        match shapes.last() {
            Primitive::Triangle(a, b, c) => rest.push(resolve(vertices, tex_vertices, a, b, c)),
            _ => rest,
        }
    }
}

/// Whether `shape` is the position of the first defective shape.
pub open spec fn first_defect(
    vertices: Seq<Vec3f>,
    tex_vertices: Seq<Vec3f>,
    shapes: Seq<Primitive>,
    shape: int,
) -> bool {
    &&& 0 <= shape < shapes.len()
    &&& shape_defect(vertices, tex_vertices, shapes[shape], shape as usize) is Some
    &&& forall|j: int|
        0 <= j < shape ==> shape_defect(vertices, tex_vertices, #[trigger] shapes[j], j as usize)
            is None
}

/// The model of a set of objects: the triangles of the first geometry of its
/// first object.
///
/// Succeeds exactly when there is such a geometry and each of its triangles
/// has three textured corners whose indices are in range; otherwise the
/// error names the first defect.
pub fn load_model(set: &ObjSet) -> (res: Result<Vec<Triangle>, ModelError>)
    ensures
        set.objects@.len() == 0 ==> res == Err::<Vec<Triangle>, ModelError>(ModelError::NoObject),
        set.objects@.len() > 0 && set.objects@[0].geometry@.len() == 0 ==> res == Err::<
            Vec<Triangle>,
            ModelError,
        >(ModelError::NoGeometry),
        set.objects@.len() > 0 && set.objects@[0].geometry@.len() > 0 ==> {
            let object = set.objects@[0];
            let shapes = object.geometry@[0].shapes@;
            match res {
                Ok(model) => {
                    &&& forall|j: int|
                        0 <= j < shapes.len() ==> shape_defect(
                            object.vertices@,
                            object.tex_vertices@,
                            #[trigger] shapes[j],
                            j as usize,
                        ) is None
                    &&& model@ == triangles_of(object.vertices@, object.tex_vertices@, shapes)
                },
                Err(e) => exists|i: int|
                    #![trigger shapes[i]]
                    first_defect(object.vertices@, object.tex_vertices@, shapes, i) && Some(e)
                        == shape_defect(
                        object.vertices@,
                        object.tex_vertices@,
                        shapes[i],
                        i as usize,
                    ),
            }
        },
{
    if set.objects.len() == 0 {
        return Err(ModelError::NoObject);
    }
    let object = &set.objects[0];
    if object.geometry.len() == 0 {
        return Err(ModelError::NoGeometry);
    }
    let shapes = &object.geometry[0].shapes;
    let mut model: Vec<Triangle> = Vec::new();
    let mut i: usize = 0;
    while i < shapes.len()
        invariant
            set.objects@.len() > 0,
            *object == set.objects@[0],
            object.geometry@.len() > 0,
            *shapes == object.geometry@[0].shapes,
            i <= shapes@.len(),
            forall|j: int|
                0 <= j < i ==> shape_defect(
                    object.vertices@,
                    object.tex_vertices@,
                    #[trigger] shapes@[j],
                    j as usize,
                ) is None,
            model@ == triangles_of(object.vertices@, object.tex_vertices@, shapes@.take(i as int)),
        decreases shapes@.len() - i,
    {
        proof {
            assert(shapes@.take(i + 1).drop_last() == shapes@.take(i as int));
        }
        match shapes[i] {
            Primitive::Triangle(a, b, c) => {
                let (ta, tb, tc) = match (a.texture, b.texture, c.texture) {
                    (Some(ta), Some(tb), Some(tc)) => (ta, tb, tc),
                    _ => {
                        proof {
                            assert(first_defect(
                                object.vertices@,
                                object.tex_vertices@,
                                shapes@,
                                i as int,
                            ));
                        }
                        return Err(ModelError::MissingTexture { shape: i });
                    },
                };
                let n = object.vertices.len();
                if a.vertex >= n || b.vertex >= n || c.vertex >= n {
                    proof {
                        assert(first_defect(
                            object.vertices@,
                            object.tex_vertices@,
                            shapes@,
                            i as int,
                        ));
                    }
                    return Err(ModelError::VertexOutOfRange { shape: i });
                }
                let m = object.tex_vertices.len();
                if ta >= m || tb >= m || tc >= m {
                    proof {
                        assert(first_defect(
                            object.vertices@,
                            object.tex_vertices@,
                            shapes@,
                            i as int,
                        ));
                    }
                    return Err(ModelError::TextureOutOfRange { shape: i });
                }
                model.push(
                    Triangle {
                        vertices: [
                            object.vertices[a.vertex],
                            object.vertices[b.vertex],
                            object.vertices[c.vertex],
                        ],
                        uv: [object.tex_vertices[ta], object.tex_vertices[tb], object.tex_vertices[tc]],
                    },
                );
            },
            _ => {},
        }
        i += 1;
    }
    proof {
        assert(shapes@.take(i as int) == shapes@);
    }
    Ok(model)
}

} // verus!
