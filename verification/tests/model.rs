use soft_render::model::{load_model, Corner, Geometry, ModelError, Object, ObjSet, Primitive};
use soft_render::triangle::Triangle;
use soft_render::vec3f::Vec3f;

fn corner(vertex: usize, texture: usize) -> Corner {
    Corner { vertex, texture: Some(texture) }
}

fn bare(vertex: usize) -> Corner {
    Corner { vertex, texture: None }
}

fn square(shapes: Vec<Primitive>) -> ObjSet {
    ObjSet {
        objects: vec![Object {
            vertices: vec![
                Vec3f::new(0, 0, 0),
                Vec3f::new(10, 0, 1),
                Vec3f::new(10, 10, 2),
                Vec3f::new(0, 10, 3),
            ],
            tex_vertices: vec![Vec3f::new(0, 0, 0), Vec3f::new(65536, 0, 0), Vec3f::new(0, 65536, 0)],
            geometry: vec![Geometry { shapes }],
        }],
    }
}

#[test]
fn triangles_are_resolved_in_order() {
    let set = square(vec![
        Primitive::Triangle(corner(0, 0), corner(1, 1), corner(2, 2)),
        Primitive::Triangle(corner(0, 2), corner(2, 1), corner(3, 0)),
    ]);
    let model = load_model(&set).unwrap();
    assert_eq!(
        model,
        vec![
            Triangle {
                vertices: [Vec3f::new(0, 0, 0), Vec3f::new(10, 0, 1), Vec3f::new(10, 10, 2)],
                uv: [Vec3f::new(0, 0, 0), Vec3f::new(65536, 0, 0), Vec3f::new(0, 65536, 0)],
            },
            Triangle {
                vertices: [Vec3f::new(0, 0, 0), Vec3f::new(10, 10, 2), Vec3f::new(0, 10, 3)],
                uv: [Vec3f::new(0, 65536, 0), Vec3f::new(65536, 0, 0), Vec3f::new(0, 0, 0)],
            },
        ]
    );
}

#[test]
fn points_and_lines_are_passed_over() {
    let set = square(vec![
        Primitive::Point(bare(99)),
        Primitive::Triangle(corner(3, 0), corner(2, 0), corner(1, 0)),
        Primitive::Line(bare(0), corner(77, 88)),
    ]);
    let model = load_model(&set).unwrap();
    assert_eq!(model.len(), 1);
    assert_eq!(
        model[0].vertices,
        [Vec3f::new(0, 10, 3), Vec3f::new(10, 10, 2), Vec3f::new(10, 0, 1)]
    );
}

#[test]
fn a_geometry_without_shapes_is_an_empty_model() {
    assert_eq!(load_model(&square(vec![])), Ok(vec![]));
}

#[test]
fn only_the_first_geometry_of_the_first_object_counts() {
    let mut set = square(vec![Primitive::Triangle(corner(0, 0), corner(1, 1), corner(2, 2))]);
    set.objects[0].geometry.push(Geometry {
        shapes: vec![Primitive::Triangle(corner(9, 9), corner(9, 9), corner(9, 9))],
    });
    set.objects.push(Object { vertices: vec![], tex_vertices: vec![], geometry: vec![] });
    assert_eq!(load_model(&set).unwrap().len(), 1);
}

#[test]
fn a_set_without_objects_has_no_model() {
    assert_eq!(load_model(&ObjSet { objects: vec![] }), Err(ModelError::NoObject));
}

#[test]
fn an_object_without_geometry_has_no_model() {
    let set = ObjSet {
        objects: vec![Object {
            vertices: vec![Vec3f::new(0, 0, 0)],
            tex_vertices: vec![],
            geometry: vec![],
        }],
    };
    assert_eq!(load_model(&set), Err(ModelError::NoGeometry));
}

#[test]
fn a_corner_without_texture_is_reported() {
    let set = square(vec![
        Primitive::Triangle(corner(0, 0), corner(1, 1), corner(2, 2)),
        Primitive::Triangle(corner(0, 0), bare(1), corner(2, 2)),
    ]);
    assert_eq!(load_model(&set), Err(ModelError::MissingTexture { shape: 1 }));
}

#[test]
fn a_vertex_out_of_range_is_reported() {
    let set = square(vec![Primitive::Triangle(corner(0, 0), corner(1, 1), corner(4, 2))]);
    assert_eq!(load_model(&set), Err(ModelError::VertexOutOfRange { shape: 0 }));
}

#[test]
fn a_texture_vertex_out_of_range_is_reported() {
    let set = square(vec![
        Primitive::Line(bare(0), bare(1)),
        Primitive::Triangle(corner(0, 0), corner(1, 1), corner(2, 2)),
        Primitive::Triangle(corner(0, 3), corner(1, 1), corner(2, 2)),
    ]);
    assert_eq!(load_model(&set), Err(ModelError::TextureOutOfRange { shape: 2 }));
}

#[test]
fn the_first_defect_is_the_one_reported() {
    let set = square(vec![
        Primitive::Triangle(corner(7, 0), corner(1, 1), corner(2, 2)),
        Primitive::Triangle(corner(0, 0), bare(1), corner(2, 2)),
    ]);
    assert_eq!(load_model(&set), Err(ModelError::VertexOutOfRange { shape: 0 }));
    let both = square(vec![Primitive::Triangle(corner(7, 9), bare(8), corner(2, 2))]);
    assert_eq!(load_model(&both), Err(ModelError::MissingTexture { shape: 0 }));
    let ranges = square(vec![Primitive::Triangle(corner(7, 9), corner(1, 1), corner(2, 2))]);
    assert_eq!(load_model(&ranges), Err(ModelError::VertexOutOfRange { shape: 0 }));
}
