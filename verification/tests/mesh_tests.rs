use mesh_vao::context::{Attrib, GlContext};
use mesh_vao::mesh::{MeshError, VertexArrayObject};

/// The vertex data of the concrete scenario: three vertices of 5 floats
/// each (x, y, z, u, v), stored as their raw 32-bit words.
fn sample_vertices() -> Vec<u32> {
    let floats: Vec<f32> = vec![
        0.0, 0.0, 0.0, 0.0, 0.0, //
        1.0, 0.0, 0.0, 1.0, 0.0, //
        1.0, 1.0, 0.0, 1.0, 1.0,
    ];
    let mut words: Vec<u32> = Vec::new();
    for f in floats {
        words.push(f.to_bits());
    }
    words
}

fn sample_indices() -> Vec<u32> {
    vec![0, 1, 2]
}

/// The contents of the live buffer with the given handle, if any.
fn buffer_contents(ctx: &GlContext, id: u32) -> Option<Vec<u32>> {
    for b in &ctx.buffers {
        if b.id == id {
            return Some(b.data.clone());
        }
    }
    None
}

fn has_array(ctx: &GlContext, id: u32) -> bool {
    ctx.arrays.iter().any(|a| a.id == id)
}

fn alloc_count(ctx: &GlContext) -> usize {
    ctx.arrays.len() + ctx.buffers.len()
}

#[test]
fn construct_yields_three_distinct_nonzero_handles() {
    let mut ctx = GlContext::new();
    let mesh = VertexArrayObject::new(&mut ctx, &sample_vertices(), &sample_indices()).unwrap();
    assert_ne!(mesh.id, 0);
    assert_ne!(mesh.vbo, 0);
    assert_ne!(mesh.ebo, 0);
    assert_ne!(mesh.id, mesh.vbo);
    assert_ne!(mesh.id, mesh.ebo);
    assert_ne!(mesh.vbo, mesh.ebo);
}

#[test]
fn construct_succeeds_for_any_nonempty_vertex_data() {
    // a single vertex and a single index
    let mut ctx = GlContext::new();
    let vertices: Vec<u32> = vec![1, 2, 3, 4, 5];
    let indices: Vec<u32> = vec![0];
    let mesh = VertexArrayObject::new(&mut ctx, &vertices, &indices).unwrap();
    assert_eq!(buffer_contents(&ctx, mesh.vbo), Some(vertices));
    assert_eq!(buffer_contents(&ctx, mesh.ebo), Some(indices));
}

#[test]
fn construct_leaves_no_residual_binding() {
    let mut ctx = GlContext::new();
    let _mesh = VertexArrayObject::new(&mut ctx, &sample_vertices(), &sample_indices()).unwrap();
    assert_eq!(ctx.bound_array, 0);
    assert_eq!(ctx.bound_array_buffer, 0);
    assert_eq!(ctx.bound_element_buffer, 0);
}

#[test]
fn construct_uploads_data_verbatim() {
    let mut ctx = GlContext::new();
    let vertices = sample_vertices();
    let indices = sample_indices();
    let mesh = VertexArrayObject::new(&mut ctx, &vertices, &indices).unwrap();
    assert_eq!(buffer_contents(&ctx, mesh.vbo), Some(vertices));
    assert_eq!(buffer_contents(&ctx, mesh.ebo), Some(indices));
}

#[test]
fn construct_declares_fixed_two_attribute_layout() {
    let mut ctx = GlContext::new();
    let mesh = VertexArrayObject::new(&mut ctx, &sample_vertices(), &sample_indices()).unwrap();
    let array = ctx.arrays.iter().find(|a| a.id == mesh.id).unwrap();
    let position = Attrib {
        slot: 0,
        components: 3,
        stride_words: 5,
        offset_words: 0,
        buffer: mesh.vbo,
    };
    let texcoord = Attrib {
        slot: 1,
        components: 2,
        stride_words: 5,
        offset_words: 3,
        buffer: mesh.vbo,
    };
    assert_eq!(array.attribs, vec![position, texcoord]);
    assert_eq!(array.enabled, vec![0, 1]);
}

#[test]
fn bind_then_unbind_restores_bindings_to_none() {
    let mut ctx = GlContext::new();
    let mesh = VertexArrayObject::new(&mut ctx, &sample_vertices(), &sample_indices()).unwrap();
    mesh.bind(&mut ctx);
    assert_eq!(ctx.bound_array, mesh.id);
    assert_eq!(ctx.bound_array_buffer, mesh.vbo);
    assert_eq!(ctx.bound_element_buffer, mesh.ebo);
    mesh.unbind(&mut ctx);
    assert_eq!(ctx.bound_array, 0);
    assert_eq!(ctx.bound_array_buffer, 0);
    assert_eq!(ctx.bound_element_buffer, 0);
}

#[test]
fn bind_twice_is_idempotent() {
    let mut ctx = GlContext::new();
    let mesh = VertexArrayObject::new(&mut ctx, &sample_vertices(), &sample_indices()).unwrap();
    mesh.bind(&mut ctx);
    let count_after_first = alloc_count(&ctx);
    mesh.bind(&mut ctx);
    assert_eq!(ctx.bound_array, mesh.id);
    assert_eq!(ctx.bound_array_buffer, mesh.vbo);
    assert_eq!(ctx.bound_element_buffer, mesh.ebo);
    assert_eq!(alloc_count(&ctx), count_after_first);
}

#[test]
fn destroy_releases_exactly_the_three_owned_handles() {
    let mut ctx = GlContext::new();
    // an unrelated mesh that must survive
    let other = VertexArrayObject::new(&mut ctx, &sample_vertices(), &sample_indices()).unwrap();
    let count_before_construct = alloc_count(&ctx);
    let mesh = VertexArrayObject::new(&mut ctx, &sample_vertices(), &sample_indices()).unwrap();
    assert_eq!(alloc_count(&ctx), count_before_construct + 3);
    let (id, vbo, ebo) = (mesh.id, mesh.vbo, mesh.ebo);
    mesh.destroy(&mut ctx);
    assert_eq!(alloc_count(&ctx), count_before_construct);
    assert!(!has_array(&ctx, id));
    assert!(buffer_contents(&ctx, vbo).is_none());
    assert!(buffer_contents(&ctx, ebo).is_none());
    // the other mesh's handles are untouched
    assert!(has_array(&ctx, other.id));
    assert!(buffer_contents(&ctx, other.vbo).is_some());
    assert!(buffer_contents(&ctx, other.ebo).is_some());
}

#[test]
fn failed_vertex_upload_reports_error_and_leaks_nothing() {
    // the very first upload (vertex data) fails
    let mut ctx = GlContext::with_failing_upload(0);
    let r = VertexArrayObject::new(&mut ctx, &sample_vertices(), &sample_indices());
    assert_eq!(r.unwrap_err(), MeshError::BufferUploadError);
    assert_eq!(alloc_count(&ctx), 0);
    assert_eq!(ctx.bound_array, 0);
    assert_eq!(ctx.bound_array_buffer, 0);
    assert_eq!(ctx.bound_element_buffer, 0);
}

#[test]
fn failed_index_upload_releases_array_object_and_vertex_buffer() {
    // the second upload (index data) fails, after the vertex upload
    // succeeded
    let mut ctx = GlContext::with_failing_upload(1);
    let count_before = alloc_count(&ctx);
    let r = VertexArrayObject::new(&mut ctx, &sample_vertices(), &sample_indices());
    assert_eq!(r.unwrap_err(), MeshError::BufferUploadError);
    assert_eq!(alloc_count(&ctx), count_before);
    assert_eq!(ctx.arrays.len(), 0);
    assert_eq!(ctx.buffers.len(), 0);
}

#[test]
fn later_scheduled_failure_does_not_affect_construction() {
    // an upload beyond the two made here is scheduled to fail
    let mut ctx = GlContext::with_failing_upload(2);
    let r = VertexArrayObject::new(&mut ctx, &sample_vertices(), &sample_indices());
    assert!(r.is_ok());
}

#[test]
fn concrete_scenario_construct_bind_unbind_destroy() {
    let mut ctx = GlContext::new();
    let vertices = sample_vertices();
    let indices = sample_indices();
    assert_eq!(vertices.len(), 15);
    let mesh = VertexArrayObject::new(&mut ctx, &vertices, &indices).unwrap();
    mesh.bind(&mut ctx);
    mesh.unbind(&mut ctx);
    let (id, vbo, ebo) = (mesh.id, mesh.vbo, mesh.ebo);
    mesh.destroy(&mut ctx);
    assert!(!has_array(&ctx, id));
    assert!(buffer_contents(&ctx, vbo).is_none());
    assert!(buffer_contents(&ctx, ebo).is_none());
    assert_eq!(alloc_count(&ctx), 0);
}
