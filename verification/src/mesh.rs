//! The mesh handle: a wrapper owning one array object and two data buffers.
//!
//! Construction allocates the three handles, uploads the caller's vertex and
//! index words, declares the fixed two-attribute layout (3-component
//! position, 2-component texture coordinate, stride 5 words), and leaves all
//! bindings clear. Construction is all-or-nothing: if either upload reports
//! an error, every handle allocated along the way is released again.
//! Destruction releases exactly the three owned handles.

use vstd::prelude::*;
use crate::context::{
    find_array, find_buffer, same_bindings, same_objects, same_uploads, Attrib, BufferTarget,
    GlContext,
};

verus! {

/// The one construction error: the graphics API reported an error code after
/// a buffer-data upload.
#[derive(Clone, Copy, PartialEq, Eq, Structural, Debug)]
pub enum MeshError {
    BufferUploadError,
}

/// A drawable geometry object: one array object plus the vertex and index
/// buffers it is associated with. Not copyable: ownership of the three
/// handles moves with the value, and `destroy` consumes it.
#[derive(Debug)]
pub struct VertexArrayObject {
    /// Handle of the array object.
    pub id: u32,
    /// Handle of the vertex buffer object.
    pub vbo: u32,
    /// Handle of the element/index buffer object.
    pub ebo: u32,
}

/// The fixed position attribute: slot 0, 3 components, stride 5 words,
/// offset 0, reading from the given vertex buffer.
pub open spec fn position_attrib(vbo: u32) -> Attrib {
    Attrib { slot: 0, components: 3, stride_words: 5, offset_words: 0, buffer: vbo }
}

/// The fixed texture-coordinate attribute: slot 1, 2 components, stride 5
/// words, offset 3 words, reading from the given vertex buffer.
pub open spec fn texcoord_attrib(vbo: u32) -> Attrib {
    Attrib { slot: 1, components: 2, stride_words: 5, offset_words: 3, buffer: vbo }
}

/// The upload `k` steps ahead of the context's next one is scheduled to
/// fail.
pub open spec fn upload_fails_at(ctx: GlContext, k: int) -> bool {
    match ctx.failing_upload {
        Some(n) => n == ctx.upload_count + k,
        None => false,
    }
}

/// Construction from this context succeeds: neither of its two uploads
/// (vertex data first, then index data) is scheduled to fail.
pub open spec fn construct_succeeds(ctx: GlContext) -> bool {
    !upload_fails_at(ctx, 0) && !upload_fails_at(ctx, 1)
}

/// What a successful construction does to the context: one fresh array
/// object carrying the fixed two-attribute layout with both slots enabled,
/// two fresh buffers holding the vertex and index words, two uploads
/// counted, every other object untouched, and all three bindings left
/// clear.
pub open spec fn construct_step(
    pre: GlContext,
    post: GlContext,
    m: VertexArrayObject,
    vertices: Seq<u32>,
    indices: Seq<u32>,
) -> bool {
    &&& m.id != 0 && m.vbo != 0 && m.ebo != 0
    &&& m.id != m.vbo && m.id != m.ebo && m.vbo != m.ebo
    &&& find_array(pre.arrays@, m.id) is None
    &&& find_buffer(pre.buffers@, m.vbo) is None
    &&& find_buffer(pre.buffers@, m.ebo) is None
    &&& find_array(post.arrays@, m.id) == Some(
        (seq![position_attrib(m.vbo), texcoord_attrib(m.vbo)], seq![0u32, 1u32]),
    )
    &&& find_buffer(post.buffers@, m.vbo) == Some(vertices)
    &&& find_buffer(post.buffers@, m.ebo) == Some(indices)
    &&& forall|x: u32| x != m.id ==> find_array(post.arrays@, x) == find_array(pre.arrays@, x)
    &&& forall|x: u32|
        x != m.vbo && x != m.ebo ==> find_buffer(post.buffers@, x) == find_buffer(pre.buffers@, x)
    &&& post.arrays@.len() == pre.arrays@.len() + 1
    &&& post.buffers@.len() == pre.buffers@.len() + 2
    &&& post.next_id == pre.next_id + 3
    &&& post.upload_count == pre.upload_count + 2
    &&& post.failing_upload == pre.failing_upload
    &&& post.none_bound()
}

/// What a failed construction leaves behind: every handle allocated along
/// the way released again, every pre-existing object untouched, and all
/// three bindings left clear.
pub open spec fn construct_failed_step(pre: GlContext, post: GlContext) -> bool {
    &&& forall|x: u32| find_array(post.arrays@, x) == find_array(pre.arrays@, x)
    &&& forall|x: u32| find_buffer(post.buffers@, x) == find_buffer(pre.buffers@, x)
    &&& post.arrays@.len() == pre.arrays@.len()
    &&& post.buffers@.len() == pre.buffers@.len()
    &&& post.failing_upload == pre.failing_upload
    &&& post.none_bound()
}

/// What `bind` does to the context: the handle's three ids become the
/// active bindings; objects and upload state are untouched.
pub open spec fn bind_step(pre: GlContext, post: GlContext, m: VertexArrayObject) -> bool {
    &&& post.bound_array == m.id
    &&& post.bound_array_buffer == m.vbo
    &&& post.bound_element_buffer == m.ebo
    &&& same_objects(pre, post)
    &&& same_uploads(pre, post)
}

/// What `unbind` does to the context: all three bindings revert to none;
/// objects and upload state are untouched.
pub open spec fn unbind_step(pre: GlContext, post: GlContext) -> bool {
    &&& post.none_bound()
    &&& same_objects(pre, post)
    &&& same_uploads(pre, post)
}

/// What `destroy` does to the context: exactly the handle's three objects
/// are released and no others; a released object that was bound loses its
/// binding.
pub open spec fn destroy_step(pre: GlContext, post: GlContext, m: VertexArrayObject) -> bool {
    &&& find_array(post.arrays@, m.id) is None
    &&& find_buffer(post.buffers@, m.vbo) is None
    &&& find_buffer(post.buffers@, m.ebo) is None
    &&& forall|x: u32| x != m.id ==> find_array(post.arrays@, x) == find_array(pre.arrays@, x)
    &&& forall|x: u32|
        x != m.vbo && x != m.ebo ==> find_buffer(post.buffers@, x) == find_buffer(pre.buffers@, x)
    &&& post.arrays@.len() == pre.arrays@.len() - 1
    &&& post.buffers@.len() == pre.buffers@.len() - 2
    &&& post.next_id == pre.next_id
    &&& same_uploads(pre, post)
    &&& post.bound_array == (if pre.bound_array == m.id {
        0u32
    } else {
        pre.bound_array
    })
    &&& post.bound_array_buffer == (
    if pre.bound_array_buffer == m.vbo || pre.bound_array_buffer == m.ebo {
        0u32
    } else {
        pre.bound_array_buffer
    })
    &&& post.bound_element_buffer == (
    if pre.bound_element_buffer == m.vbo || pre.bound_element_buffer == m.ebo {
        0u32
    } else {
        pre.bound_element_buffer
    })
}

impl VertexArrayObject {
    /// The handle's three ids are nonzero, pairwise distinct, and live in
    /// the context.
    pub open spec fn valid_in(self, ctx: GlContext) -> bool {
        &&& self.id != 0 && self.vbo != 0 && self.ebo != 0
        &&& self.id != self.vbo && self.id != self.ebo && self.vbo != self.ebo
        &&& find_array(ctx.arrays@, self.id) is Some
        &&& find_buffer(ctx.buffers@, self.vbo) is Some
        &&& find_buffer(ctx.buffers@, self.ebo) is Some
    }

    /// Create a new mesh handle from vertex words (5 per vertex: x, y, z,
    /// u, v) and index words (triangles).
    ///
    /// Succeeds if and only if neither upload is scheduled to fail, and then
    /// performs exactly a `construct_step`. On failure it returns
    /// `BufferUploadError` and performs a `construct_failed_step`: the
    /// partially built resources are released, nothing leaks. Either way the
    /// three bindings are left clear.
    pub fn new(ctx: &mut GlContext, vertices: &Vec<u32>, indices: &Vec<u32>) -> (r: Result<
        VertexArrayObject,
        MeshError,
    >)
        requires
            old(ctx).wf(),
            old(ctx).next_id <= u32::MAX - 3,
            old(ctx).upload_count <= u32::MAX - 2,
        ensures
            final(ctx).wf(),
            r is Ok <==> construct_succeeds(*old(ctx)),
            final(ctx).none_bound(),
            final(ctx).next_id <= old(ctx).next_id + 3,
            (match r {
                Ok(m) => construct_step(*old(ctx), *final(ctx), m, vertices@, indices@)
                    && m.valid_in(*final(ctx)),
                Err(e) => e == MeshError::BufferUploadError && construct_failed_step(
                    *old(ctx),
                    *final(ctx),
                ),
            }),
    {
        // create the array object and the vertex buffer, and upload the
        // vertex data
        let id = ctx.gen_vertex_array();
        ctx.bind_vertex_array(id);
        let vbo = ctx.gen_buffer();
        ctx.bind_buffer(BufferTarget::ArrayBuffer, vbo);
        let ok_vertices = ctx.buffer_data(BufferTarget::ArrayBuffer, vertices);
        if !ok_vertices {
            // release what was built so far and clear the bindings
            ctx.bind_buffer(BufferTarget::ArrayBuffer, 0);
            ctx.bind_buffer(BufferTarget::ElementArrayBuffer, 0);
            ctx.bind_vertex_array(0);
            ctx.delete_buffer(vbo);
            ctx.delete_vertex_array(id);
            return Err(MeshError::BufferUploadError);
        }
        // create the index buffer and upload the index data
        let ebo = ctx.gen_buffer();
        ctx.bind_buffer(BufferTarget::ElementArrayBuffer, ebo);
        let ok_indices = ctx.buffer_data(BufferTarget::ElementArrayBuffer, indices);
        if !ok_indices {
            ctx.bind_buffer(BufferTarget::ArrayBuffer, 0);
            ctx.bind_buffer(BufferTarget::ElementArrayBuffer, 0);
            ctx.bind_vertex_array(0);
            ctx.delete_buffer(ebo);
            ctx.delete_buffer(vbo);
            ctx.delete_vertex_array(id);
            return Err(MeshError::BufferUploadError);
        }
        // declare the fixed vertex layout: position then texture coordinate
        ctx.vertex_attrib_pointer(0, 3, 5, 0);
        ctx.enable_vertex_attrib_array(0);
        ctx.vertex_attrib_pointer(1, 2, 5, 3);
        ctx.enable_vertex_attrib_array(1);
        // leave no residual binding
        ctx.bind_buffer(BufferTarget::ArrayBuffer, 0);
        ctx.bind_buffer(BufferTarget::ElementArrayBuffer, 0);
        ctx.bind_vertex_array(0);
        proof {
            assert(Seq::<Attrib>::empty().push(position_attrib(vbo)).push(texcoord_attrib(vbo))
                =~= seq![position_attrib(vbo), texcoord_attrib(vbo)]);
            assert(Seq::<u32>::empty().push(0u32).push(1u32) =~= seq![0u32, 1u32]);
        }
        Ok(VertexArrayObject { id, vbo, ebo })
    }

    /// Make this mesh's array object, vertex buffer and index buffer the
    /// three active bindings. Assumes the handles are still valid; changes
    /// nothing but the process-wide binding state.
    pub fn bind(&self, ctx: &mut GlContext)
        requires
            self.valid_in(*old(ctx)),
        ensures
            bind_step(*old(ctx), *final(ctx), *self),
            final(ctx).wf() == old(ctx).wf(),
    {
        ctx.bind_vertex_array(self.id);
        ctx.bind_buffer(BufferTarget::ArrayBuffer, self.vbo);
        ctx.bind_buffer(BufferTarget::ElementArrayBuffer, self.ebo);
    }

    /// Clear all three bindings to none. Changes nothing but the
    /// process-wide binding state.
    pub fn unbind(&self, ctx: &mut GlContext)
        ensures
            unbind_step(*old(ctx), *final(ctx)),
            final(ctx).wf() == old(ctx).wf(),
    {
        ctx.bind_vertex_array(0);
        ctx.bind_buffer(BufferTarget::ArrayBuffer, 0);
        ctx.bind_buffer(BufferTarget::ElementArrayBuffer, 0);
    }

    /// Release the three owned handles. Consumes the mesh, so the release
    /// runs exactly once per handle.
    pub fn destroy(self, ctx: &mut GlContext)
        requires
            old(ctx).wf(),
            self.valid_in(*old(ctx)),
        ensures
            final(ctx).wf(),
            destroy_step(*old(ctx), *final(ctx), self),
    {
        ctx.delete_vertex_array(self.id);
        ctx.delete_buffer(self.vbo);
        ctx.delete_buffer(self.ebo);
    }
}

/// Law: binding a mesh and then unbinding restores all three binding
/// targets to none and leaves the allocation state untouched.
pub proof fn lemma_bind_then_unbind(
    c0: GlContext,
    c1: GlContext,
    c2: GlContext,
    m: VertexArrayObject,
)
    requires
        bind_step(c0, c1, m),
        unbind_step(c1, c2),
    ensures
        c2.none_bound(),
        same_objects(c0, c2),
        c2.alloc_count() == c0.alloc_count(),
{
}

/// Law: binding the same mesh twice in a row leaves the same three handles
/// active as binding it once, and allocates nothing either time.
pub proof fn lemma_bind_twice(c0: GlContext, c1: GlContext, c2: GlContext, m: VertexArrayObject)
    requires
        bind_step(c0, c1, m),
        bind_step(c1, c2, m),
    ensures
        same_bindings(c1, c2),
        same_objects(c1, c2),
        c1.alloc_count() == c0.alloc_count(),
        c2.alloc_count() == c0.alloc_count(),
{
}

/// Law: a successful construction followed by destruction of the handle it
/// returned releases exactly what construction allocated: the allocation
/// count and every handle's lookup return to their prior values.
pub proof fn lemma_construct_then_destroy(
    c0: GlContext,
    c1: GlContext,
    c2: GlContext,
    m: VertexArrayObject,
    vertices: Seq<u32>,
    indices: Seq<u32>,
)
    requires
        construct_step(c0, c1, m, vertices, indices),
        destroy_step(c1, c2, m),
    ensures
        c2.alloc_count() == c0.alloc_count(),
        forall|x: u32| find_array(c2.arrays@, x) == find_array(c0.arrays@, x),
        forall|x: u32| find_buffer(c2.buffers@, x) == find_buffer(c0.buffers@, x),
{
    assert forall|x: u32| find_array(c2.arrays@, x) == find_array(c0.arrays@, x) by {
        if x != m.id {
            assert(find_array(c2.arrays@, x) == find_array(c1.arrays@, x));
            assert(find_array(c1.arrays@, x) == find_array(c0.arrays@, x));
        }
    }
    assert forall|x: u32| find_buffer(c2.buffers@, x) == find_buffer(c0.buffers@, x) by {
        if x != m.vbo && x != m.ebo {
            assert(find_buffer(c2.buffers@, x) == find_buffer(c1.buffers@, x));
            assert(find_buffer(c1.buffers@, x) == find_buffer(c0.buffers@, x));
        }
    }
}

} // verus!
