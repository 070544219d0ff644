//! A mock graphics context: a counting model of the pieces of graphics-API
//! state that the mesh wrapper touches.
//!
//! The model tracks three kinds of process-wide state:
//! - which array objects and data buffers are currently allocated (live), and
//!   what each one holds;
//! - the three binding targets (array object, vertex buffer, index buffer),
//!   where the id `0` means "none";
//! - a running count of buffer uploads, together with an optional upload
//!   ordinal at which the mock reports an error (to simulate upload failure).
//!
//! Handles are allocated from a counter starting at `1`, so `0` is never a
//! live handle and every allocated handle is distinct.

use vstd::prelude::*;

verus! {

/// Which buffer-binding target a call addresses: the vertex-data buffer or
/// the element/index buffer.
#[derive(Clone, Copy, PartialEq, Eq, Structural, Debug)]
pub enum BufferTarget {
    /// The vertex-data buffer target.
    ArrayBuffer,
    /// The element/index buffer target.
    ElementArrayBuffer,
}

/// One vertex-attribute declaration recorded on an array object: the slot it
/// feeds, the number of 32-bit components, the stride and starting offset in
/// 32-bit words, and the vertex buffer the attribute reads from.
#[derive(Clone, Copy, PartialEq, Eq, Structural, Debug)]
pub struct Attrib {
    pub slot: u32,
    pub components: u32,
    pub stride_words: u32,
    pub offset_words: u32,
    pub buffer: u32,
}

/// The state kept for one live array object: its handle, the attribute
/// declarations made while it was bound (in call order), and the slots that
/// were enabled (in call order).
pub struct ArrayObject {
    pub id: u32,
    pub attribs: Vec<Attrib>,
    pub enabled: Vec<u32>,
}

/// The state kept for one live data buffer: its handle and the uploaded
/// contents, as raw 32-bit words.
pub struct BufferObject {
    pub id: u32,
    pub data: Vec<u32>,
}

/// The attribute declarations and enabled slots of the array object with
/// handle `id`, or `None` if no live array object has that handle.
pub open spec fn find_array(s: Seq<ArrayObject>, id: u32) -> Option<(Seq<Attrib>, Seq<u32>)>
    decreases s.len(),
{
    if s.len() == 0 {
        None
    } else if s[0].id == id {
        Some((s[0].attribs@, s[0].enabled@))
    } else {
        find_array(s.drop_first(), id)
    }
}

/// The contents of the buffer with handle `id`, or `None` if no live buffer
/// has that handle.
pub open spec fn find_buffer(s: Seq<BufferObject>, id: u32) -> Option<Seq<u32>>
    decreases s.len(),
{
    if s.len() == 0 {
        None
    } else if s[0].id == id {
        Some(s[0].data@)
    } else {
        find_buffer(s.drop_first(), id)
    }
}

/// If no live buffer has handle `id`, the lookup misses.
proof fn lemma_find_buffer_absent(s: Seq<BufferObject>, id: u32)
    requires
        forall|i: int| 0 <= i < s.len() ==> (#[trigger] s[i]).id != id,
    ensures
        find_buffer(s, id) == None::<Seq<u32>>,
    decreases s.len(),
{
    if s.len() > 0 {
        assert(forall|i: int|
            0 <= i < s.drop_first().len() ==> #[trigger] s.drop_first()[i] == s[i + 1]);
        lemma_find_buffer_absent(s.drop_first(), id);
    }
}

/// Appending a buffer leaves every lookup for another handle unchanged and
/// makes a fresh handle's lookup hit the new buffer.
proof fn lemma_find_buffer_push(s: Seq<BufferObject>, b: BufferObject, id: u32)
    ensures
        find_buffer(s.push(b), id) == (if find_buffer(s, id) is Some {
            find_buffer(s, id)
        } else if b.id == id {
            Some(b.data@)
        } else {
            None::<Seq<u32>>
        }),
    decreases s.len(),
{
    if s.len() == 0 {
        assert(s.push(b)[0] == b);
        assert(s.push(b).drop_first() =~= Seq::<BufferObject>::empty());
        if b.id != id {
            assert(find_buffer(s.push(b), id) == find_buffer(s.push(b).drop_first(), id));
            assert(find_buffer(Seq::<BufferObject>::empty(), id) == None::<Seq<u32>>);
        }
    } else {
        assert(s.push(b)[0] == s[0]);
        assert(s.push(b).drop_first() =~= s.drop_first().push(b));
        lemma_find_buffer_push(s.drop_first(), b, id);
        if s[0].id == id {
            assert(find_buffer(s.push(b), id) == Some(s[0].data@));
            assert(find_buffer(s, id) == Some(s[0].data@));
        } else {
            assert(find_buffer(s.push(b), id) == find_buffer(s.drop_first().push(b), id));
            assert(find_buffer(s, id) == find_buffer(s.drop_first(), id));
        }
    }
}

/// Overwriting the first buffer that has a handle changes that handle's
/// lookup to the new contents and no other handle's lookup.
proof fn lemma_find_buffer_update(s: Seq<BufferObject>, k: int, b: BufferObject)
    requires
        0 <= k < s.len(),
        b.id == s[k].id,
        forall|i: int| 0 <= i < k ==> (#[trigger] s[i]).id != b.id,
    ensures
        find_buffer(s.update(k, b), b.id) == Some(b.data@),
        forall|x: u32| x != b.id ==> find_buffer(s.update(k, b), x) == find_buffer(s, x),
    decreases s.len(),
{
    let t = s.update(k, b);
    if k == 0 {
        assert(t[0] == b);
        assert(t.drop_first() =~= s.drop_first());
        assert(find_buffer(t, b.id) == Some(b.data@));
        assert forall|x: u32| x != b.id implies find_buffer(t, x) == find_buffer(s, x) by {
            assert(find_buffer(t, x) == find_buffer(t.drop_first(), x));
            assert(find_buffer(s, x) == find_buffer(s.drop_first(), x));
        }
    } else {
        assert(t[0] == s[0]);
        assert(t.drop_first() =~= s.drop_first().update(k - 1, b));
        assert(forall|i: int|
            0 <= i < s.drop_first().len() ==> #[trigger] s.drop_first()[i] == s[i + 1]);
        lemma_find_buffer_update(s.drop_first(), k - 1, b);
        assert(s[0].id != b.id);
        assert(find_buffer(t, b.id) == find_buffer(s.drop_first().update(k - 1, b), b.id));
        assert forall|x: u32| x != b.id implies find_buffer(t, x) == find_buffer(s, x) by {
            if s[0].id == x {
                assert(find_buffer(t, x) == Some(s[0].data@));
                assert(find_buffer(s, x) == Some(s[0].data@));
            } else {
                assert(find_buffer(t, x) == find_buffer(s.drop_first().update(k - 1, b), x));
                assert(find_buffer(s, x) == find_buffer(s.drop_first(), x));
                assert(find_buffer(s.drop_first().update(k - 1, b), x) == find_buffer(
                    s.drop_first(),
                    x,
                ));
            }
        }
    }
}

/// Removing the one buffer that has a handle makes that handle's lookup miss
/// and leaves every other handle's lookup unchanged.
proof fn lemma_find_buffer_remove(s: Seq<BufferObject>, k: int)
    requires
        0 <= k < s.len(),
        forall|i: int| 0 <= i < s.len() && i != k ==> (#[trigger] s[i]).id != s[k].id,
    ensures
        find_buffer(s.remove(k), s[k].id) == None::<Seq<u32>>,
        forall|x: u32| x != s[k].id ==> find_buffer(s.remove(k), x) == find_buffer(s, x),
    decreases s.len(),
{
    let t = s.remove(k);
    if k == 0 {
        assert(t =~= s.drop_first());
        assert(forall|i: int|
            0 <= i < s.drop_first().len() ==> #[trigger] s.drop_first()[i] == s[i + 1]);
        lemma_find_buffer_absent(s.drop_first(), s[0].id);
        assert forall|x: u32| x != s[k].id implies find_buffer(t, x) == find_buffer(s, x) by {
            assert(find_buffer(s, x) == find_buffer(s.drop_first(), x));
        }
    } else {
        assert(t[0] == s[0]);
        assert(t.drop_first() =~= s.drop_first().remove(k - 1));
        assert(forall|i: int|
            0 <= i < s.drop_first().len() ==> #[trigger] s.drop_first()[i] == s[i + 1]);
        lemma_find_buffer_remove(s.drop_first(), k - 1);
        assert(s[0].id != s[k].id);
        assert(s.drop_first()[k - 1] == s[k]);
        assert(find_buffer(t, s[k].id) == find_buffer(s.drop_first().remove(k - 1), s[k].id));
        assert forall|x: u32| x != s[k].id implies find_buffer(t, x) == find_buffer(s, x) by {
            if s[0].id == x {
                assert(find_buffer(t, x) == Some(s[0].data@));
                assert(find_buffer(s, x) == Some(s[0].data@));
            } else {
                assert(find_buffer(t, x) == find_buffer(s.drop_first().remove(k - 1), x));
                assert(find_buffer(s, x) == find_buffer(s.drop_first(), x));
                assert(find_buffer(s.drop_first().remove(k - 1), x) == find_buffer(
                    s.drop_first(),
                    x,
                ));
            }
        }
    }
}

/// If no live array object has handle `id`, the lookup misses.
proof fn lemma_find_array_absent(s: Seq<ArrayObject>, id: u32)
    requires
        forall|i: int| 0 <= i < s.len() ==> (#[trigger] s[i]).id != id,
    ensures
        find_array(s, id) == None::<(Seq<Attrib>, Seq<u32>)>,
    decreases s.len(),
{
    if s.len() > 0 {
        assert(forall|i: int|
            0 <= i < s.drop_first().len() ==> #[trigger] s.drop_first()[i] == s[i + 1]);
        lemma_find_array_absent(s.drop_first(), id);
    }
}

/// Appending an array object leaves every lookup for another handle
/// unchanged and makes a fresh handle's lookup hit the new object.
proof fn lemma_find_array_push(s: Seq<ArrayObject>, a: ArrayObject, id: u32)
    ensures
        find_array(s.push(a), id) == (if find_array(s, id) is Some {
            find_array(s, id)
        } else if a.id == id {
            Some((a.attribs@, a.enabled@))
        } else {
            None::<(Seq<Attrib>, Seq<u32>)>
        }),
    decreases s.len(),
{
    if s.len() == 0 {
        assert(s.push(a)[0] == a);
        assert(s.push(a).drop_first() =~= Seq::<ArrayObject>::empty());
        if a.id != id {
            assert(find_array(s.push(a), id) == find_array(s.push(a).drop_first(), id));
            assert(find_array(Seq::<ArrayObject>::empty(), id) == None::<(Seq<Attrib>, Seq<u32>)>);
        }
    } else {
        assert(s.push(a)[0] == s[0]);
        assert(s.push(a).drop_first() =~= s.drop_first().push(a));
        lemma_find_array_push(s.drop_first(), a, id);
        if s[0].id == id {
            assert(find_array(s.push(a), id) == Some((s[0].attribs@, s[0].enabled@)));
            assert(find_array(s, id) == Some((s[0].attribs@, s[0].enabled@)));
        } else {
            assert(find_array(s.push(a), id) == find_array(s.drop_first().push(a), id));
            assert(find_array(s, id) == find_array(s.drop_first(), id));
        }
    }
}

/// Overwriting the first array object that has a handle changes that
/// handle's lookup to the new state and no other handle's lookup.
proof fn lemma_find_array_update(s: Seq<ArrayObject>, k: int, a: ArrayObject)
    requires
        0 <= k < s.len(),
        a.id == s[k].id,
        forall|i: int| 0 <= i < k ==> (#[trigger] s[i]).id != a.id,
    ensures
        find_array(s.update(k, a), a.id) == Some((a.attribs@, a.enabled@)),
        forall|x: u32| x != a.id ==> find_array(s.update(k, a), x) == find_array(s, x),
    decreases s.len(),
{
    let t = s.update(k, a);
    if k == 0 {
        assert(t[0] == a);
        assert(t.drop_first() =~= s.drop_first());
        assert(find_array(t, a.id) == Some((a.attribs@, a.enabled@)));
        assert forall|x: u32| x != a.id implies find_array(t, x) == find_array(s, x) by {
            assert(find_array(t, x) == find_array(t.drop_first(), x));
            assert(find_array(s, x) == find_array(s.drop_first(), x));
        }
    } else {
        assert(t[0] == s[0]);
        assert(t.drop_first() =~= s.drop_first().update(k - 1, a));
        assert(forall|i: int|
            0 <= i < s.drop_first().len() ==> #[trigger] s.drop_first()[i] == s[i + 1]);
        lemma_find_array_update(s.drop_first(), k - 1, a);
        assert(s[0].id != a.id);
        assert(find_array(t, a.id) == find_array(s.drop_first().update(k - 1, a), a.id));
        assert forall|x: u32| x != a.id implies find_array(t, x) == find_array(s, x) by {
            if s[0].id == x {
                assert(find_array(t, x) == Some((s[0].attribs@, s[0].enabled@)));
                assert(find_array(s, x) == Some((s[0].attribs@, s[0].enabled@)));
            } else {
                assert(find_array(t, x) == find_array(s.drop_first().update(k - 1, a), x));
                assert(find_array(s, x) == find_array(s.drop_first(), x));
                assert(find_array(s.drop_first().update(k - 1, a), x) == find_array(
                    s.drop_first(),
                    x,
                ));
            }
        }
    }
}

/// Removing the one array object that has a handle makes that handle's
/// lookup miss and leaves every other handle's lookup unchanged.
proof fn lemma_find_array_remove(s: Seq<ArrayObject>, k: int)
    requires
        0 <= k < s.len(),
        forall|i: int| 0 <= i < s.len() && i != k ==> (#[trigger] s[i]).id != s[k].id,
    ensures
        find_array(s.remove(k), s[k].id) == None::<(Seq<Attrib>, Seq<u32>)>,
        forall|x: u32| x != s[k].id ==> find_array(s.remove(k), x) == find_array(s, x),
    decreases s.len(),
{
    let t = s.remove(k);
    if k == 0 {
        assert(t =~= s.drop_first());
        assert(forall|i: int|
            0 <= i < s.drop_first().len() ==> #[trigger] s.drop_first()[i] == s[i + 1]);
        lemma_find_array_absent(s.drop_first(), s[0].id);
        assert forall|x: u32| x != s[k].id implies find_array(t, x) == find_array(s, x) by {
            assert(find_array(s, x) == find_array(s.drop_first(), x));
        }
    } else {
        assert(t[0] == s[0]);
        assert(t.drop_first() =~= s.drop_first().remove(k - 1));
        assert(forall|i: int|
            0 <= i < s.drop_first().len() ==> #[trigger] s.drop_first()[i] == s[i + 1]);
        lemma_find_array_remove(s.drop_first(), k - 1);
        assert(s[0].id != s[k].id);
        assert(s.drop_first()[k - 1] == s[k]);
        assert(find_array(t, s[k].id) == find_array(s.drop_first().remove(k - 1), s[k].id));
        assert forall|x: u32| x != s[k].id implies find_array(t, x) == find_array(s, x) by {
            if s[0].id == x {
                assert(find_array(t, x) == Some((s[0].attribs@, s[0].enabled@)));
                assert(find_array(s, x) == Some((s[0].attribs@, s[0].enabled@)));
            } else {
                assert(find_array(t, x) == find_array(s.drop_first().remove(k - 1), x));
                assert(find_array(s, x) == find_array(s.drop_first(), x));
                assert(find_array(s.drop_first().remove(k - 1), x) == find_array(
                    s.drop_first(),
                    x,
                ));
            }
        }
    }
}

/// A lookup for the handle of the first buffer with that handle hits that
/// buffer.
proof fn lemma_find_buffer_first(s: Seq<BufferObject>, k: int)
    requires
        0 <= k < s.len(),
        forall|i: int| 0 <= i < k ==> (#[trigger] s[i]).id != s[k].id,
    ensures
        find_buffer(s, s[k].id) == Some(s[k].data@),
    decreases s.len(),
{
    if k > 0 {
        assert(forall|i: int|
            0 <= i < s.drop_first().len() ==> #[trigger] s.drop_first()[i] == s[i + 1]);
        lemma_find_buffer_first(s.drop_first(), k - 1);
        assert(s[0].id != s[k].id);
        assert(find_buffer(s, s[k].id) == find_buffer(s.drop_first(), s[k].id));
    }
}

/// A lookup for the handle of the first array object with that handle hits
/// that object.
proof fn lemma_find_array_first(s: Seq<ArrayObject>, k: int)
    requires
        0 <= k < s.len(),
        forall|i: int| 0 <= i < k ==> (#[trigger] s[i]).id != s[k].id,
    ensures
        find_array(s, s[k].id) == Some((s[k].attribs@, s[k].enabled@)),
    decreases s.len(),
{
    if k > 0 {
        assert(forall|i: int|
            0 <= i < s.drop_first().len() ==> #[trigger] s.drop_first()[i] == s[i + 1]);
        lemma_find_array_first(s.drop_first(), k - 1);
        assert(s[0].id != s[k].id);
        assert(find_array(s, s[k].id) == find_array(s.drop_first(), s[k].id));
    }
}

/// The mock graphics context.
pub struct GlContext {
    /// The next handle to hand out; always at least 1.
    pub next_id: u32,
    /// The live array objects.
    pub arrays: Vec<ArrayObject>,
    /// The live data buffers.
    pub buffers: Vec<BufferObject>,
    /// The currently bound array object, or 0 for none.
    pub bound_array: u32,
    /// The currently bound vertex-data buffer, or 0 for none.
    pub bound_array_buffer: u32,
    /// The currently bound element/index buffer, or 0 for none.
    pub bound_element_buffer: u32,
    /// How many uploads have been attempted so far.
    pub upload_count: u32,
    /// If `Some(n)`, the upload with ordinal `n` reports an error.
    pub failing_upload: Option<u32>,
}

impl GlContext {
    /// Well-formedness: handles are nonzero, below the allocation counter,
    /// and pairwise distinct within each namespace.
    pub open spec fn wf(self) -> bool {
        &&& self.next_id >= 1
        &&& forall|i: int|
            0 <= i < self.arrays@.len() ==> 0 < #[trigger] self.arrays@[i].id < self.next_id
        &&& forall|i: int|
            0 <= i < self.buffers@.len() ==> 0 < #[trigger] self.buffers@[i].id < self.next_id
        &&& forall|i: int, j: int|
            0 <= i < j < self.arrays@.len() ==> #[trigger] self.arrays@[i].id != #[trigger] self.arrays@[j].id
        &&& forall|i: int, j: int|
            0 <= i < j < self.buffers@.len() ==> #[trigger] self.buffers@[i].id != #[trigger] self.buffers@[j].id
    }

    /// The number of live objects (array objects and buffers together): the
    /// model's allocation count.
    pub open spec fn alloc_count(self) -> int {
        self.arrays@.len() as int + self.buffers@.len() as int
    }

    /// The binding of the given buffer target.
    pub open spec fn bound_of(self, target: BufferTarget) -> u32 {
        match target {
            BufferTarget::ArrayBuffer => self.bound_array_buffer,
            BufferTarget::ElementArrayBuffer => self.bound_element_buffer,
        }
    }

    /// All three binding targets are clear ("none").
    pub open spec fn none_bound(self) -> bool {
        &&& self.bound_array == 0
        &&& self.bound_array_buffer == 0
        &&& self.bound_element_buffer == 0
    }
}

/// Position of the first live buffer with handle `id`, scanning from the
/// front.
fn find_buffer_index(buffers: &Vec<BufferObject>, id: u32) -> (r: Option<usize>)
    ensures
        (match r {
            Some(i) => {
                &&& i < buffers@.len()
                &&& buffers@[i as int].id == id
                &&& forall|j: int| 0 <= j < i ==> (#[trigger] buffers@[j]).id != id
            },
            None => forall|j: int| 0 <= j < buffers@.len() ==> (#[trigger] buffers@[j]).id != id,
        }),
{
    let mut i: usize = 0;
    while i < buffers.len()
        invariant
            i <= buffers@.len(),
            forall|j: int| 0 <= j < i ==> (#[trigger] buffers@[j]).id != id,
        decreases buffers@.len() - i,
    {
        if buffers[i].id == id {
            return Some(i);
        }
        i = i + 1;
    }
    None
}

/// Position of the first live array object with handle `id`, scanning from
/// the front.
fn find_array_index(arrays: &Vec<ArrayObject>, id: u32) -> (r: Option<usize>)
    ensures
        (match r {
            Some(i) => {
                &&& i < arrays@.len()
                &&& arrays@[i as int].id == id
                &&& forall|j: int| 0 <= j < i ==> (#[trigger] arrays@[j]).id != id
            },
            None => forall|j: int| 0 <= j < arrays@.len() ==> (#[trigger] arrays@[j]).id != id,
        }),
{
    let mut i: usize = 0;
    while i < arrays.len()
        invariant
            i <= arrays@.len(),
            forall|j: int| 0 <= j < i ==> (#[trigger] arrays@[j]).id != id,
        decreases arrays@.len() - i,
    {
        if arrays[i].id == id {
            return Some(i);
        }
        i = i + 1;
    }
    None
}

/// Copy a vector of words.
fn copy_words(src: &Vec<u32>) -> (r: Vec<u32>)
    ensures
        r@ == src@,
{
    let mut r: Vec<u32> = Vec::new();
    let mut i: usize = 0;
    while i < src.len()
        invariant
            i <= src@.len(),
            r@ == src@.subrange(0, i as int),
        decreases src@.len() - i,
    {
        let w = src[i];
        r.push(w);
        assert(r@ =~= src@.subrange(0, i as int + 1));
        i = i + 1;
    }
    assert(r@ =~= src@);
    r
}

/// The two contexts hold the same live objects and the same allocation
/// counter.
pub open spec fn same_objects(pre: GlContext, post: GlContext) -> bool {
    &&& post.arrays == pre.arrays
    &&& post.buffers == pre.buffers
    &&& post.next_id == pre.next_id
}

/// The two contexts have the same upload count and the same failure
/// schedule.
pub open spec fn same_uploads(pre: GlContext, post: GlContext) -> bool {
    &&& post.upload_count == pre.upload_count
    &&& post.failing_upload == pre.failing_upload
}

/// The two contexts have the same three bindings.
pub open spec fn same_bindings(pre: GlContext, post: GlContext) -> bool {
    &&& post.bound_array == pre.bound_array
    &&& post.bound_array_buffer == pre.bound_array_buffer
    &&& post.bound_element_buffer == pre.bound_element_buffer
}

impl GlContext {
    /// A fresh context: nothing allocated, nothing bound, no upload made and
    /// none scheduled to fail.
    pub fn new() -> (ctx: GlContext)
        ensures
            ctx.wf(),
            ctx.next_id == 1,
            ctx.arrays@.len() == 0,
            ctx.buffers@.len() == 0,
            ctx.none_bound(),
            ctx.upload_count == 0,
            ctx.failing_upload is None,
    {
        GlContext {
            next_id: 1,
            arrays: Vec::new(),
            buffers: Vec::new(),
            bound_array: 0,
            bound_array_buffer: 0,
            bound_element_buffer: 0,
            upload_count: 0,
            failing_upload: None,
        }
    }

    /// A fresh context whose upload with ordinal `n` (counting from 0) will
    /// report an error, to simulate an upload failure.
    pub fn with_failing_upload(n: u32) -> (ctx: GlContext)
        ensures
            ctx.wf(),
            ctx.next_id == 1,
            ctx.arrays@.len() == 0,
            ctx.buffers@.len() == 0,
            ctx.none_bound(),
            ctx.upload_count == 0,
            ctx.failing_upload == Some(n),
    {
        GlContext {
            next_id: 1,
            arrays: Vec::new(),
            buffers: Vec::new(),
            bound_array: 0,
            bound_array_buffer: 0,
            bound_element_buffer: 0,
            upload_count: 0,
            failing_upload: Some(n),
        }
    }

    /// Allocate a fresh array-object handle, with no attribute declarations
    /// yet. Does not change any binding.
    pub fn gen_vertex_array(&mut self) -> (id: u32)
        requires
            old(self).wf(),
            old(self).next_id < u32::MAX,
        ensures
            final(self).wf(),
            id == old(self).next_id,
            id != 0,
            find_array(old(self).arrays@, id) == None::<(Seq<Attrib>, Seq<u32>)>,
            find_array(final(self).arrays@, id) == Some(
                (Seq::<Attrib>::empty(), Seq::<u32>::empty()),
            ),
            forall|x: u32|
                x != id ==> find_array(final(self).arrays@, x) == find_array(
                    old(self).arrays@,
                    x,
                ),
            final(self).arrays@.len() == old(self).arrays@.len() + 1,
            final(self).buffers == old(self).buffers,
            final(self).next_id == old(self).next_id + 1,
            same_bindings(*old(self), *final(self)),
            same_uploads(*old(self), *final(self)),
    {
        let id = self.next_id;
        self.next_id = self.next_id + 1;
        let a = ArrayObject { id, attribs: Vec::new(), enabled: Vec::new() };
        let ghost a_spec = a;
        let ghost s0 = self.arrays@;
        self.arrays.push(a);
        proof {
            assert(self.arrays@ == s0.push(a_spec));
            assert(forall|i: int| 0 <= i < s0.len() ==> (#[trigger] s0[i]).id != id);
            lemma_find_array_absent(s0, id);
            lemma_find_array_push(s0, a_spec, id);
            assert(a_spec.attribs@ =~= Seq::<Attrib>::empty());
            assert(a_spec.enabled@ =~= Seq::<u32>::empty());
            assert forall|x: u32| x != id implies find_array(self.arrays@, x) == find_array(
                s0,
                x,
            ) by {
                lemma_find_array_push(s0, a_spec, x);
            }
        }
        id
    }

    /// Allocate a fresh data-buffer handle, with empty contents. Does not
    /// change any binding.
    pub fn gen_buffer(&mut self) -> (id: u32)
        requires
            old(self).wf(),
            old(self).next_id < u32::MAX,
        ensures
            final(self).wf(),
            id == old(self).next_id,
            id != 0,
            find_buffer(old(self).buffers@, id) == None::<Seq<u32>>,
            find_buffer(final(self).buffers@, id) == Some(Seq::<u32>::empty()),
            forall|x: u32|
                x != id ==> find_buffer(final(self).buffers@, x) == find_buffer(
                    old(self).buffers@,
                    x,
                ),
            final(self).buffers@.len() == old(self).buffers@.len() + 1,
            final(self).arrays == old(self).arrays,
            final(self).next_id == old(self).next_id + 1,
            same_bindings(*old(self), *final(self)),
            same_uploads(*old(self), *final(self)),
    {
        let id = self.next_id;
        self.next_id = self.next_id + 1;
        let b = BufferObject { id, data: Vec::new() };
        let ghost b_spec = b;
        let ghost s0 = self.buffers@;
        self.buffers.push(b);
        proof {
            assert(self.buffers@ == s0.push(b_spec));
            assert(forall|i: int| 0 <= i < s0.len() ==> (#[trigger] s0[i]).id != id);
            lemma_find_buffer_absent(s0, id);
            lemma_find_buffer_push(s0, b_spec, id);
            assert(b_spec.data@ =~= Seq::<u32>::empty());
            assert forall|x: u32| x != id implies find_buffer(self.buffers@, x) == find_buffer(
                s0,
                x,
            ) by {
                lemma_find_buffer_push(s0, b_spec, x);
            }
        }
        id
    }

    /// Upload `data` into the buffer bound at `target`, as the mock's next
    /// upload. Reports `false` (an API error) exactly when this upload's
    /// ordinal is the scheduled failing one; the bound buffer's contents are
    /// replaced only on success.
    pub fn buffer_data(&mut self, target: BufferTarget, data: &Vec<u32>) -> (ok: bool)
        requires
            old(self).wf(),
            find_buffer(old(self).buffers@, old(self).bound_of(target)) is Some,
            old(self).upload_count < u32::MAX,
        ensures
            final(self).wf(),
            ok == (old(self).failing_upload != Some(old(self).upload_count)),
            final(self).upload_count == old(self).upload_count + 1,
            ok ==> find_buffer(final(self).buffers@, old(self).bound_of(target)) == Some(data@),
            !ok ==> find_buffer(final(self).buffers@, old(self).bound_of(target)) == find_buffer(
                old(self).buffers@,
                old(self).bound_of(target),
            ),
            forall|x: u32|
                x != old(self).bound_of(target) ==> find_buffer(final(self).buffers@, x)
                    == find_buffer(old(self).buffers@, x),
            final(self).buffers@.len() == old(self).buffers@.len(),
            final(self).arrays == old(self).arrays,
            final(self).next_id == old(self).next_id,
            same_bindings(*old(self), *final(self)),
            final(self).failing_upload == old(self).failing_upload,
    {
        let bound: u32 = match target {
            BufferTarget::ArrayBuffer => self.bound_array_buffer,
            BufferTarget::ElementArrayBuffer => self.bound_element_buffer,
        };
        let ok: bool = match self.failing_upload {
            Some(n) => n != self.upload_count,
            None => true,
        };
        self.upload_count = self.upload_count + 1;
        if ok {
            let idx = find_buffer_index(&self.buffers, bound);
            match idx {
                Some(i) => {
                    let ghost b0 = self.buffers@;
                    let words = copy_words(data);
                    self.buffers[i] = BufferObject { id: bound, data: words };
                    proof {
                        assert(self.buffers@ == b0.update(i as int, self.buffers@[i as int]));
                        lemma_find_buffer_update(b0, i as int, self.buffers@[i as int]);
                        assert(forall|j: int|
                            0 <= j < self.buffers@.len() ==> (#[trigger] self.buffers@[j]).id == b0[
                                j
                            ].id);
                    }
                },
                None => {
                    proof {
                        lemma_find_buffer_absent(self.buffers@, bound);
                    }
                    assert(false);
                },
            }
        }
        ok
    }

    /// Record an attribute declaration on the currently bound array object,
    /// reading from the currently bound vertex buffer.
    pub fn vertex_attrib_pointer(
        &mut self,
        slot: u32,
        components: u32,
        stride_words: u32,
        offset_words: u32,
    )
        requires
            old(self).wf(),
            find_array(old(self).arrays@, old(self).bound_array) is Some,
        ensures
            final(self).wf(),
            find_array(final(self).arrays@, old(self).bound_array) == Some(
                (
                    find_array(old(self).arrays@, old(self).bound_array).unwrap().0.push(
                        Attrib {
                            slot,
                            components,
                            stride_words,
                            offset_words,
                            buffer: old(self).bound_array_buffer,
                        },
                    ),
                    find_array(old(self).arrays@, old(self).bound_array).unwrap().1,
                ),
            ),
            forall|x: u32|
                x != old(self).bound_array ==> find_array(final(self).arrays@, x) == find_array(
                    old(self).arrays@,
                    x,
                ),
            final(self).arrays@.len() == old(self).arrays@.len(),
            final(self).buffers == old(self).buffers,
            final(self).next_id == old(self).next_id,
            same_bindings(*old(self), *final(self)),
            same_uploads(*old(self), *final(self)),
    {
        let attrib = Attrib {
            slot,
            components,
            stride_words,
            offset_words,
            buffer: self.bound_array_buffer,
        };
        let bound = self.bound_array;
        let idx = find_array_index(&self.arrays, bound);
        match idx {
            Some(i) => {
                let ghost s0 = self.arrays@;
                proof {
                    lemma_find_array_first(s0, i as int);
                }
                let slot_ref = &mut self.arrays[i];
                slot_ref.attribs.push(attrib);
                proof {
                    assert(self.arrays@ == s0.update(i as int, self.arrays@[i as int]));
                    assert(self.arrays@[i as int].id == bound);
                    assert(self.arrays@[i as int].attribs@ == s0[i as int].attribs@.push(attrib));
                    assert(self.arrays@[i as int].enabled@ == s0[i as int].enabled@);
                    lemma_find_array_update(s0, i as int, self.arrays@[i as int]);
                    assert(forall|j: int|
                        0 <= j < self.arrays@.len() ==> (#[trigger] self.arrays@[j]).id == s0[
                            j
                        ].id);
                }
            },
            None => {
                proof {
                    lemma_find_array_absent(self.arrays@, bound);
                }
                assert(false);
            },
        }
    }

    /// Mark an attribute slot of the currently bound array object as
    /// enabled.
    pub fn enable_vertex_attrib_array(&mut self, slot: u32)
        requires
            old(self).wf(),
            find_array(old(self).arrays@, old(self).bound_array) is Some,
        ensures
            final(self).wf(),
            find_array(final(self).arrays@, old(self).bound_array) == Some(
                (
                    find_array(old(self).arrays@, old(self).bound_array).unwrap().0,
                    find_array(old(self).arrays@, old(self).bound_array).unwrap().1.push(slot),
                ),
            ),
            forall|x: u32|
                x != old(self).bound_array ==> find_array(final(self).arrays@, x) == find_array(
                    old(self).arrays@,
                    x,
                ),
            final(self).arrays@.len() == old(self).arrays@.len(),
            final(self).buffers == old(self).buffers,
            final(self).next_id == old(self).next_id,
            same_bindings(*old(self), *final(self)),
            same_uploads(*old(self), *final(self)),
    {
        let bound = self.bound_array;
        let idx = find_array_index(&self.arrays, bound);
        match idx {
            Some(i) => {
                let ghost s0 = self.arrays@;
                proof {
                    lemma_find_array_first(s0, i as int);
                }
                let slot_ref = &mut self.arrays[i];
                slot_ref.enabled.push(slot);
                proof {
                    assert(self.arrays@ == s0.update(i as int, self.arrays@[i as int]));
                    assert(self.arrays@[i as int].id == bound);
                    assert(self.arrays@[i as int].attribs@ == s0[i as int].attribs@);
                    assert(self.arrays@[i as int].enabled@ == s0[i as int].enabled@.push(slot));
                    lemma_find_array_update(s0, i as int, self.arrays@[i as int]);
                    assert(forall|j: int|
                        0 <= j < self.arrays@.len() ==> (#[trigger] self.arrays@[j]).id == s0[
                            j
                        ].id);
                }
            },
            None => {
                proof {
                    lemma_find_array_absent(self.arrays@, bound);
                }
                assert(false);
            },
        }
    }

    /// Release the array object with handle `id`; a handle that is not live
    /// (including `0`) is ignored. If the released object was bound, the
    /// array-object binding reverts to none.
    pub fn delete_vertex_array(&mut self, id: u32)
        requires
            old(self).wf(),
        ensures
            final(self).wf(),
            find_array(final(self).arrays@, id) == None::<(Seq<Attrib>, Seq<u32>)>,
            forall|x: u32|
                x != id ==> find_array(final(self).arrays@, x) == find_array(
                    old(self).arrays@,
                    x,
                ),
            final(self).arrays@.len() == old(self).arrays@.len() - (
            if find_array(old(self).arrays@, id) is Some {
                1int
            } else {
                0int
            }),
            final(self).buffers == old(self).buffers,
            final(self).next_id == old(self).next_id,
            final(self).bound_array == (if old(self).bound_array == id {
                0u32
            } else {
                old(self).bound_array
            }),
            final(self).bound_array_buffer == old(self).bound_array_buffer,
            final(self).bound_element_buffer == old(self).bound_element_buffer,
            same_uploads(*old(self), *final(self)),
    {
        let idx = find_array_index(&self.arrays, id);
        match idx {
            Some(i) => {
                let ghost s0 = self.arrays@;
                proof {
                    lemma_find_array_first(s0, i as int);
                    assert forall|j: int|
                        0 <= j < s0.len() && j != i as int implies (#[trigger] s0[j]).id != s0[
                        i as int
                    ].id by {}
                    lemma_find_array_remove(s0, i as int);
                }
                self.arrays.remove(i);
                proof {
                    assert(self.arrays@ == s0.remove(i as int));
                    s0.remove_ensures(i as int);
                }
            },
            None => {
                proof {
                    lemma_find_array_absent(self.arrays@, id);
                }
            },
        }
        if self.bound_array == id {
            self.bound_array = 0;
        }
    }

    /// Release the data buffer with handle `id`; a handle that is not live
    /// (including `0`) is ignored. If the released buffer was bound at either
    /// target, that binding reverts to none.
    pub fn delete_buffer(&mut self, id: u32)
        requires
            old(self).wf(),
        ensures
            final(self).wf(),
            find_buffer(final(self).buffers@, id) == None::<Seq<u32>>,
            forall|x: u32|
                x != id ==> find_buffer(final(self).buffers@, x) == find_buffer(
                    old(self).buffers@,
                    x,
                ),
            final(self).buffers@.len() == old(self).buffers@.len() - (
            if find_buffer(old(self).buffers@, id) is Some {
                1int
            } else {
                0int
            }),
            final(self).arrays == old(self).arrays,
            final(self).next_id == old(self).next_id,
            final(self).bound_array == old(self).bound_array,
            final(self).bound_array_buffer == (if old(self).bound_array_buffer == id {
                0u32
            } else {
                old(self).bound_array_buffer
            }),
            final(self).bound_element_buffer == (if old(self).bound_element_buffer == id {
                0u32
            } else {
                old(self).bound_element_buffer
            }),
            same_uploads(*old(self), *final(self)),
    {
        let idx = find_buffer_index(&self.buffers, id);
        match idx {
            Some(i) => {
                let ghost s0 = self.buffers@;
                proof {
                    lemma_find_buffer_first(s0, i as int);
                    assert forall|j: int|
                        0 <= j < s0.len() && j != i as int implies (#[trigger] s0[j]).id != s0[
                        i as int
                    ].id by {}
                    lemma_find_buffer_remove(s0, i as int);
                }
                self.buffers.remove(i);
                proof {
                    assert(self.buffers@ == s0.remove(i as int));
                    s0.remove_ensures(i as int);
                }
            },
            None => {
                proof {
                    lemma_find_buffer_absent(self.buffers@, id);
                }
            },
        }
        if self.bound_array_buffer == id {
            self.bound_array_buffer = 0;
        }
        if self.bound_element_buffer == id {
            self.bound_element_buffer = 0;
        }
    }

    /// Make `id` the active array-object binding; `0` clears it.
    pub fn bind_vertex_array(&mut self, id: u32)
        ensures
            final(self).bound_array == id,
            final(self).bound_array_buffer == old(self).bound_array_buffer,
            final(self).bound_element_buffer == old(self).bound_element_buffer,
            same_objects(*old(self), *final(self)),
            same_uploads(*old(self), *final(self)),
            final(self).wf() == old(self).wf(),
    {
        self.bound_array = id;
    }

    /// Make `id` the active binding of the given buffer target; `0` clears
    /// it.
    pub fn bind_buffer(&mut self, target: BufferTarget, id: u32)
        ensures
            final(self).bound_of(target) == id,
            final(self).bound_array == old(self).bound_array,
            target is ArrayBuffer ==> final(self).bound_element_buffer == old(
                self,
            ).bound_element_buffer,
            target is ElementArrayBuffer ==> final(self).bound_array_buffer == old(
                self,
            ).bound_array_buffer,
            same_objects(*old(self), *final(self)),
            same_uploads(*old(self), *final(self)),
            final(self).wf() == old(self).wf(),
    {
        match target {
            BufferTarget::ArrayBuffer => {
                self.bound_array_buffer = id;
            },
            BufferTarget::ElementArrayBuffer => {
                self.bound_element_buffer = id;
            },
        }
    }
}

} // verus!
