//! The generic dma-buf backend.
//!
//! This module implements the capability interface on plain, file-descriptor-backed
//! buffers.  It computes packed linear layouts itself and leaves the descriptor I/O —
//! allocating, mapping and cache maintenance — to the embedder, which hands descriptors
//! in and out as plain values.

use vstd::prelude::*;

use crate::backends::is_packed_buffer_layout;
use crate::backends::spec_packed_result;
use crate::backends::Class;
use crate::backends::Constraint;
use crate::backends::Description;
use crate::backends::Extent;
use crate::backends::Flags;
use crate::backends::Handle;
use crate::backends::HandlePayload;
use crate::backends::Layout;
use crate::backends::MemoryType;
use crate::backends::Usage;
use crate::types::Error;
use crate::types::Fd;
use crate::types::Size;

verus! {

/// A generic dma-buf resource: a packed layout, and the dma-buf once one is bound.
#[derive(Debug)]
pub struct Resource {
    /// The physical layout of the resource.
    pub layout: Layout,
    /// The bound dma-buf, once memory is bound.
    pub dmabuf: Option<Fd>,
}

impl Resource {
    /// Creates an unbound resource with the given layout.
    pub fn new(layout: Layout) -> (r: Self)
        ensures
            r.layout == layout,
            r.dmabuf is None,
    {
        Resource { layout, dmabuf: None }
    }

    /// The byte size of the resource.
    pub fn size(&self) -> (r: Size)
        ensures
            r == self.layout.size,
    {
        self.layout.size
    }

    /// Binds a dma-buf to the resource.
    pub fn bind_memory(&mut self, dmabuf: Fd)
        ensures
            final(self).layout == old(self).layout,
            final(self).dmabuf == Some(dmabuf),
    {
        self.dmabuf = Some(dmabuf);
    }

    /// The bound dma-buf.
    pub fn dmabuf(&self) -> (r: Fd)
        requires
            self.dmabuf is Some,
        ensures
            r == self.dmabuf->0,
    {
        match self.dmabuf {
            Some(fd) => fd,
            None => unreached(),
        }
    }
}

/// The resource of a handle this backend created.
fn get_resource(handle: &Handle) -> (r: &Resource)
    requires
        handle.payload is DmaBuf,
    ensures
        *r == handle.payload->DmaBuf_0,
{
    match &handle.payload {
        HandlePayload::DmaBuf(res) => res,
        _ => unreached(),
    }
}

/// Whether this backend can classify a description: an image must be linear, and
/// protected memory is not available.
pub open spec fn spec_classify_ok(desc: Description) -> bool {
    &&& desc.spec_is_buffer() || desc.modifier.0 == crate::formats::DRM_FORMAT_MOD_LINEAR
    &&& desc.flags.bits & crate::backends::FLAG_PROTECTED == 0
}

/// Classifies a description against the generic dma-buf backend: the extent is
/// unbounded and the only supported modifier is the described one.
pub fn classify(desc: Description, usage: Usage) -> (r: Result<Class, Error>)
    ensures
        r is Ok <==> spec_classify_ok(desc),
        r matches Err(e) ==> e is Unsupported,
        r matches Ok(c) ==> {
            &&& c.wf()
            &&& c.flags == desc.flags
            &&& c.format == desc.format
            &&& c.usage == usage
            &&& (desc.spec_is_buffer() ==> c.max_extent == Extent::Buffer(u64::MAX))
            &&& (!desc.spec_is_buffer() ==> c.max_extent == Extent::Image(u32::MAX, u32::MAX))
            &&& c.modifiers@ == seq![desc.modifier]
            &&& c.constraint is None
            &&& c.unknown_constraint == false
            &&& c.backend_index == 0
        },
{
    if !desc.is_buffer() && !desc.modifier.is_linear() {
        return Error::unsupported();
    }

    let unsupported_flags = Flags::protected();
    if desc.flags.intersects(unsupported_flags) {
        return Error::unsupported();
    }

    let mut mods: Vec<crate::types::Modifier> = Vec::new();
    mods.push(desc.modifier);
    proof {
        assert(mods@ =~= seq![desc.modifier]);
    }
    let class = Class::new(&desc).usage(usage).max_extent(Extent::max(desc.is_buffer())).modifiers(
        mods,
    );

    Ok(class)
}

/// Creates an unbound resource with the packed layout of the class and extent.
pub fn with_constraint(class: &Class, extent: Extent, con: Option<Constraint>) -> (r: Result<
    Handle,
    Error,
>)
    requires
        class.wf(),
        class.max_extent.same_kind(extent),
        con matches Some(c) ==> c.wf(),
    ensures
        r matches Ok(h) ==> {
            &&& h.payload is DmaBuf
            &&& h.payload->DmaBuf_0.dmabuf is None
            &&& spec_packed_result(*class, extent, con, Ok(h.layout_spec()))
        },
        r matches Err(e) ==> spec_packed_result(*class, extent, con, Err(e)),
{
    let layout = match Layout::packed(class, extent, con) {
        Ok(l) => l,
        Err(e) => { return Err(e) },
    };
    let handle = Handle::new(HandlePayload::DmaBuf(Resource::new(layout)));

    Ok(handle)
}

/// Validates an externally-supplied layout against the packed reference layout — at
/// least as large, with the same modifier and plane count — and wraps it unbound.
pub fn with_layout(class: &Class, extent: Extent, layout: Layout, dmabuf: Option<Fd>) -> (r:
    Result<Handle, Error>)
    requires
        class.wf(),
        class.max_extent.same_kind(extent),
    ensures
        r is Ok <==> {
            &&& crate::backends::spec_packable(*class, extent, None)
            &&& layout.size >= crate::backends::spec_packed_size(*class, extent, None)
            &&& layout.modifier.0 == crate::backends::spec_packed_modifier(*class)
            &&& layout.plane_count == crate::backends::spec_packed_plane_count(*class)
        },
        r matches Ok(h) ==> {
            &&& h.payload is DmaBuf
            &&& h.payload->DmaBuf_0.dmabuf is None
            &&& crate::backends::layout_eq(h.layout_spec(), layout)
        },
        r matches Err(e) ==> (e is IntegerConversion <==> crate::backends::spec_packed_overflow(
            *class,
            extent,
            None,
        )) && (e is User <==> !crate::backends::spec_packed_overflow(*class, extent, None)),
{
    let _ = dmabuf;
    let packed = match Layout::packed(class, extent, None) {
        Ok(l) => l,
        Err(e) => { return Err(e) },
    };
    if layout.size < packed.size || layout.modifier.0 != packed.modifier.0 || layout.plane_count
        != packed.plane_count {
        return Error::user();
    }

    let handle = Handle::new(HandlePayload::DmaBuf(Resource::new(layout)));

    Ok(handle)
}

/// The layout of a handle this backend created.
pub fn layout(handle: &Handle) -> (r: Layout)
    requires
        handle.payload is DmaBuf,
    ensures
        crate::backends::layout_eq(r, handle.layout_spec()),
{
    crate::backends::clone_layout(&get_resource(handle).layout)
}

/// The memory types this backend supports: mappable memory only.
pub fn memory_types(handle: &Handle) -> (r: Vec<MemoryType>)
    ensures
        r@.len() == 1,
        r@[0].bits == crate::backends::MEMORY_MAPPABLE,
{
    let _ = handle;
    let mut v: Vec<MemoryType> = Vec::new();
    v.push(MemoryType::mappable());
    v
}

/// Allocates or imports a dma-buf and binds it to a handle this backend created.
///
/// The caller queries the size of a dma-buf it imports and passes both; when no dma-buf
/// is supplied, `alloc` is called to allocate one of the resource's size.  Binding again
/// succeeds only when no dma-buf is supplied.
pub fn bind_memory<F: FnOnce(Size) -> Result<Fd, Error>>(
    handle: &mut Handle,
    mt: MemoryType,
    dmabuf: Option<(Fd, Size)>,
    alloc: F,
) -> (r: Result<(), Error>)
    requires
        old(handle).payload is DmaBuf,
        dmabuf is Some || call_requires(alloc, (old(handle).payload->DmaBuf_0.layout.size,)),
    ensures
        final(handle).payload is DmaBuf,
        final(handle).layout_spec() == old(handle).layout_spec(),
        !mt.spec_only_mappable() ==> {
            &&& r matches Err(e) && e is User
            &&& final(handle).payload->DmaBuf_0.dmabuf == old(handle).payload->DmaBuf_0.dmabuf
        },
        mt.spec_only_mappable() && old(handle).payload->DmaBuf_0.dmabuf is Some ==> {
            &&& (dmabuf is Some ==> (r matches Err(e) && e is User))
            &&& (dmabuf is None ==> r is Ok)
            &&& final(handle).payload->DmaBuf_0.dmabuf == old(handle).payload->DmaBuf_0.dmabuf
        },
        mt.spec_only_mappable() && old(handle).payload->DmaBuf_0.dmabuf is None ==> {
            &&& (dmabuf matches Some((fd, size)) ==> {
                &&& (size < old(handle).payload->DmaBuf_0.layout.size ==> (r matches Err(e)
                    && e is User && final(handle).payload->DmaBuf_0.dmabuf is None))
                &&& (size >= old(handle).payload->DmaBuf_0.layout.size ==> r is Ok
                    && final(handle).payload->DmaBuf_0.dmabuf == Some(fd))
            })
            &&& (dmabuf is None ==> {
                &&& (r is Ok ==> (final(handle).payload->DmaBuf_0.dmabuf matches Some(fd)
                    && call_ensures(
                    alloc,
                    (old(handle).payload->DmaBuf_0.layout.size,),
                    Ok::<Fd, Error>(fd),
                )))
                &&& (r matches Err(e) ==> (final(handle).payload->DmaBuf_0.dmabuf is None
                    && call_ensures(
                    alloc,
                    (old(handle).payload->DmaBuf_0.layout.size,),
                    Err::<Fd, Error>(e),
                )))
            })
        },
{
    match &mut handle.payload {
        HandlePayload::DmaBuf(res) => bind_res(res, mt, dmabuf, alloc),
        _ => unreached(),
    }
}

/// Binds a dma-buf to a resource, as `bind_memory` describes.
fn bind_res<F: FnOnce(Size) -> Result<Fd, Error>>(
    res: &mut Resource,
    mt: MemoryType,
    dmabuf: Option<(Fd, Size)>,
    alloc: F,
) -> (r: Result<(), Error>)
    requires
        dmabuf is Some || call_requires(alloc, (old(res).layout.size,)),
    ensures
        final(res).layout == old(res).layout,
        !mt.spec_only_mappable() ==> {
            &&& r matches Err(e) && e is User
            &&& final(res).dmabuf == old(res).dmabuf
        },
        mt.spec_only_mappable() && old(res).dmabuf is Some ==> {
            &&& (dmabuf is Some ==> (r matches Err(e) && e is User))
            &&& (dmabuf is None ==> r is Ok)
            &&& final(res).dmabuf == old(res).dmabuf
        },
        mt.spec_only_mappable() && old(res).dmabuf is None ==> {
            &&& (dmabuf matches Some((fd, size)) ==> {
                &&& (size < old(res).layout.size ==> (r matches Err(e) && e is User
                    && final(res).dmabuf is None))
                &&& (size >= old(res).layout.size ==> r is Ok && final(res).dmabuf == Some(fd))
            })
            &&& (dmabuf is None ==> {
                &&& (r is Ok ==> (final(res).dmabuf matches Some(fd) && call_ensures(
                    alloc,
                    (old(res).layout.size,),
                    Ok::<Fd, Error>(fd),
                )))
                &&& (r matches Err(e) ==> (final(res).dmabuf is None && call_ensures(
                    alloc,
                    (old(res).layout.size,),
                    Err::<Fd, Error>(e),
                )))
            })
        },
{
    if !MemoryType::mappable().contains(mt) {
        return Error::user();
    }

    if res.dmabuf.is_some() {
        return if dmabuf.is_some() {
            Error::user()
        } else {
            Ok(())
        };
    }

    let fd = match dmabuf {
        Some((fd, size)) => {
            if res.size() > size {
                return Error::user();
            }
            fd
        },
        None => {
            match alloc(res.size()) {
                Ok(fd) => fd,
                Err(e) => { return Err(e) },
            }
        },
    };

    res.bind_memory(fd);

    Ok(())
}

} // verus!
