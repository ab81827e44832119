//! BO-related types.
//!
//! This module defines `Bo` and its lifecycle: a BO is created unbound, has memory
//! bound to it exactly once, and can then be exported, mapped with a reference count,
//! flushed, invalidated and copied.

use vstd::prelude::*;

use crate::backends::layout_eq;
use crate::backends::Backend;
use crate::backends::Class;
use crate::backends::Constraint;
use crate::backends::CopyBuffer;
use crate::backends::CopyBufferImage;
use crate::backends::Extent;
use crate::backends::Flags;
use crate::backends::Handle;
use crate::backends::Layout;
use crate::backends::MemoryType;
use crate::device::Device;
use crate::types::Error;
use crate::types::Fd;
use crate::types::Format;
use crate::types::Mapping;
use crate::types::Modifier;
use std::sync::Arc;

verus! {

/// A buffer object (BO).
///
/// A BO is an abstraction of a hardware buffer object.
pub struct Bo<B: Backend> {
    device: Arc<Device<B>>,
    handle: Handle,
    flags: Flags,
    format: Format,
    backend_index: usize,
    extent: Extent,
    bound: bool,
    mt: MemoryType,
    mapping: Option<Mapping>,
    map_count: u32,
}

impl<B: Backend> Bo<B> {
    /// The capabilities the BO was classified with.
    pub closed spec fn spec_flags(&self) -> Flags {
        self.flags
    }

    /// The format the BO was classified with.
    pub closed spec fn spec_format(&self) -> Format {
        self.format
    }

    /// The extent the BO was created with.
    pub closed spec fn spec_extent(&self) -> Extent {
        self.extent
    }

    /// Whether memory has been bound to the BO.
    pub closed spec fn spec_bound(&self) -> bool {
        self.bound
    }

    /// The memory type granted at binding.
    pub closed spec fn spec_mt(&self) -> MemoryType {
        self.mt
    }

    /// The current CPU mapping, if any.
    pub closed spec fn spec_mapping(&self) -> Option<Mapping> {
        self.mapping
    }

    /// How many times the BO is currently mapped.
    pub closed spec fn spec_map_count(&self) -> u32 {
        self.map_count
    }

    /// The physical layout of the BO.
    pub closed spec fn layout_spec(&self) -> Layout {
        self.handle.layout_spec()
    }

    /// Whether the BO is a buffer rather than an image.
    pub open spec fn spec_is_buffer(&self) -> bool {
        self.spec_format().0 == crate::formats::DRM_FORMAT_INVALID
    }

    /// Whether the BO can be exported to, or imported from, a dma-buf.
    pub open spec fn spec_can_external(&self) -> bool {
        self.spec_flags().spec_contains(Flags { bits: crate::backends::FLAG_EXTERNAL })
    }

    /// Whether the BO can be mapped.
    pub open spec fn spec_can_map(&self) -> bool {
        self.spec_flags().spec_contains(Flags { bits: crate::backends::FLAG_MAP })
    }

    /// Whether the BO can be copied to or from.
    pub open spec fn spec_can_copy(&self) -> bool {
        self.spec_flags().spec_contains(Flags { bits: crate::backends::FLAG_COPY })
    }

    /// The BO's lifecycle state is consistent: the backend index is in range, the
    /// layout is well-formed, a mapping exists exactly while the map count is positive,
    /// an image's format is known, and the extent kind matches the format.
    pub closed spec fn wf(&self) -> bool {
        &&& self.backend_index < self.device.backends@.len()
        &&& self.handle.wf()
        &&& (self.mapping is Some <==> self.map_count > 0)
        &&& (!self.spec_is_buffer() ==> crate::formats::is_known_format(self.format))
        &&& (self.spec_is_buffer() <==> self.extent is Buffer)
    }

    /// The backend that services the BO.
    fn backend(&self) -> (r: &B)
        requires
            self.wf(),
        ensures
            r == &self.device.backends@[self.backend_index as int],
    {
        self.device.backend(self.backend_index)
    }

    /// Creates a BO around a fresh handle.
    fn new(device: Arc<Device<B>>, handle: Handle, class: &Class, extent: Extent) -> (r: Self)
        requires
            class.backend_index < device.backends@.len(),
            handle.wf(),
            !class.spec_is_buffer() ==> crate::formats::is_known_format(class.format),
            class.spec_is_buffer() <==> extent is Buffer,
        ensures
            r.wf(),
            r.spec_flags() == class.flags,
            r.spec_format() == class.format,
            r.spec_extent() == extent,
            !r.spec_bound(),
            r.spec_map_count() == 0,
            r.spec_mapping() is None,
            r.layout_spec() == handle.layout_spec(),
    {
        Bo {
            device,
            handle,
            flags: class.flags,
            format: class.format,
            backend_index: class.backend_index,
            extent,
            bound: false,
            mt: MemoryType::empty(),
            mapping: None,
            map_count: 0,
        }
    }

    /// Creates a BO with an optional constraint.
    ///
    /// The layout of a BO created this way always satisfies the constraint passed in.
    pub fn with_constraint(
        device: Arc<Device<B>>,
        class: &Class,
        extent: Extent,
        con: Option<Constraint>,
    ) -> (r: Result<Self, Error>)
        requires
            class.wf(),
            class.backend_index < device.backends@.len(),
            class.max_extent.same_kind(extent),
            con matches Some(c) ==> c.wf(),
        ensures
            !class.spec_validate(extent) ==> (r matches Err(e) && e is User),
            class.spec_validate(extent) && !spec_class_merge_compat(con, class) ==> (
            r matches Err(e)
                && e is Context),
            (class.spec_validate(extent) && spec_class_merge_compat(con, class)
                && spec_merged_mods(con, class).len() > 0 && !spec_allowlist_survives(con, class))
                ==> (r matches Err(e) && e is Unsupported),
            r matches Ok(bo) ==> {
                &&& bo.wf()
                &&& bo.spec_flags() == class.flags
                &&& bo.spec_format() == class.format
                &&& bo.spec_extent() == extent
                &&& !bo.spec_bound()
                &&& bo.spec_map_count() == 0
                &&& bo.spec_mapping() is None
                &&& bo.layout_spec().spec_fit(con)
            },
    {
        if !class.validate(extent) {
            return Error::user();
        }

        let ghost con0 = con;
        let merged = match merge_class_to_constraint(con, class) {
            Ok(m) => m,
            Err(e) => { return Err(e) },
        };

        let backend = device.backend(class.backend_index);
        let handle = match backend.with_constraint(class, extent, merged) {
            Ok(h) => h,
            Err(e) => { return Err(e) },
        };
        proof {
            match con0 {
                None => {},
                Some(c0) => {
                    crate::backends::lemma_fit_weaken(handle.layout_spec(), c0, merged->0);
                },
            }
        }
        let bo = Self::new(device, handle, class, extent);

        Ok(bo)
    }

    /// Creates a BO with an explicit physical layout.
    ///
    /// When importing, `dmabuf` can be specified to further restrict the supported
    /// memory types.
    pub fn with_layout(
        device: Arc<Device<B>>,
        class: &Class,
        extent: Extent,
        layout: Layout,
        dmabuf: Option<Fd>,
    ) -> (r: Result<Self, Error>)
        requires
            class.wf(),
            class.backend_index < device.backends@.len(),
            class.max_extent.same_kind(extent),
            layout.wf(),
        ensures
            !class.spec_validate(extent) ==> (r matches Err(e) && e is User),
            r matches Ok(bo) ==> {
                &&& bo.wf()
                &&& bo.spec_flags() == class.flags
                &&& bo.spec_format() == class.format
                &&& bo.spec_extent() == extent
                &&& !bo.spec_bound()
                &&& bo.spec_map_count() == 0
                &&& bo.spec_mapping() is None
                &&& layout_eq(bo.layout_spec(), layout)
            },
    {
        if !class.validate(extent) {
            return Error::user();
        }

        let backend = device.backend(class.backend_index);
        let handle = match backend.with_layout(class, extent, layout, dmabuf) {
            Ok(h) => h,
            Err(e) => { return Err(e) },
        };
        let bo = Self::new(device, handle, class, extent);

        Ok(bo)
    }

    /// Returns the physical layout.
    pub fn layout(&self) -> (r: Layout)
        requires
            self.wf(),
        ensures
            layout_eq(r, self.layout_spec()),
    {
        self.backend().layout(&self.handle)
    }

    /// Returns the supported memory types.
    ///
    /// When not importing, the supported memory types can be pre-determined to some
    /// degree.  When importing, they are further restricted by the imported dma-bufs.
    pub fn memory_types(&self) -> (r: Vec<MemoryType>)
        requires
            self.wf(),
    {
        self.backend().memory_types(&self.handle)
    }

    /// Allocates or imports a memory, and binds the memory to a BO.
    ///
    /// A BO without a memory bound cannot be exported, mapped, nor copied.  Binding
    /// happens exactly once: a second bind fails with a user error.
    pub fn bind_memory(&mut self, mt: MemoryType, dmabuf: Option<Fd>) -> (r: Result<(), Error>)
        requires
            old(self).wf(),
        ensures
            final(self).wf(),
            final(self).spec_flags() == old(self).spec_flags(),
            final(self).spec_format() == old(self).spec_format(),
            final(self).spec_extent() == old(self).spec_extent(),
            final(self).spec_map_count() == old(self).spec_map_count(),
            final(self).spec_mapping() == old(self).spec_mapping(),
            layout_eq(final(self).layout_spec(), old(self).layout_spec()),
            old(self).spec_bound() ==> {
                &&& r matches Err(e) && e is User
                &&& final(self).spec_bound()
                &&& final(self).spec_mt() == old(self).spec_mt()
            },
            dmabuf is Some && !old(self).spec_can_external() ==> {
                &&& r matches Err(e) && e is User
                &&& final(self).spec_bound() == old(self).spec_bound()
                &&& final(self).spec_mt() == old(self).spec_mt()
            },
            !old(self).spec_bound() && (dmabuf is None || old(self).spec_can_external()) ==> {
                &&& (r is Ok ==> final(self).spec_bound() && final(self).spec_mt() == mt)
                &&& (r is Err ==> !final(self).spec_bound() && final(self).spec_mt() == old(self).spec_mt())
            },
    {
        if dmabuf.is_some() && !self.flags.contains(Flags::external()) {
            return Error::user();
        }

        if self.bound {
            return Error::user();
        }

        let backend = self.device.backend(self.backend_index);
        match backend.bind_memory(&mut self.handle, mt, dmabuf) {
            Ok(()) => {},
            Err(e) => { return Err(e) },
        }

        self.bound = true;
        self.mt = mt;

        Ok(())
    }

    /// Exports a BO as a dma-buf.
    ///
    /// A name can optionally be set for the dma-buf.  The BO must have the external
    /// capability and be bound.
    pub fn export_dma_buf(&self, name: Option<&str>) -> (r: Result<Fd, Error>)
        requires
            self.wf(),
        ensures
            !self.spec_can_external() ==> (r matches Err(e) && e is User),
            self.spec_can_external() && !self.spec_bound() ==> (r matches Err(e) && e is User),
    {
        if !self.flags.contains(Flags::external()) {
            return Error::user();
        }

        if !self.bound {
            return Error::user();
        }

        self.backend().export_dma_buf(&self.handle, name)
    }

    /// Maps a BO for CPU access.
    ///
    /// Recursive mapping is allowed and returns the same mapping.  The BO must have the
    /// map capability, be bound, and the bound memory type must be mappable.
    pub fn map(&mut self) -> (r: Result<Mapping, Error>)
        requires
            old(self).wf(),
            old(self).spec_map_count() < u32::MAX,
        ensures
            final(self).wf(),
            final(self).spec_flags() == old(self).spec_flags(),
            final(self).spec_format() == old(self).spec_format(),
            final(self).spec_extent() == old(self).spec_extent(),
            final(self).spec_bound() == old(self).spec_bound(),
            final(self).spec_mt() == old(self).spec_mt(),
            final(self).layout_spec() == old(self).layout_spec(),
            !old(self).spec_can_map() ==> {
                &&& r matches Err(e) && e is User
                &&& final(self).spec_map_count() == old(self).spec_map_count()
                &&& final(self).spec_mapping() == old(self).spec_mapping()
            },
            (old(self).spec_can_map() && (!old(self).spec_bound() || !old(self).spec_mt().spec_contains(MemoryType { bits: crate::backends::MEMORY_MAPPABLE })))
                ==> {
                &&& r matches Err(e) && e is User
                &&& final(self).spec_map_count() == old(self).spec_map_count()
                &&& final(self).spec_mapping() == old(self).spec_mapping()
            },
            old(self).spec_can_map() && old(self).spec_bound() && old(self).spec_mt().spec_contains(
                MemoryType { bits: crate::backends::MEMORY_MAPPABLE },
            ) ==> {
                &&& (old(self).spec_map_count() > 0 ==> {
                    &&& r == Ok::<Mapping, Error>(old(self).spec_mapping()->0)
                    &&& final(self).spec_map_count() == old(self).spec_map_count() + 1
                    &&& final(self).spec_mapping() == old(self).spec_mapping()
                })
                &&& (old(self).spec_map_count() == 0 ==> {
                    &&& (r matches Ok(m) ==> final(self).spec_map_count() == 1 && final(self).spec_mapping() == Some(m))
                    &&& (r is Err ==> final(self).spec_map_count() == 0 && final(self).spec_mapping() is None)
                })
            },
    {
        if !self.flags.contains(Flags::map()) {
            return Error::user();
        }

        if !self.bound || !self.mt.contains(MemoryType::mappable()) {
            return Error::user();
        }

        if self.map_count == 0 {
            let mapping = match self.backend().map(&self.handle) {
                Ok(m) => m,
                Err(e) => { return Err(e) },
            };
            self.mapping = Some(mapping);
            self.map_count = 1;
            Ok(mapping)
        } else {
            self.map_count = self.map_count + 1;
            match self.mapping {
                Some(m) => Ok(m),
                None => unreached(),
            }
        }
    }

    /// Unmaps a BO.
    ///
    /// Each unmap undoes one map; the backend mapping is released exactly when the last
    /// map is undone.  Unmapping an unmapped BO does nothing.
    pub fn unmap(&mut self)
        requires
            old(self).wf(),
        ensures
            final(self).wf(),
            final(self).spec_flags() == old(self).spec_flags(),
            final(self).spec_format() == old(self).spec_format(),
            final(self).spec_extent() == old(self).spec_extent(),
            final(self).spec_bound() == old(self).spec_bound(),
            final(self).spec_mt() == old(self).spec_mt(),
            final(self).layout_spec() == old(self).layout_spec(),
            final(self).spec_map_count() == spec_count_after_unmap(
                old(self).spec_map_count() as int,
            ),
            old(self).spec_map_count() <= 1 ==> final(self).spec_mapping() is None,
            old(self).spec_map_count() > 1 ==> final(self).spec_mapping() == old(self).spec_mapping(),
    {
        if self.map_count == 0 {
        } else if self.map_count == 1 {
            let mapping = match self.mapping {
                Some(m) => m,
                None => unreached(),
            };
            self.backend().unmap(&self.handle, mapping);
            self.mapping = None;
            self.map_count = 0;
        } else {
            self.map_count = self.map_count - 1;
        }
    }

    /// Flushes the CPU cache for the BO mapping.
    ///
    /// A no-op unless the BO is currently mapped; skipped entirely if the bound memory
    /// type is coherent.
    pub fn flush(&self)
        requires
            self.wf(),
    {
        if self.map_count > 0 && !self.mt.contains(MemoryType::coherent()) {
            self.backend().flush(&self.handle);
        }
    }

    /// Invalidates the CPU cache for the BO mapping.
    ///
    /// A no-op unless the BO is currently mapped; skipped entirely if the bound memory
    /// type is coherent.
    pub fn invalidate(&self)
        requires
            self.wf(),
    {
        if self.map_count > 0 && !self.mt.contains(MemoryType::coherent()) {
            self.backend().invalidate(&self.handle);
        }
    }

    /// Whether both operands of a copy have the copy capability and are bound.
    pub open spec fn spec_validate_copy(&self, src: &Bo<B>) -> bool {
        &&& self.spec_can_copy()
        &&& self.spec_bound()
        &&& src.spec_can_copy()
        &&& src.spec_bound()
    }

    /// Whether both operands of a copy have the copy capability and are bound.
    fn validate_copy(&self, src: &Bo<B>) -> (r: bool)
        requires
            self.wf(),
            src.wf(),
        ensures
            r == self.spec_validate_copy(src),
    {
        self.flags.contains(Flags::copy()) && self.bound && src.flags.contains(Flags::copy())
            && src.bound
    }

    /// Whether a buffer-buffer copy is acceptable: both operands are copyable bound
    /// buffers, the copy is non-empty, and both ranges lie within their buffers.
    pub open spec fn spec_validate_copy_buffer(&self, src: &Bo<B>, copy: CopyBuffer) -> bool {
        &&& self.spec_validate_copy(src)
        &&& self.spec_is_buffer()
        &&& src.spec_is_buffer()
        &&& copy.size > 0
        &&& copy.src_offset <= src.spec_extent()->Buffer_0
        &&& copy.size <= src.spec_extent()->Buffer_0 - copy.src_offset
        &&& copy.dst_offset <= self.spec_extent()->Buffer_0
        &&& copy.size <= self.spec_extent()->Buffer_0 - copy.dst_offset
    }

    /// Whether a buffer-buffer copy is acceptable.
    fn validate_copy_buffer(&self, src: &Bo<B>, copy: &CopyBuffer) -> (r: bool)
        requires
            self.wf(),
            src.wf(),
        ensures
            r == self.spec_validate_copy_buffer(src, *copy),
    {
        if !self.validate_copy(src) || !self.format.is_invalid() || !src.format.is_invalid() {
            return false;
        }

        let src_size = src.extent.size();
        let dst_size = self.extent.size();

        copy.size > 0 && copy.src_offset <= src_size && copy.size <= src_size - copy.src_offset
            && copy.dst_offset <= dst_size && copy.size <= dst_size - copy.dst_offset
    }

    /// Whether a buffer-image copy is acceptable: both operands are copyable and bound,
    /// exactly one is a buffer, the plane exists, the buffer offset and stride are
    /// block-aligned and large enough, and the rectangle lies within the block-divided
    /// image extent.
    pub open spec fn spec_validate_copy_buffer_image(
        &self,
        src: &Bo<B>,
        copy: CopyBufferImage,
    ) -> bool {
        &&& self.spec_validate_copy(src)
        &&& self.spec_is_buffer() != src.spec_is_buffer()
        &&& {
            let size = if self.spec_is_buffer() {
                self.spec_extent()->Buffer_0
            } else {
                src.spec_extent()->Buffer_0
            };
            let img = if self.spec_is_buffer() {
                src
            } else {
                self
            };
            let fc = crate::formats::format_class_spec(img.spec_format())->Some_0;
            let width = img.spec_extent()->Image_0 as u64 / fc.spec_plane(
                copy.plane as int,
            ).block_width as u64;
            let height = img.spec_extent()->Image_1 as u64 / fc.spec_plane(
                copy.plane as int,
            ).block_height as u64;
            let bpp = fc.spec_plane(copy.plane as int).block_size as u64;
            &&& copy.plane < fc.plane_count
            &&& copy.offset % bpp == 0
            &&& copy.stride % bpp == 0
            &&& copy.stride / bpp >= copy.width as u64
            &&& copy.width > 0
            &&& copy.height > 0
            &&& copy.offset <= size
            &&& copy.stride <= (size - copy.offset) as u64 / copy.height as u64
            &&& copy.x as u64 <= width
            &&& copy.y as u64 <= height
            &&& copy.width as u64 <= width - copy.x as u64
            &&& copy.height as u64 <= height - copy.y as u64
        }
    }

    /// Whether a buffer-image copy is acceptable.
    fn validate_copy_buffer_image(&self, src: &Bo<B>, copy: &CopyBufferImage) -> (r: bool)
        requires
            self.wf(),
            src.wf(),
        ensures
            r == self.spec_validate_copy_buffer_image(src, *copy),
    {
        if !self.validate_copy(src) || (self.format.is_invalid() == src.format.is_invalid()) {
            return false;
        }

        let size: u64;
        let mut width: u64;
        let mut height: u64;
        let fmt: Format;
        if self.format.is_invalid() {
            size = self.extent.size();
            width = src.extent.width() as u64;
            height = src.extent.height() as u64;
            fmt = src.format;
        } else {
            size = src.extent.size();
            width = self.extent.width() as u64;
            height = self.extent.height() as u64;
            fmt = self.format;
        }

        let fc = match crate::formats::format_class(fmt) {
            Ok(c) => c,
            Err(_) => unreached(),
        };
        if copy.plane >= fc.plane_count {
            return false;
        }

        let plane = fc.plane(copy.plane);
        let bpp = plane.block_size as u64;
        width = width / plane.block_width as u64;
        height = height / plane.block_height as u64;

        if copy.offset % bpp != 0 || copy.stride % bpp != 0 || copy.stride / bpp < copy.width
            as u64 {
            return false;
        }

        copy.width > 0 && copy.height > 0 && copy.offset <= size && copy.stride <= (size
            - copy.offset) / copy.height as u64 && copy.x as u64 <= width && copy.y as u64 <= height
            && copy.width as u64 <= width - copy.x as u64 && copy.height as u64 <= height - copy.y
            as u64
    }

    /// Waits on an output sync file when asked to; the returned sync file is then
    /// always suppressed.
    fn wait_copy(&self, sync_fd: Option<Fd>, wait: bool) -> (r: Option<Fd>)
        requires
            self.wf(),
        ensures
            wait ==> r is None,
            !wait ==> r == sync_fd,
    {
        if wait {
            match sync_fd {
                Some(fd) => {
                    self.backend().wait_sync(fd);
                },
                None => {},
            }
            None
        } else {
            sync_fd
        }
    }

    /// Copies between two BOs that are both buffers.
    ///
    /// `sync_fd` is an optional sync file that the copy operation waits for.  A copy
    /// that is empty, out of bounds on either side, or between BOs that lack the copy
    /// capability or are unbound, fails with a user error.
    ///
    /// If `wait` is true, this function never returns any sync file.  Otherwise, it may
    /// return a sync file associated with the copy operation.
    pub fn copy_buffer(&self, src: &Bo<B>, copy: CopyBuffer, sync_fd: Option<Fd>, wait: bool) -> (r:
        Result<Option<Fd>, Error>)
        requires
            self.wf(),
            src.wf(),
        ensures
            !self.spec_validate_copy_buffer(src, copy) ==> (r matches Err(e) && e is User),
            wait ==> (r matches Ok(o) ==> o is None),
    {
        if !self.validate_copy_buffer(src, &copy) {
            return Error::user();
        }

        match self.backend().copy_buffer(&self.handle, &src.handle, copy, sync_fd) {
            Ok(out) => Ok(self.wait_copy(out, wait)),
            Err(e) => Err(e),
        }
    }

    /// Copies between two BOs where one is a buffer and one is an image.
    ///
    /// `sync_fd` is an optional sync file that the copy operation waits for.  A copy
    /// whose plane, alignment or rectangle is not acceptable fails with a user error.
    ///
    /// If `wait` is true, this function never returns any sync file.  Otherwise, it may
    /// return a sync file associated with the copy operation.
    pub fn copy_buffer_image(
        &self,
        src: &Bo<B>,
        copy: CopyBufferImage,
        sync_fd: Option<Fd>,
        wait: bool,
    ) -> (r: Result<Option<Fd>, Error>)
        requires
            self.wf(),
            src.wf(),
        ensures
            !self.spec_validate_copy_buffer_image(src, copy) ==> (r matches Err(e) && e is User),
            wait ==> (r matches Ok(o) ==> o is None),
    {
        if !self.validate_copy_buffer_image(src, &copy) {
            return Error::user();
        }

        match self.backend().copy_buffer_image(&self.handle, &src.handle, copy, sync_fd) {
            Ok(out) => Ok(self.wait_copy(out, wait)),
            Err(e) => Err(e),
        }
    }

    /// Releases the BO: unmaps it if it is still mapped, then releases the handle with
    /// the backend.
    pub fn release(&mut self)
        requires
            old(self).wf(),
        ensures
            final(self).wf(),
            final(self).spec_map_count() == 0,
            final(self).spec_mapping() is None,
            final(self).spec_flags() == old(self).spec_flags(),
            final(self).spec_format() == old(self).spec_format(),
            final(self).spec_extent() == old(self).spec_extent(),
            final(self).spec_bound() == old(self).spec_bound(),
            final(self).spec_mt() == old(self).spec_mt(),
            final(self).layout_spec() == old(self).layout_spec(),
    {
        if self.map_count > 0 {
            let mapping = match self.mapping {
                Some(m) => m,
                None => unreached(),
            };
            self.backend().unmap(&self.handle, mapping);
            self.mapping = None;
            self.map_count = 0;
        }
        self.backend().free(&self.handle);
    }
}

/// Whether a caller constraint and a class's constraint can be honored together:
/// the larger of each pair of alignments must be an exact multiple of the smaller,
/// and at most one side may have a modifier allowlist.
pub open spec fn spec_class_merge_compat(con: Option<Constraint>, class: &Class) -> bool {
    &&& crate::backends::align_compat(
        Constraint::spec_unpack(con).0,
        Constraint::spec_unpack(class.constraint).0,
    )
    &&& crate::backends::align_compat(
        Constraint::spec_unpack(con).1,
        Constraint::spec_unpack(class.constraint).1,
    )
    &&& crate::backends::align_compat(
        Constraint::spec_unpack(con).2,
        Constraint::spec_unpack(class.constraint).2,
    )
    &&& !(Constraint::spec_mods(con).len() > 0 && Constraint::spec_mods(class.constraint).len()
        > 0)
}

/// The allowlist of the merged constraint before it is filtered by the class's
/// modifiers: the one non-empty allowlist of the two sides, if any.
pub open spec fn spec_merged_mods(con: Option<Constraint>, class: &Class) -> Seq<Modifier> {
    if Constraint::spec_mods(class.constraint).len() > 0 {
        Constraint::spec_mods(class.constraint)
    } else {
        Constraint::spec_mods(con)
    }
}

/// Whether the merged allowlist keeps some modifier the class supports.
pub open spec fn spec_allowlist_survives(con: Option<Constraint>, class: &Class) -> bool {
    exists|x: Modifier|
        #[trigger] spec_merged_mods(con, class).contains(x) && class.modifiers@.contains(x)
}

/// Merges a caller constraint with a class's constraint: the larger of each alignment
/// is taken, and the one modifier allowlist is filtered to the class's modifiers.
///
/// Alignments that are no exact multiples of each other, or two allowlists at once,
/// are a contract violation between the caller and the class and fail with a context
/// error; an allowlist that keeps none of the class's modifiers cannot be serviced.
pub fn merge_class_to_constraint(con: Option<Constraint>, class: &Class) -> (r: Result<
    Option<Constraint>,
    Error,
>)
    requires
        class.wf(),
        con matches Some(c) ==> c.wf(),
    ensures
        con is None && class.constraint is None ==> (r matches Ok(m) && m is None),
        con is Some || class.constraint is Some ==> {
            let oa = crate::backends::align_merged(
                Constraint::spec_unpack(con).0,
                Constraint::spec_unpack(class.constraint).0,
            );
            let sa = crate::backends::align_merged(
                Constraint::spec_unpack(con).1,
                Constraint::spec_unpack(class.constraint).1,
            );
            let za = crate::backends::align_merged(
                Constraint::spec_unpack(con).2,
                Constraint::spec_unpack(class.constraint).2,
            );
            let pre = spec_merged_mods(con, class);
            &&& (!spec_class_merge_compat(con, class) ==> (r matches Err(e) && e is Context))
            &&& ((spec_class_merge_compat(con, class) && pre.len() > 0 && !spec_allowlist_survives(
                con,
                class,
            )) ==> (r matches Err(e) && e is Unsupported))
            &&& ((spec_class_merge_compat(con, class) && (pre.len() == 0
                || spec_allowlist_survives(con, class))) ==> (r matches Ok(m) && m matches Some(c)
                && {
                &&& c.wf()
                &&& c.offset_align == oa
                &&& c.stride_align == sa
                &&& c.size_align == za
                &&& (con matches Some(c0) ==> c.offset_align % c0.offset_align == 0
                    && c.stride_align % c0.stride_align == 0 && c.size_align % c0.size_align == 0)
                &&& (pre.len() == 0 ==> c.modifiers@.len() == 0)
                &&& (pre.len() > 0 ==> forall|x: Modifier| #[trigger]
                    c.modifiers@.contains(x) <==> pre.contains(x) && class.modifiers@.contains(x))
            }))
        },
        r matches Err(e) ==> e is Context || e is Unsupported,
{
    if con.is_none() && class.constraint.is_none() {
        return Ok(None);
    }

    let mut merged = match &con {
        Some(c) => clone_constraint(c),
        None => Constraint::new(),
    };

    if let Some(other) = &class.constraint {
        if !merged.merge_compat(other) {
            return Error::ctx("constraint does not merge with the class's");
        }
        proof {
            crate::backends::lemma_align_merged_divides(merged.offset_align, other.offset_align);
            crate::backends::lemma_align_merged_divides(merged.stride_align, other.stride_align);
            crate::backends::lemma_align_merged_divides(merged.size_align, other.size_align);
        }
        merged.merge(other);
    } else {
        proof {
            vstd::arithmetic::div_mod::lemma_mod_self_0(merged.offset_align as int);
            vstd::arithmetic::div_mod::lemma_mod_self_0(merged.stride_align as int);
            vstd::arithmetic::div_mod::lemma_mod_self_0(merged.size_align as int);
        }
    }

    if merged.modifiers.len() > 0 {
        let kept = crate::backends::intersect_modifiers(&merged.modifiers, &class.modifiers);
        if kept.len() == 0 {
            proof {
                assert forall|x: Modifier|
                    !(#[trigger] spec_merged_mods(con, class).contains(x)
                        && class.modifiers@.contains(x)) by {
                    assert(!kept@.contains(x));
                }
            }
            return Error::unsupported();
        }
        proof {
            assert(kept@.contains(kept@[0]));
            assert(spec_allowlist_survives(con, class));
        }
        merged = merged.modifiers(kept);
    }

    Ok(Some(merged))
}

/// Copies a constraint.
fn clone_constraint(c: &Constraint) -> (r: Constraint)
    ensures
        r.offset_align == c.offset_align,
        r.stride_align == c.stride_align,
        r.size_align == c.size_align,
        r.modifiers@ == c.modifiers@,
{
    Constraint {
        offset_align: c.offset_align,
        stride_align: c.stride_align,
        size_align: c.size_align,
        modifiers: crate::backends::clone_modifiers(&c.modifiers),
    }
}

/// The map count after one unmap: one map is undone, and an unmapped BO stays unmapped.
pub open spec fn spec_count_after_unmap(c: int) -> int {
    if c <= 1 {
        0
    } else {
        c - 1
    }
}

/// The map count after `k` unmaps.
pub open spec fn spec_count_after_unmaps(c: int, k: int) -> int
    decreases k,
{
    if k <= 0 {
        c
    } else {
        spec_count_after_unmap(spec_count_after_unmaps(c, k - 1))
    }
}

/// How many of `k` unmaps release the backend mapping: an unmap releases it exactly
/// when it undoes the last map, that is when the count before it is one.
pub open spec fn spec_release_count(c: int, k: int) -> int
    decreases k,
{
    if k <= 0 {
        0
    } else {
        spec_release_count(c, k - 1) + if spec_count_after_unmaps(c, k - 1) == 1 {
            1int
        } else {
            0int
        }
    }
}

/// Map and unmap pair up: `n` maps from the unmapped state take the map count to `n`,
/// and `n` unmaps then leave the BO unmapped, releasing the backend mapping exactly
/// once — at the last unmap.
pub proof fn lemma_map_unmap_balanced(n: int)
    requires
        n >= 1,
    ensures
        spec_count_after_unmaps(n, n) == 0,
        spec_release_count(n, n) == 1,
{
    lemma_unmap_run(n, n);
}

/// Along a run of unmaps from a positive count, the count falls one per step and only
/// the last step releases.
proof fn lemma_unmap_run(n: int, k: int)
    requires
        n >= 1,
        0 <= k <= n,
    ensures
        spec_count_after_unmaps(n, k) == n - k,
        spec_release_count(n, k) == if k == n {
            1int
        } else {
            0int
        },
    decreases k,
{
    if k > 0 {
        lemma_unmap_run(n, k - 1);
    }
}

} // verus!
