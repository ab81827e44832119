//! Tests for classification across backends and the BO lifecycle.

use std::cell::Cell;

use hbm::backends::VulkanUsage;
use hbm::dma_buf;
use hbm::formats;
use hbm::Backend;
use hbm::Bo;
use hbm::Builder;
use hbm::Class;
use hbm::Constraint;
use hbm::CopyBuffer;
use hbm::Description;
use hbm::Error;
use hbm::Extent;
use hbm::Fd;
use hbm::Flags;
use hbm::Handle;
use hbm::Layout;
use hbm::Mapping;
use hbm::MemoryType;
use hbm::Modifier;
use hbm::Usage;

/// A backend over plain memory: creation and layout queries use the generic dma-buf
/// behavior, binding always grants a fixed descriptor, and mappings are counted.
struct TestBackend {
    unmaps: Cell<u32>,
    mods: Vec<Modifier>,
    max: Option<Extent>,
    con: Option<Constraint>,
    unknown: bool,
}

impl TestBackend {
    fn new() -> Self {
        TestBackend {
            unmaps: Cell::new(0),
            mods: Vec::new(),
            max: None,
            con: None,
            unknown: false,
        }
    }

    fn with_mods(mods: Vec<u64>) -> Self {
        TestBackend { mods: mods.into_iter().map(Modifier).collect(), ..Self::new() }
    }

    fn with_max(max: Extent) -> Self {
        TestBackend { max: Some(max), ..Self::new() }
    }

    fn with_con(con: Constraint) -> Self {
        TestBackend { con: Some(con), ..Self::new() }
    }

    fn with_unknown() -> Self {
        TestBackend { unknown: true, ..Self::new() }
    }

    fn reports_something(&self) -> bool {
        !self.mods.is_empty() || self.max.is_some() || self.con.is_some() || self.unknown
    }
}

impl Backend for TestBackend {
    fn classify(&self, desc: Description, usage: Usage) -> Result<Class, Error> {
        if !self.reports_something() {
            dma_buf::classify(desc, usage)
        } else {
            let mods = if self.mods.is_empty() { vec![desc.modifier] } else { self.mods.clone() };
            let mut class = Class::new(&desc)
                .usage(usage)
                .max_extent(self.max.unwrap_or(Extent::max(desc.is_buffer())))
                .modifiers(mods);
            if let Some(con) = &self.con {
                class = class.constraint(con.clone());
            }
            if self.unknown {
                class = class.unknown_constraint();
            }
            Ok(class)
        }
    }

    fn bind_memory(
        &self,
        handle: &mut Handle,
        mt: MemoryType,
        dmabuf: Option<Fd>,
    ) -> Result<(), Error> {
        dma_buf::bind_memory(handle, mt, dmabuf.map(|fd| (fd, u64::MAX)), |_size| Ok(Fd(7)))
    }

    fn export_dma_buf(&self, _handle: &Handle, _name: Option<&str>) -> Result<Fd, Error> {
        Ok(Fd(9))
    }

    fn map(&self, handle: &Handle) -> Result<Mapping, Error> {
        let layout = dma_buf::layout(handle);
        Ok(Mapping { addr: 0x1000, len: layout.size as usize })
    }

    fn unmap(&self, _handle: &Handle, _mapping: Mapping) {
        self.unmaps.set(self.unmaps.get() + 1);
    }

    fn flush(&self, _handle: &Handle) {}

    fn invalidate(&self, _handle: &Handle) {}

    fn wait_sync(&self, _sync_fd: Fd) {}
}

fn vk() -> Usage {
    Usage::Vulkan(VulkanUsage { bits: 1 })
}

#[test]
fn buffer_lifecycle() {
    // a 1024-byte mappable, copyable buffer: allocate, bind once, map twice, unmap twice
    let device = Builder::new().add_backend(TestBackend::new()).build().unwrap();
    let desc = Description::new().flags(Flags::map().union(Flags::copy()));
    let class = device.classify(desc, &[vk()]).unwrap();

    let mut bo = Bo::with_constraint(device.clone(), &class, Extent::Buffer(1024), None).unwrap();
    assert_eq!(bo.layout().size, 1024);

    assert!(bo.bind_memory(MemoryType::mappable(), None).is_ok());
    // bind is exactly-once
    assert!(matches!(bo.bind_memory(MemoryType::mappable(), None), Err(Error::User)));

    let m1 = bo.map().unwrap();
    assert_eq!(m1.len, 1024);
    // a recursive map returns the same mapping
    let m2 = bo.map().unwrap();
    assert_eq!(m1, m2);
    assert_eq!(device.backends[0].unmaps.get(), 0);

    bo.unmap();
    assert_eq!(device.backends[0].unmaps.get(), 0);
    bo.unmap();
    // the backend unmap ran exactly once
    assert_eq!(device.backends[0].unmaps.get(), 1);

    // the BO can be mapped again from scratch
    let m3 = bo.map().unwrap();
    assert_eq!(m3.len, 1024);
    bo.unmap();
    assert_eq!(device.backends[0].unmaps.get(), 2);
}

#[test]
fn bind_memory_errors() {
    let device = Builder::new().add_backend(TestBackend::new()).build().unwrap();
    let desc = Description::new().flags(Flags::map());
    let class = device.classify(desc, &[vk()]).unwrap();

    // importing a dma-buf needs the external capability
    let mut bo = Bo::with_constraint(device.clone(), &class, Extent::Buffer(64), None).unwrap();
    assert!(matches!(bo.bind_memory(MemoryType::mappable(), Some(Fd(3))), Err(Error::User)));

    // an unbound BO cannot be mapped
    assert!(matches!(bo.map(), Err(Error::User)));

    // a BO without the map capability cannot be mapped
    let plain = Description::new();
    let plain_class = device.classify(plain, &[vk()]).unwrap();
    let mut bo2 =
        Bo::with_constraint(device.clone(), &plain_class, Extent::Buffer(64), None).unwrap();
    assert!(bo2.bind_memory(MemoryType::mappable(), None).is_ok());
    assert!(matches!(bo2.map(), Err(Error::User)));
}

#[test]
fn export_requires_external_and_bound() {
    let device = Builder::new().add_backend(TestBackend::new()).build().unwrap();

    let plain = Description::new();
    let plain_class = device.classify(plain, &[vk()]).unwrap();
    let bo = Bo::with_constraint(device.clone(), &plain_class, Extent::Buffer(64), None).unwrap();
    assert!(matches!(bo.export_dma_buf(None), Err(Error::User)));

    let desc = Description::new().flags(Flags::external());
    let class = device.classify(desc, &[vk()]).unwrap();
    let mut bo2 = Bo::with_constraint(device.clone(), &class, Extent::Buffer(64), None).unwrap();
    assert!(matches!(bo2.export_dma_buf(None), Err(Error::User)));
    assert!(bo2.bind_memory(MemoryType::mappable(), None).is_ok());
    assert_eq!(bo2.export_dma_buf(None).unwrap(), Fd(9));
}

#[test]
fn copy_buffer_rejections() {
    let device = Builder::new().add_backend(TestBackend::new()).build().unwrap();
    let desc = Description::new().flags(Flags::map().union(Flags::copy()));
    let class = device.classify(desc, &[vk()]).unwrap();

    let mut dst = Bo::with_constraint(device.clone(), &class, Extent::Buffer(100), None).unwrap();
    let mut src = Bo::with_constraint(device.clone(), &class, Extent::Buffer(64), None).unwrap();

    let copy = CopyBuffer { src_offset: 0, dst_offset: 0, size: 10 };

    // both operands must be bound
    assert!(matches!(dst.copy_buffer(&src, copy, None, false), Err(Error::User)));
    assert!(dst.bind_memory(MemoryType::mappable(), None).is_ok());
    assert!(matches!(dst.copy_buffer(&src, copy, None, false), Err(Error::User)));
    assert!(src.bind_memory(MemoryType::mappable(), None).is_ok());

    // an empty copy is rejected
    let empty = CopyBuffer { src_offset: 0, dst_offset: 0, size: 0 };
    assert!(matches!(dst.copy_buffer(&src, empty, None, false), Err(Error::User)));

    // out of bounds on the source
    let oob_src = CopyBuffer { src_offset: 60, dst_offset: 0, size: 10 };
    assert!(matches!(dst.copy_buffer(&src, oob_src, None, false), Err(Error::User)));

    // out of bounds on the destination
    let oob_dst = CopyBuffer { src_offset: 0, dst_offset: 95, size: 10 };
    assert!(matches!(dst.copy_buffer(&src, oob_dst, None, false), Err(Error::User)));

    // a valid copy reaches the backend, which does not implement copies
    assert!(matches!(dst.copy_buffer(&src, copy, None, false), Err(Error::Unsupported)));

    // operands without the copy capability are rejected
    let plain = Description::new().flags(Flags::map());
    let plain_class = device.classify(plain, &[vk()]).unwrap();
    let mut nocopy =
        Bo::with_constraint(device.clone(), &plain_class, Extent::Buffer(100), None).unwrap();
    assert!(nocopy.bind_memory(MemoryType::mappable(), None).is_ok());
    assert!(matches!(nocopy.copy_buffer(&src, copy, None, false), Err(Error::User)));
}

#[test]
fn with_layout_import() {
    let device = Builder::new().add_backend(TestBackend::new()).build().unwrap();
    let desc = Description::new().flags(Flags::external().union(Flags::map()));
    let class = device.classify(desc, &[vk()]).unwrap();

    // a supplied layout must be at least as large as the packed one
    let small = Layout::new().size(32);
    let r = Bo::with_layout(device.clone(), &class, Extent::Buffer(64), small, None);
    assert!(matches!(r, Err(Error::User)));

    let big = Layout::new().size(128);
    let bo = Bo::with_layout(device.clone(), &class, Extent::Buffer(64), big, None).unwrap();
    assert_eq!(bo.layout().size, 128);
}

#[test]
fn classify_errors() {
    let device = Builder::new().add_backend(TestBackend::new()).build().unwrap();

    // a buffer description must carry the invalid modifier
    let bad = Description::new().modifier(formats::mod_linear());
    assert!(matches!(device.classify(bad, &[vk()]), Err(Error::User)));

    // one usage slot per backend
    let desc = Description::new();
    assert!(matches!(device.classify(desc, &[]), Err(Error::User)));

    // the generic backend cannot honor protected memory
    let protected = Description::new().flags(Flags::protected());
    assert!(matches!(device.classify(protected, &[vk()]), Err(Error::Unsupported)));
}

#[test]
fn memory_plane_count_queries() {
    let device = Builder::new().add_backend(TestBackend::new()).build().unwrap();

    // invalid inputs are the caller's fault
    let r = device.memory_plane_count(formats::invalid(), formats::mod_linear());
    assert!(matches!(r, Err(Error::User)));
    let r = device.memory_plane_count(formats::r8(), formats::mod_invalid());
    assert!(matches!(r, Err(Error::User)));

    // no backend supports the query
    let r = device.memory_plane_count(formats::r8(), formats::mod_linear());
    assert!(matches!(r, Err(Error::Unsupported)));
}

#[test]
fn modifier_intersection() {
    // two backends reporting {A, B} and {B, C} intersect to {B}
    let a = 10u64;
    let b = 20u64;
    let c = 30u64;
    let device = Builder::new()
        .add_backend(TestBackend::with_mods(vec![a, b]))
        .add_backend(TestBackend::with_mods(vec![b, c]))
        .build()
        .unwrap();
    let desc = Description::new().format(formats::r8()).modifier(Modifier(b));
    let class = device.classify(desc, &[vk(), vk()]).unwrap();
    assert_eq!(class.modifiers.len(), 1);
    assert_eq!(class.modifiers[0], Modifier(b));

    // disjoint sets {A} and {C} cannot be merged
    let device2 = Builder::new()
        .add_backend(TestBackend::with_mods(vec![a]))
        .add_backend(TestBackend::with_mods(vec![c]))
        .build()
        .unwrap();
    assert!(matches!(device2.classify(desc, &[vk(), vk()]), Err(Error::Unsupported)));
}

#[test]
fn device_modifiers_query() {
    let device = Builder::new().add_backend(TestBackend::new()).build().unwrap();

    let desc = Description::new().format(formats::r8()).modifier(formats::mod_linear());
    let class = device.classify(desc, &[vk()]).unwrap();
    let mods = device.modifiers(&class);
    assert_eq!(mods.len(), 1);
    assert_eq!(mods[0], formats::mod_linear());

    // the invalid modifier denotes an implicit layout and is never surfaced
    let implicit = Class::new(&desc).modifiers(vec![formats::mod_invalid()]);
    assert_eq!(device.modifiers(&implicit).len(), 0);
}

#[test]
fn mismatched_alignments() {
    // a caller alignment that does not divide the class's is a contract violation
    let device = Builder::new().add_backend(TestBackend::new()).build().unwrap();
    let desc = Description::new();
    let class = Class::new(&desc)
        .usage(vk())
        .max_extent(Extent::Buffer(u64::MAX))
        .constraint(Constraint::new().offset_align(4));
    let con = Constraint::new().offset_align(3);
    let r = Bo::with_constraint(device.clone(), &class, Extent::Buffer(16), Some(con));
    assert!(matches!(r, Err(Error::Context(_))));
}

#[test]
fn with_constraint_layout_fits() {
    // a BO allocated with a constraint has a layout that satisfies that constraint
    let device = Builder::new().add_backend(TestBackend::new()).build().unwrap();
    let desc = Description::new().format(formats::r8()).modifier(formats::mod_linear());
    let class = device.classify(desc, &[vk()]).unwrap();
    let con = Constraint::new().offset_align(8).stride_align(64).size_align(32);
    let bo =
        Bo::with_constraint(device.clone(), &class, Extent::Image(10, 10), Some(con)).unwrap();
    let layout = bo.layout();
    let check = Constraint::new().offset_align(8).stride_align(64).size_align(32);
    assert!(layout.fit(Some(check)));
    assert_eq!(layout.strides[0], 64);
    assert_eq!(layout.size, 640);
}

#[test]
fn extent_validation() {
    let device = Builder::new().add_backend(TestBackend::new()).build().unwrap();
    let desc = Description::new();
    let class = device.classify(desc, &[vk()]).unwrap();

    let r = Bo::with_constraint(device.clone(), &class, Extent::Buffer(0), None);
    assert!(matches!(r, Err(Error::User)));
}

#[test]
fn empty_device() {
    let builder: Builder<TestBackend> = Builder::new();
    assert!(matches!(builder.build(), Err(Error::User)));
}

#[test]
fn bind_generic_import() {
    // the generic backend checks an imported dma-buf's size and binds exactly once
    let desc = Description::new();
    let class = dma_buf::classify(desc, Usage::Unused).unwrap();
    let mut handle = dma_buf::with_constraint(&class, Extent::Buffer(64), None).unwrap();

    // only mappable memory is available
    let r = dma_buf::bind_memory(&mut handle, MemoryType::local(), None, |_s| Ok(Fd(3)));
    assert!(matches!(r, Err(Error::User)));

    // an imported dma-buf must be large enough
    let r = dma_buf::bind_memory(
        &mut handle,
        MemoryType::mappable(),
        Some((Fd(3), 32)),
        |_s| Ok(Fd(4)),
    );
    assert!(matches!(r, Err(Error::User)));

    let r = dma_buf::bind_memory(
        &mut handle,
        MemoryType::mappable(),
        Some((Fd(3), 64)),
        |_s| Ok(Fd(4)),
    );
    assert!(r.is_ok());

    // binding again with a dma-buf is a caller error; without one it is a no-op
    let r = dma_buf::bind_memory(
        &mut handle,
        MemoryType::mappable(),
        Some((Fd(5), 64)),
        |_s| Ok(Fd(6)),
    );
    assert!(matches!(r, Err(Error::User)));
    let r = dma_buf::bind_memory(&mut handle, MemoryType::mappable(), None, |_s| Ok(Fd(6)));
    assert!(r.is_ok());
}

#[test]
fn copy_buffer_image_validation() {
    let device = Builder::new().add_backend(TestBackend::new()).build().unwrap();

    let buf_desc = Description::new().flags(Flags::copy());
    let buf_class = device.classify(buf_desc, &[vk()]).unwrap();
    let mut buf =
        Bo::with_constraint(device.clone(), &buf_class, Extent::Buffer(4096), None).unwrap();
    assert!(buf.bind_memory(MemoryType::mappable(), None).is_ok());

    let img_desc = Description::new()
        .flags(Flags::copy())
        .format(formats::r8())
        .modifier(formats::mod_linear());
    let img_class = device.classify(img_desc, &[vk()]).unwrap();
    let mut img =
        Bo::with_constraint(device.clone(), &img_class, Extent::Image(16, 16), None).unwrap();
    assert!(img.bind_memory(MemoryType::mappable(), None).is_ok());

    let good = hbm::CopyBufferImage {
        offset: 0,
        stride: 16,
        plane: 0,
        x: 0,
        y: 0,
        width: 16,
        height: 16,
    };

    // both operands must be one buffer and one image
    assert!(matches!(buf.copy_buffer_image(&buf, good, None, false), Err(Error::User)));

    // a valid copy reaches the backend, which does not implement copies
    assert!(matches!(buf.copy_buffer_image(&img, good, None, false), Err(Error::Unsupported)));

    // a plane the format does not have
    let bad_plane = hbm::CopyBufferImage { plane: 1, ..good };
    assert!(matches!(buf.copy_buffer_image(&img, bad_plane, None, false), Err(Error::User)));

    // a rectangle outside the image
    let bad_rect = hbm::CopyBufferImage { x: 8, width: 16, ..good };
    assert!(matches!(buf.copy_buffer_image(&img, bad_rect, None, false), Err(Error::User)));

    // a stride shorter than the copied width
    let bad_stride = hbm::CopyBufferImage { stride: 8, ..good };
    assert!(matches!(buf.copy_buffer_image(&img, bad_stride, None, false), Err(Error::User)));

    // an empty rectangle
    let empty = hbm::CopyBufferImage { width: 0, ..good };
    assert!(matches!(buf.copy_buffer_image(&img, empty, None, false), Err(Error::User)));
}

#[test]
fn extent_intersection() {
    // the merged maximal extent is the element-wise minimum across backends
    let device = Builder::new()
        .add_backend(TestBackend::with_max(Extent::Image(100, 50)))
        .add_backend(TestBackend::with_max(Extent::Image(60, 80)))
        .build()
        .unwrap();
    let desc = Description::new().format(formats::r8()).modifier(formats::mod_linear());
    let class = device.classify(desc, &[vk(), vk()]).unwrap();
    assert_eq!(class.max_extent, Extent::Image(60, 50));

    // an empty intersection cannot be serviced
    let device2 = Builder::new()
        .add_backend(TestBackend::with_max(Extent::Image(0, 50)))
        .add_backend(TestBackend::with_max(Extent::Image(60, 80)))
        .build()
        .unwrap();
    assert!(matches!(device2.classify(desc, &[vk(), vk()]), Err(Error::Unsupported)));
}

#[test]
fn constraint_merge_across_backends() {
    // alignments merge to the larger when it is a multiple of the smaller
    let device = Builder::new()
        .add_backend(TestBackend::with_con(Constraint::new().offset_align(4)))
        .add_backend(TestBackend::with_con(Constraint::new().offset_align(8)))
        .build()
        .unwrap();
    let desc = Description::new();
    let class = device.classify(desc, &[vk(), vk()]).unwrap();
    assert_eq!(class.constraint.as_ref().unwrap().offset_align, 8);

    // alignments that are no multiples of each other are an implementation conflict
    let device2 = Builder::new()
        .add_backend(TestBackend::with_con(Constraint::new().offset_align(3)))
        .add_backend(TestBackend::with_con(Constraint::new().offset_align(4)))
        .build()
        .unwrap();
    assert!(matches!(device2.classify(desc, &[vk(), vk()]), Err(Error::Context(_))));
}

#[test]
fn exact_layout_arbitration() {
    // the one backend that demands exact layout knowledge services the buffer
    let desc = Description::new();
    let device = Builder::new()
        .add_backend(TestBackend::new())
        .add_backend(TestBackend::with_unknown())
        .build()
        .unwrap();
    let class = device.classify(desc, &[vk(), vk()]).unwrap();
    assert_eq!(class.backend_index, 1);

    // two such backends cannot be reconciled
    let device2 = Builder::new()
        .add_backend(TestBackend::with_unknown())
        .add_backend(TestBackend::with_unknown())
        .build()
        .unwrap();
    assert!(matches!(device2.classify(desc, &[vk(), vk()]), Err(Error::Unsupported)));

    // an unused backend does not take part, even one that would dictate the layout
    let device3 = Builder::new()
        .add_backend(TestBackend::new())
        .add_backend(TestBackend::with_unknown())
        .build()
        .unwrap();
    let class = device3.classify(desc, &[vk(), Usage::Unused]).unwrap();
    assert_eq!(class.backend_index, 0);
}

#[test]
fn allowlist_intersection() {
    // a caller allowlist is filtered to the class's modifiers; an empty result cannot
    // be serviced
    let device = Builder::new().add_backend(TestBackend::new()).build().unwrap();
    let desc = Description::new().format(formats::r8()).modifier(formats::mod_linear());
    let class = device.classify(desc, &[vk()]).unwrap();

    let keeps = Constraint::new().modifiers(vec![formats::mod_linear(), Modifier(99)]);
    let bo = Bo::with_constraint(device.clone(), &class, Extent::Image(4, 4), Some(keeps));
    assert!(bo.is_ok());

    let disjoint = Constraint::new().modifiers(vec![Modifier(99)]);
    let r = Bo::with_constraint(device.clone(), &class, Extent::Image(4, 4), Some(disjoint));
    assert!(matches!(r, Err(Error::Unsupported)));
}

#[test]
fn modifier_intersection_dedups() {
    // duplicates in the backends' reports do not survive the merge
    let b = 20u64;
    let c = 30u64;
    let device = Builder::new()
        .add_backend(TestBackend::with_mods(vec![b, b]))
        .add_backend(TestBackend::with_mods(vec![b, c, b]))
        .build()
        .unwrap();
    let desc = Description::new().format(formats::r8()).modifier(Modifier(b));
    let class = device.classify(desc, &[vk(), vk()]).unwrap();
    assert_eq!(class.modifiers.len(), 1);
    assert_eq!(class.modifiers[0], Modifier(b));
}
