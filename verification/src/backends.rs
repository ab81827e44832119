//! The backend capability interface and its value types.
//!
//! This module defines the value types shared by all backends — flags, descriptions, extents,
//! constraints and layouts — together with the `Backend` trait that every allocation source
//! implements.

use vstd::prelude::*;
use vstd::relations::sorted_by;
use vstd::relations::total_ordering;

use crate::types::Error;
use crate::types::Fd;
use crate::types::Format;
use crate::types::Mapping;
use crate::types::Modifier;
use crate::types::Size;

verus! {

/// Capabilities requested for a BO.
#[derive(Clone, Copy, Debug, Eq, Hash, PartialEq, Structural)]
pub struct Flags {
    /// The raw bitmask.
    pub bits: u32,
}

pub const FLAG_EXTERNAL: u32 = 0x1;
pub const FLAG_MAP: u32 = 0x2;
pub const FLAG_COPY: u32 = 0x4;
pub const FLAG_PROTECTED: u32 = 0x8;
pub const FLAG_NO_COMPRESSION: u32 = 0x10;

impl Flags {
    /// No capability.
    pub fn empty() -> (r: Flags)
        ensures
            r.bits == 0,
    {
        Flags { bits: 0 }
    }

    /// The BO can be exported to, or imported from, a dma-buf.
    pub fn external() -> (r: Flags)
        ensures
            r.bits == FLAG_EXTERNAL,
    {
        Flags { bits: FLAG_EXTERNAL }
    }

    /// The BO can be mapped for CPU access.
    pub fn map() -> (r: Flags)
        ensures
            r.bits == FLAG_MAP,
    {
        Flags { bits: FLAG_MAP }
    }

    /// The BO can be copied to or from.
    pub fn copy() -> (r: Flags)
        ensures
            r.bits == FLAG_COPY,
    {
        Flags { bits: FLAG_COPY }
    }

    /// The BO must be allocated from protected memory.
    pub fn protected() -> (r: Flags)
        ensures
            r.bits == FLAG_PROTECTED,
    {
        Flags { bits: FLAG_PROTECTED }
    }

    /// The BO must not be compressed.
    pub fn no_compression() -> (r: Flags)
        ensures
            r.bits == FLAG_NO_COMPRESSION,
    {
        Flags { bits: FLAG_NO_COMPRESSION }
    }

    /// The union of two sets of capabilities.
    pub fn union(self, other: Flags) -> (r: Flags)
        ensures
            r.bits == self.bits | other.bits,
    {
        Flags { bits: self.bits | other.bits }
    }

    /// Whether every capability of `other` is present in `self`.
    pub open spec fn spec_contains(&self, other: Flags) -> bool {
        self.bits & other.bits == other.bits
    }

    /// Whether every capability of `other` is present in `self`.
    #[verifier::when_used_as_spec(spec_contains)]
    pub fn contains(&self, other: Flags) -> (r: bool)
        ensures
            r == self.spec_contains(other),
    {
        self.bits & other.bits == other.bits
    }

    /// Whether any capability of `other` is present in `self`.
    pub open spec fn spec_intersects(&self, other: Flags) -> bool {
        self.bits & other.bits != 0
    }

    /// Whether any capability of `other` is present in `self`.
    #[verifier::when_used_as_spec(spec_intersects)]
    pub fn intersects(&self, other: Flags) -> (r: bool)
        ensures
            r == self.spec_intersects(other),
    {
        self.bits & other.bits != 0
    }
}

/// Properties of a memory type.
#[derive(Clone, Copy, Debug, Eq, Hash, PartialEq, Structural)]
pub struct MemoryType {
    /// The raw bitmask.
    pub bits: u32,
}

pub const MEMORY_LOCAL: u32 = 0x1;
pub const MEMORY_MAPPABLE: u32 = 0x2;
pub const MEMORY_COHERENT: u32 = 0x4;
pub const MEMORY_CACHED: u32 = 0x8;

impl MemoryType {
    /// No property.
    pub fn empty() -> (r: MemoryType)
        ensures
            r.bits == 0,
    {
        MemoryType { bits: 0 }
    }

    /// The memory is local to the device.
    pub fn local() -> (r: MemoryType)
        ensures
            r.bits == MEMORY_LOCAL,
    {
        MemoryType { bits: MEMORY_LOCAL }
    }

    /// The memory can be mapped for CPU access.
    pub fn mappable() -> (r: MemoryType)
        ensures
            r.bits == MEMORY_MAPPABLE,
    {
        MemoryType { bits: MEMORY_MAPPABLE }
    }

    /// CPU caches stay coherent with device accesses.
    pub fn coherent() -> (r: MemoryType)
        ensures
            r.bits == MEMORY_COHERENT,
    {
        MemoryType { bits: MEMORY_COHERENT }
    }

    /// CPU accesses are cached.
    pub fn cached() -> (r: MemoryType)
        ensures
            r.bits == MEMORY_CACHED,
    {
        MemoryType { bits: MEMORY_CACHED }
    }

    /// The union of two sets of properties.
    pub fn union(self, other: MemoryType) -> (r: MemoryType)
        ensures
            r.bits == self.bits | other.bits,
    {
        MemoryType { bits: self.bits | other.bits }
    }

    /// Whether the mappable property is the only one requested.
    pub open spec fn spec_only_mappable(&self) -> bool {
        MEMORY_MAPPABLE & self.bits == self.bits
    }

    /// Whether every property of `other` is present in `self`.
    pub open spec fn spec_contains(&self, other: MemoryType) -> bool {
        self.bits & other.bits == other.bits
    }

    /// Whether every property of `other` is present in `self`.
    #[verifier::when_used_as_spec(spec_contains)]
    pub fn contains(&self, other: MemoryType) -> (r: bool)
        ensures
            r == self.spec_contains(other),
    {
        self.bits & other.bits == other.bits
    }
}

/// Describes a BO: caller intent, immutable once built.
#[derive(Clone, Copy, Debug, Eq, Hash, PartialEq, Structural)]
pub struct Description {
    /// The requested capabilities.
    pub flags: Flags,
    /// The format; the invalid format denotes a buffer rather than an image.
    pub format: Format,
    /// The format modifier.
    pub modifier: Modifier,
}

impl Description {
    /// Creates an empty description: no flags, the invalid format, the invalid modifier.
    pub fn new() -> (r: Self)
        ensures
            r.flags.bits == 0,
            r.format.0 == crate::formats::DRM_FORMAT_INVALID,
            r.modifier.0 == crate::formats::DRM_FORMAT_MOD_INVALID,
    {
        Description { flags: Flags::empty(), format: Format::default(), modifier: Modifier::default() }
    }

    /// Replaces the flags.
    pub fn flags(self, flags: Flags) -> (r: Self)
        ensures
            r.flags == flags,
            r.format == self.format,
            r.modifier == self.modifier,
    {
        Description { flags, ..self }
    }

    /// Replaces the format.
    pub fn format(self, fmt: Format) -> (r: Self)
        ensures
            r.flags == self.flags,
            r.format == fmt,
            r.modifier == self.modifier,
    {
        Description { format: fmt, ..self }
    }

    /// Replaces the modifier.
    pub fn modifier(self, modifier: Modifier) -> (r: Self)
        ensures
            r.flags == self.flags,
            r.format == self.format,
            r.modifier == modifier,
    {
        Description { modifier, ..self }
    }

    /// Whether the description describes a buffer rather than an image.
    pub open spec fn spec_is_buffer(&self) -> bool {
        self.format.0 == crate::formats::DRM_FORMAT_INVALID
    }

    /// Whether the description describes a buffer rather than an image.
    #[verifier::when_used_as_spec(spec_is_buffer)]
    pub fn is_buffer(&self) -> (r: bool)
        ensures
            r == self.spec_is_buffer(),
    {
        self.format.is_invalid()
    }

    /// Whether the description is well-formed: a buffer must carry the invalid modifier.
    pub open spec fn spec_is_valid(&self) -> bool {
        self.spec_is_buffer() ==> self.modifier.0 == crate::formats::DRM_FORMAT_MOD_INVALID
    }

    /// Whether the description is well-formed: a buffer must carry the invalid modifier.
    #[verifier::when_used_as_spec(spec_is_valid)]
    pub fn is_valid(&self) -> (r: bool)
        ensures
            r == self.spec_is_valid(),
    {
        if self.is_buffer() {
            self.modifier.is_invalid()
        } else {
            true
        }
    }
}

/// The display-subsystem usage vocabulary, as a raw bitmask.
#[derive(Clone, Copy, Debug, Eq, Hash, PartialEq, Structural)]
pub struct DrmKmsUsage {
    /// The raw bitmask.
    pub bits: u32,
}

/// The graphics-API usage vocabulary, as a raw bitmask.
#[derive(Clone, Copy, Debug, Eq, Hash, PartialEq, Structural)]
pub struct VulkanUsage {
    /// The raw bitmask.
    pub bits: u32,
}

/// Identifies which backend's usage vocabulary applies, or that a backend is unused.
#[derive(Clone, Copy, Debug, Eq, Hash, PartialEq, Structural)]
pub enum Usage {
    /// The backend is not needed for this BO.
    Unused,
    /// Display-subsystem usage.
    DrmKms(DrmKmsUsage),
    /// Graphics-API usage.
    Vulkan(VulkanUsage),
}

/// The size of a BO: a byte size for a buffer, or a width and height for an image.
#[derive(Clone, Copy, Debug, Eq, PartialEq, Structural)]
pub enum Extent {
    /// A buffer size in bytes.
    Buffer(Size),
    /// An image width and height in texels.
    Image(u32, u32),
}

impl Extent {
    /// Whether two extents are of the same kind.
    pub open spec fn same_kind(self, other: Extent) -> bool {
        (self is Buffer && other is Buffer) || (self is Image && other is Image)
    }

    /// The maximal extent of the given kind.
    pub fn max(is_buf: bool) -> (r: Self)
        ensures
            is_buf ==> r == Extent::Buffer(u64::MAX),
            !is_buf ==> r == Extent::Image(u32::MAX, u32::MAX),
    {
        if is_buf {
            Extent::Buffer(u64::MAX)
        } else {
            Extent::Image(u32::MAX, u32::MAX)
        }
    }

    /// The byte size of a buffer extent.
    pub open spec fn spec_size(&self) -> Size {
        self->Buffer_0
    }

    /// The byte size of a buffer extent.
    #[verifier::when_used_as_spec(spec_size)]
    pub fn size(&self) -> (r: Size)
        requires
            self is Buffer,
        ensures
            r == self.spec_size(),
    {
        match self {
            Extent::Buffer(size) => *size,
            _ => unreached(),
        }
    }

    /// The width of an image extent.
    pub open spec fn spec_width(&self) -> u32 {
        self->Image_0
    }

    /// The width of an image extent.
    #[verifier::when_used_as_spec(spec_width)]
    pub fn width(&self) -> (r: u32)
        requires
            self is Image,
        ensures
            r == self.spec_width(),
    {
        match self {
            Extent::Image(width, _) => *width,
            _ => unreached(),
        }
    }

    /// The height of an image extent.
    pub open spec fn spec_height(&self) -> u32 {
        self->Image_1
    }

    /// The height of an image extent.
    #[verifier::when_used_as_spec(spec_height)]
    pub fn height(&self) -> (r: u32)
        requires
            self is Image,
        ensures
            r == self.spec_height(),
    {
        match self {
            Extent::Image(_, height) => *height,
            _ => unreached(),
        }
    }

    /// Whether the extent is empty in any dimension.
    pub open spec fn spec_is_empty(&self) -> bool {
        match *self {
            Extent::Buffer(size) => size == 0,
            Extent::Image(width, height) => width == 0 || height == 0,
        }
    }

    /// Whether the extent is empty in any dimension.
    #[verifier::when_used_as_spec(spec_is_empty)]
    pub fn is_empty(&self) -> (r: bool)
        ensures
            r == self.spec_is_empty(),
    {
        match self {
            Extent::Buffer(size) => *size == 0,
            Extent::Image(width, height) => *width == 0 || *height == 0,
        }
    }

    /// The element-wise minimum of two extents of the same kind.
    pub open spec fn spec_intersect(self, other: Extent) -> Extent {
        match self {
            Extent::Buffer(size) => Extent::Buffer(
                if size > other->Buffer_0 {
                    other->Buffer_0
                } else {
                    size
                },
            ),
            Extent::Image(width, height) => Extent::Image(
                if width > other->Image_0 {
                    other->Image_0
                } else {
                    width
                },
                if height > other->Image_1 {
                    other->Image_1
                } else {
                    height
                },
            ),
        }
    }

    /// Shrinks the extent to the element-wise minimum with another extent of the same kind.
    pub fn intersect(&mut self, other: Extent)
        requires
            old(self).same_kind(other),
        ensures
            *final(self) == old(self).spec_intersect(other),
    {
        match self {
            Extent::Buffer(size) => {
                if *size > other.size() {
                    *size = other.size();
                }
            },
            Extent::Image(width, height) => {
                if *width > other.width() {
                    *width = other.width();
                }
                if *height > other.height() {
                    *height = other.height();
                }
            },
        }
    }

    /// Whether the extent is at most another extent of the same kind, element-wise.
    pub open spec fn spec_le(self, other: Extent) -> bool {
        match self {
            Extent::Buffer(size) => other is Buffer && size <= other->Buffer_0,
            Extent::Image(width, height) => other is Image && width <= other->Image_0 && height
                <= other->Image_1,
        }
    }
}

/// The larger of two alignments.
pub open spec fn align_merged(a: Size, b: Size) -> Size {
    if a < b {
        b
    } else {
        a
    }
}

/// Whether two alignments merge: the larger must be an exact multiple of the smaller.
pub open spec fn align_compat(a: Size, b: Size) -> bool {
    if a < b {
        b % a == 0
    } else {
        a % b == 0
    }
}

/// An allocation constraint: an alignment for plane offsets, row strides and plane sizes,
/// and an optional allowlist of modifiers.
#[derive(Clone, Debug)]
pub struct Constraint {
    /// Alignment for plane offsets in bytes; at least one.
    pub offset_align: Size,
    /// Alignment for row strides in bytes; at least one.
    pub stride_align: Size,
    /// Alignment for plane sizes in bytes; at least one.
    pub size_align: Size,
    /// An optional allowlist of modifiers; empty means unrestricted.
    pub modifiers: Vec<Modifier>,
}

impl Constraint {
    /// Every alignment is at least one.
    pub open spec fn wf(&self) -> bool {
        self.offset_align >= 1 && self.stride_align >= 1 && self.size_align >= 1
    }

    /// Creates a constraint with all alignments one and no modifier allowlist.
    pub fn new() -> (r: Self)
        ensures
            r.wf(),
            r.offset_align == 1,
            r.stride_align == 1,
            r.size_align == 1,
            r.modifiers@.len() == 0,
    {
        Constraint { offset_align: 1, stride_align: 1, size_align: 1, modifiers: Vec::new() }
    }

    /// Replaces the offset alignment; a value of one or less is ignored.
    pub fn offset_align(self, align: Size) -> (r: Self)
        requires
            self.wf(),
        ensures
            r.wf(),
            r.offset_align == if align > 1 {
                align
            } else {
                self.offset_align
            },
            r.stride_align == self.stride_align,
            r.size_align == self.size_align,
            r.modifiers@ == self.modifiers@,
    {
        let mut r = self;
        if align > 1 {
            r.offset_align = align;
        }
        r
    }

    /// Replaces the stride alignment; a value of one or less is ignored.
    pub fn stride_align(self, align: Size) -> (r: Self)
        requires
            self.wf(),
        ensures
            r.wf(),
            r.stride_align == if align > 1 {
                align
            } else {
                self.stride_align
            },
            r.offset_align == self.offset_align,
            r.size_align == self.size_align,
            r.modifiers@ == self.modifiers@,
    {
        let mut r = self;
        if align > 1 {
            r.stride_align = align;
        }
        r
    }

    /// Replaces the size alignment; a value of one or less is ignored.
    pub fn size_align(self, align: Size) -> (r: Self)
        requires
            self.wf(),
        ensures
            r.wf(),
            r.size_align == if align > 1 {
                align
            } else {
                self.size_align
            },
            r.offset_align == self.offset_align,
            r.stride_align == self.stride_align,
            r.modifiers@ == self.modifiers@,
    {
        let mut r = self;
        if align > 1 {
            r.size_align = align;
        }
        r
    }

    /// Replaces the modifier allowlist.
    pub fn modifiers(self, modifiers: Vec<Modifier>) -> (r: Self)
        ensures
            r.offset_align == self.offset_align,
            r.stride_align == self.stride_align,
            r.size_align == self.size_align,
            r.modifiers@ == modifiers@,
    {
        let mut r = self;
        r.modifiers = modifiers;
        r
    }

    /// The alignment triple of the constraint.
    pub fn to_tuple(&self) -> (r: (Size, Size, Size))
        ensures
            r == (self.offset_align, self.stride_align, self.size_align),
    {
        (self.offset_align, self.stride_align, self.size_align)
    }

    /// Whether this constraint merges with another: the alignments must be pairwise
    /// compatible, and at most one side may have a modifier allowlist.
    pub open spec fn spec_merge_compat(&self, other: &Constraint) -> bool {
        &&& align_compat(self.offset_align, other.offset_align)
        &&& align_compat(self.stride_align, other.stride_align)
        &&& align_compat(self.size_align, other.size_align)
        &&& !(self.modifiers@.len() > 0 && other.modifiers@.len() > 0)
    }

    /// Whether this constraint merges with another.
    #[verifier::when_used_as_spec(spec_merge_compat)]
    pub fn merge_compat(&self, other: &Constraint) -> (r: bool)
        requires
            self.wf(),
            other.wf(),
        ensures
            r == self.spec_merge_compat(other),
    {
        align_compat_exec(self.offset_align, other.offset_align) && align_compat_exec(
            self.stride_align,
            other.stride_align,
        ) && align_compat_exec(self.size_align, other.size_align) && !(self.modifiers.len() > 0
            && other.modifiers.len() > 0)
    }

    /// Merges another constraint into this one, taking the larger of each alignment and the
    /// one non-empty modifier allowlist.
    ///
    /// A larger alignment that is not an exact multiple of the smaller, or two sides that
    /// both restrict modifiers, cannot be honored together: that is a contract violation
    /// between backends, not a recoverable condition, and is excluded up front.
    pub(crate) fn merge(&mut self, other: &Constraint)
        requires
            old(self).wf(),
            other.wf(),
            old(self).spec_merge_compat(other),
        ensures
            final(self).wf(),
            final(self).offset_align == align_merged(old(self).offset_align, other.offset_align),
            final(self).stride_align == align_merged(old(self).stride_align, other.stride_align),
            final(self).size_align == align_merged(old(self).size_align, other.size_align),
            final(self).modifiers@ == if other.modifiers@.len() > 0 {
                other.modifiers@
            } else {
                old(self).modifiers@
            },
    {
        if self.offset_align < other.offset_align {
            self.offset_align = other.offset_align;
        }
        if self.stride_align < other.stride_align {
            self.stride_align = other.stride_align;
        }
        if self.size_align < other.size_align {
            self.size_align = other.size_align;
        }
        if other.modifiers.len() > 0 {
            self.modifiers = clone_modifiers(&other.modifiers);
        }
    }

    /// The modifier allowlist of an optional constraint, defaulting to none.
    pub open spec fn spec_mods(con: Option<Constraint>) -> Seq<Modifier> {
        match con {
            Some(c) => c.modifiers@,
            None => Seq::empty(),
        }
    }

    /// The alignment triple of an optional constraint, defaulting to all ones.
    pub open spec fn spec_unpack(con: Option<Constraint>) -> (Size, Size, Size) {
        match con {
            Some(c) => (c.offset_align, c.stride_align, c.size_align),
            None => (1u64, 1u64, 1u64),
        }
    }

    /// The alignment triple of an optional constraint, defaulting to all ones.
    pub fn unpack(con: Option<Constraint>) -> (r: (Size, Size, Size))
        ensures
            r == Constraint::spec_unpack(con),
    {
        match con {
            Some(c) => c.to_tuple(),
            None => (1, 1, 1),
        }
    }
}

/// A merged alignment is an exact multiple of each alignment it came from.
pub proof fn lemma_align_merged_divides(a: Size, b: Size)
    requires
        a >= 1,
        b >= 1,
        align_compat(a, b),
    ensures
        align_merged(a, b) % a == 0,
        align_merged(a, b) % b == 0,
{
    vstd::arithmetic::div_mod::lemma_mod_self_0(a as int);
    vstd::arithmetic::div_mod::lemma_mod_self_0(b as int);
}

/// Whether two alignments merge.
fn align_compat_exec(a: Size, b: Size) -> (r: bool)
    requires
        a >= 1,
        b >= 1,
    ensures
        r == align_compat(a, b),
{
    if a < b {
        b % a == 0
    } else {
        a % b == 0
    }
}

/// Copies a modifier list.
pub(crate) fn clone_modifiers(v: &Vec<Modifier>) -> (r: Vec<Modifier>)
    ensures
        r@ == v@,
{
    let mut r: Vec<Modifier> = Vec::new();
    let mut i: usize = 0;
    while i < v.len()
        invariant
            i <= v@.len(),
            r@ == v@.subrange(0, i as int),
        decreases v@.len() - i,
    {
        r.push(v[i]);
        i = i + 1;
        proof {
            assert(r@ =~= v@.subrange(0, i as int));
        }
    }
    proof {
        assert(r@ =~= v@);
    }
    r
}

/// Describes the physical layout of a BO: total size, modifier, and per-plane offsets
/// and row strides.
#[derive(Clone, Debug)]
pub struct Layout {
    /// Size of the BO in bytes.
    pub size: Size,
    /// Format modifier.
    pub modifier: Modifier,
    /// Memory plane count, which can be equal to or greater than the format plane count.
    pub plane_count: u32,
    /// Plane offsets; always four entries.
    pub offsets: Vec<Size>,
    /// Plane row strides; always four entries.
    pub strides: Vec<Size>,
}

impl Layout {
    /// The offset and stride tables always have four entries.
    pub open spec fn wf(&self) -> bool {
        self.offsets@.len() == 4 && self.strides@.len() == 4
    }

    /// Creates an empty layout: zero size, the invalid modifier, no planes.
    pub fn new() -> (r: Self)
        ensures
            r.wf(),
            r.size == 0,
            r.modifier.0 == crate::formats::DRM_FORMAT_MOD_INVALID,
            r.plane_count == 0,
            r.offsets@ =~= seq![0u64, 0u64, 0u64, 0u64],
            r.strides@ =~= seq![0u64, 0u64, 0u64, 0u64],
    {
        let zeros: Vec<Size> = vec![0, 0, 0, 0];
        Layout {
            size: 0,
            modifier: Modifier::default(),
            plane_count: 0,
            offsets: zeros.clone(),
            strides: zeros,
        }
    }

    /// Replaces the size.
    pub fn size(self, size: Size) -> (r: Self)
        ensures
            r == (Layout { size, ..self }),
    {
        let mut r = self;
        r.size = size;
        r
    }

    /// Replaces the modifier.
    pub fn modifier(self, modifier: Modifier) -> (r: Self)
        ensures
            r == (Layout { modifier, ..self }),
    {
        let mut r = self;
        r.modifier = modifier;
        r
    }

    /// Replaces the plane count.
    pub fn plane_count(self, plane_count: u32) -> (r: Self)
        ensures
            r == (Layout { plane_count, ..self }),
    {
        let mut r = self;
        r.plane_count = plane_count;
        r
    }

    /// Replaces the plane offset table.
    pub fn offsets(self, offsets: Vec<Size>) -> (r: Self)
        requires
            offsets@.len() == 4,
        ensures
            r == (Layout { offsets, ..self }),
    {
        let mut r = self;
        r.offsets = offsets;
        r
    }

    /// Replaces the plane stride table.
    pub fn strides(self, strides: Vec<Size>) -> (r: Self)
        requires
            strides@.len() == 4,
        ensures
            r == (Layout { strides, ..self }),
    {
        let mut r = self;
        r.strides = strides;
        r
    }

    /// Replaces one plane offset.
    pub fn offset(self, plane: usize, offset: Size) -> (r: Self)
        requires
            self.wf(),
            plane < 4,
        ensures
            r.wf(),
            r.size == self.size,
            r.modifier == self.modifier,
            r.plane_count == self.plane_count,
            r.offsets@ == self.offsets@.update(plane as int, offset),
            r.strides@ == self.strides@,
    {
        let mut r = self;
        r.offsets[plane] = offset;
        r
    }

    /// Replaces one plane stride.
    pub fn stride(self, plane: usize, stride: Size) -> (r: Self)
        requires
            self.wf(),
            plane < 4,
        ensures
            r.wf(),
            r.size == self.size,
            r.modifier == self.modifier,
            r.plane_count == self.plane_count,
            r.offsets@ == self.offsets@,
            r.strides@ == self.strides@.update(plane as int, stride),
    {
        let mut r = self;
        r.strides[plane] = stride;
        r
    }
}

impl PartialEq for Layout {
    fn eq(&self, other: &Layout) -> (r: bool) {
        let offsets_eq = self.offsets == other.offsets;
        let strides_eq = self.strides == other.strides;
        proof {
            assert(offsets_eq ==> self.offsets@ =~= other.offsets@);
            assert(self.offsets@ == other.offsets@ ==> offsets_eq);
            assert(strides_eq ==> self.strides@ =~= other.strides@);
            assert(self.strides@ == other.strides@ ==> strides_eq);
        }
        self.size == other.size && self.modifier == other.modifier && self.plane_count
            == other.plane_count && offsets_eq && strides_eq
    }
}

impl vstd::std_specs::cmp::PartialEqSpecImpl for Layout {
    open spec fn obeys_eq_spec() -> bool {
        true
    }

    open spec fn eq_spec(&self, other: &Layout) -> bool {
        layout_eq(*self, *other)
    }
}

/// Whether two layouts describe the same physical layout.
pub open spec fn layout_eq(a: Layout, b: Layout) -> bool {
    &&& a.size == b.size
    &&& a.modifier == b.modifier
    &&& a.plane_count == b.plane_count
    &&& a.offsets@ == b.offsets@
    &&& a.strides@ == b.strides@
}

/// Copies a layout.
pub(crate) fn clone_layout(l: &Layout) -> (r: Layout)
    ensures
        layout_eq(r, *l),
{
    Layout {
        size: l.size,
        modifier: l.modifier,
        plane_count: l.plane_count,
        offsets: clone_sizes(&l.offsets),
        strides: clone_sizes(&l.strides),
    }
}

/// Copies a size table.
fn clone_sizes(v: &Vec<Size>) -> (r: Vec<Size>)
    ensures
        r@ == v@,
{
    let mut r: Vec<Size> = Vec::new();
    let mut i: usize = 0;
    while i < v.len()
        invariant
            i <= v@.len(),
            r@ == v@.subrange(0, i as int),
        decreases v@.len() - i,
    {
        r.push(v[i]);
        i = i + 1;
        proof {
            assert(r@ =~= v@.subrange(0, i as int));
        }
    }
    proof {
        assert(r@ =~= v@);
    }
    r
}

/// The comparison that orders plane offsets.
pub open spec fn u64_leq() -> spec_fn(u64, u64) -> bool {
    |a: u64, b: u64| a <= b
}

/// Sorts the first `n` entries of a table of sizes, ascending.
fn sort_sizes(v: &Vec<u64>, n: usize) -> (r: Vec<u64>)
    requires
        n <= v@.len(),
    ensures
        r@ == v@.subrange(0, n as int).sort_by(u64_leq()),
{
    let ghost prefix = v@.subrange(0, n as int);
    proof {
        assert(total_ordering(u64_leq()));
    }
    let mut rest: Vec<u64> = Vec::new();
    let mut i: usize = 0;
    while i < n
        invariant
            i <= n,
            n <= v@.len(),
            rest@ == v@.subrange(0, i as int),
        decreases n - i,
    {
        rest.push(v[i]);
        i = i + 1;
        proof {
            assert(rest@ =~= v@.subrange(0, i as int));
        }
    }
    assert(rest@ == prefix);

    let mut out: Vec<u64> = Vec::new();
    proof {
        broadcast use vstd::seq_lib::group_to_multiset_ensures;
        broadcast use vstd::multiset::group_multiset_axioms;

        assert(out@.to_multiset().add(rest@.to_multiset()) =~= prefix.to_multiset());
    }
    while rest.len() > 0
        invariant
            sorted_by(out@, u64_leq()),
            out@.to_multiset().add(rest@.to_multiset()) =~= prefix.to_multiset(),
            forall|a: int, b: int|
                0 <= a < out@.len() && 0 <= b < rest@.len() ==> #[trigger] out@[a]
                    <= #[trigger] rest@[b],
        decreases rest@.len(),
    {
        let mut m: usize = 0;
        let mut k: usize = 1;
        while k < rest.len()
            invariant
                m < k <= rest@.len() || (k <= rest@.len() && m == 0),
                m < rest@.len(),
                rest@.len() > 0,
                forall|j: int| 0 <= j < k ==> rest@[m as int] <= #[trigger] rest@[j],
            decreases rest@.len() - k,
        {
            if rest[k] < rest[m] {
                m = k;
            }
            k = k + 1;
        }
        let ghost old_out = out@;
        let ghost old_rest = rest@;
        let x = rest.remove(m);
        out.push(x);
        proof {
            broadcast use vstd::seq_lib::group_to_multiset_ensures;
            broadcast use vstd::multiset::group_multiset_axioms;

            assert(out@ == old_out.push(x));
            assert(rest@ == old_rest.remove(m as int));
            assert(out@.to_multiset() =~= old_out.to_multiset().insert(x));
            assert(rest@.to_multiset() =~= old_rest.to_multiset().remove(x));
            assert(out@.to_multiset().add(rest@.to_multiset()) =~= prefix.to_multiset());
            assert forall|a: int, b: int|
                0 <= a < out@.len() && 0 <= b < rest@.len() implies #[trigger] out@[a]
                <= #[trigger] rest@[b] by {
                if b < m {
                    assert(rest@[b] == old_rest[b]);
                } else {
                    assert(rest@[b] == old_rest[b + 1]);
                }
            }
            assert(sorted_by(out@, u64_leq()));
        }
    }
    proof {
        broadcast use vstd::seq_lib::group_to_multiset_ensures;
        broadcast use vstd::multiset::group_multiset_axioms;

        assert(rest@.to_multiset().len() == 0);
        assert(out@.to_multiset() =~= prefix.to_multiset());
        prefix.lemma_sort_by_ensures(u64_leq());
        vstd::seq_lib::lemma_sorted_unique(out@, prefix.sort_by(u64_leq()), u64_leq());
    }
    out
}

/// The gap from one plane offset, taken in ascending order, to the next; the last plane
/// runs to the total size.
pub open spec fn spec_effective_extent(sorted: Seq<u64>, total: int, i: int) -> int {
    if i < sorted.len() - 1 {
        sorted[i + 1] - sorted[i]
    } else {
        total - sorted[i]
    }
}

/// The validated, immutable descriptor produced by classification.
///
/// The fields are filled in by classification and are read-only afterwards.
#[derive(Clone, Debug)]
pub struct Class {
    /// The requested capabilities, copied from the description.
    pub flags: Flags,
    /// The format, copied from the description.
    pub format: Format,
    /// The usage the class was negotiated for.
    pub usage: Usage,
    /// The largest extent every contributing backend accepts.
    pub max_extent: Extent,
    /// The modifiers every contributing backend supports.
    pub modifiers: Vec<Modifier>,
    /// The merged allocation constraint, if any backend reported one.
    pub constraint: Option<Constraint>,
    /// Whether a backend must dictate the physical layout itself.
    pub unknown_constraint: bool,
    /// The index of the backend that services the buffer.
    pub backend_index: usize,
}

impl Class {
    /// Whether the class describes a buffer rather than an image.
    pub open spec fn spec_is_buffer(&self) -> bool {
        self.format.0 == crate::formats::DRM_FORMAT_INVALID
    }

    /// Whether the class describes a buffer rather than an image.
    #[verifier::when_used_as_spec(spec_is_buffer)]
    pub fn is_buffer(&self) -> (r: bool)
        ensures
            r == self.spec_is_buffer(),
    {
        self.format.is_invalid()
    }

    /// The kind of the maximal extent matches the kind of the class, and any constraint
    /// is well-formed.
    pub open spec fn wf(&self) -> bool {
        &&& self.spec_is_buffer() <==> self.max_extent is Buffer
        &&& self.constraint matches Some(c) ==> c.wf()
    }

    /// Creates the class of a description: maximal extent, no modifiers, no constraint,
    /// the first backend.
    pub fn new(desc: &Description) -> (r: Self)
        ensures
            r.wf(),
            r.flags == desc.flags,
            r.format == desc.format,
            r.usage is Unused,
            desc.spec_is_buffer() ==> r.max_extent == Extent::Buffer(u64::MAX),
            !desc.spec_is_buffer() ==> r.max_extent == Extent::Image(u32::MAX, u32::MAX),
            r.modifiers@.len() == 0,
            r.constraint is None,
            r.unknown_constraint == false,
            r.backend_index == 0,
    {
        Class {
            flags: desc.flags,
            format: desc.format,
            usage: Usage::Unused,
            max_extent: Extent::max(desc.is_buffer()),
            modifiers: Vec::new(),
            constraint: None,
            unknown_constraint: false,
            backend_index: 0,
        }
    }

    /// Replaces the usage.
    pub fn usage(self, usage: Usage) -> (r: Self)
        ensures
            r == (Class { usage, ..self }),
    {
        let mut r = self;
        r.usage = usage;
        r
    }

    /// Replaces the maximal extent; its kind must match the kind of the class.
    pub fn max_extent(self, max_extent: Extent) -> (r: Self)
        requires
            self.spec_is_buffer() <==> max_extent is Buffer,
        ensures
            r == (Class { max_extent, ..self }),
            self.wf() ==> r.wf(),
    {
        let mut r = self;
        r.max_extent = max_extent;
        r
    }

    /// Replaces the supported modifiers.
    pub fn modifiers(self, modifiers: Vec<Modifier>) -> (r: Self)
        ensures
            r == (Class { modifiers, ..self }),
            self.wf() ==> r.wf(),
    {
        let mut r = self;
        r.modifiers = modifiers;
        r
    }

    /// Replaces the constraint.
    pub fn constraint(self, con: Constraint) -> (r: Self)
        ensures
            r == (Class { constraint: Some(con), ..self }),
    {
        let mut r = self;
        r.constraint = Some(con);
        r
    }

    /// Marks the class as requiring exact layout knowledge from its backend.
    pub fn unknown_constraint(self) -> (r: Self)
        ensures
            r == (Class { unknown_constraint: true, ..self }),
    {
        let mut r = self;
        r.unknown_constraint = true;
        r
    }

    /// Replaces the backend index.
    pub fn backend_index(self, idx: usize) -> (r: Self)
        ensures
            r == (Class { backend_index: idx, ..self }),
            self.wf() ==> r.wf(),
    {
        let mut r = self;
        r.backend_index = idx;
        r
    }

    /// Whether an extent is acceptable for the class: at least one, and at most the
    /// maximal extent, in every dimension.
    pub open spec fn spec_validate(&self, extent: Extent) -> bool {
        if self.spec_is_buffer() {
            1 <= extent->Buffer_0 <= self.max_extent->Buffer_0
        } else {
            &&& 1 <= extent->Image_0 <= self.max_extent->Image_0
            &&& 1 <= extent->Image_1 <= self.max_extent->Image_1
        }
    }

    /// Whether an extent is acceptable for the class.
    #[verifier::when_used_as_spec(spec_validate)]
    pub fn validate(&self, extent: Extent) -> (r: bool)
        requires
            self.wf(),
            self.max_extent.same_kind(extent),
        ensures
            r == self.spec_validate(extent),
    {
        if self.is_buffer() {
            let max_size = self.max_extent.size();
            let size = extent.size();
            1 <= size && size <= max_size
        } else {
            let max_width = self.max_extent.width();
            let max_height = self.max_extent.height();
            let width = extent.width();
            let height = extent.height();
            1 <= width && width <= max_width && 1 <= height && height <= max_height
        }
    }

    /// Whether some supported modifier is the linear modifier.
    pub open spec fn spec_has_linear(&self) -> bool {
        exists|i: int|
            0 <= i < self.modifiers@.len() && #[trigger] self.modifiers@[i].0
                == crate::formats::DRM_FORMAT_MOD_LINEAR
    }

    /// Whether some supported modifier is the linear modifier.
    #[verifier::when_used_as_spec(spec_has_linear)]
    pub fn has_linear(&self) -> (r: bool)
        ensures
            r == self.spec_has_linear(),
    {
        let mut i: usize = 0;
        while i < self.modifiers.len()
            invariant
                i <= self.modifiers@.len(),
                forall|j: int|
                    0 <= j < i ==> #[trigger] self.modifiers@[j].0
                        != crate::formats::DRM_FORMAT_MOD_LINEAR,
            decreases self.modifiers@.len() - i,
        {
            if self.modifiers[i].is_linear() {
                return true;
            }
            i = i + 1;
        }
        false
    }
}

/// What packing returns for a class and an extent: the packed layout when every packed
/// quantity fits in 64 bits; a user error when an image cannot be packed at all; an
/// integer-conversion error when a quantity does not fit.
pub open spec fn spec_packed_result(
    class: Class,
    extent: Extent,
    con: Option<Constraint>,
    r: Result<Layout, Error>,
) -> bool {
    if class.spec_is_buffer() {
        let za = Constraint::spec_unpack(con).2 as int;
        &&& (r is Ok <==> crate::utils::spec_align_up(extent->Buffer_0 as int, za) <= u64::MAX)
        &&& (r matches Ok(l) ==> is_packed_buffer_layout(l, extent->Buffer_0 as int, za))
        &&& (r matches Err(e) ==> e is IntegerConversion)
    } else {
        let fc = crate::formats::format_class_spec(class.format)->Some_0;
        let oa = Constraint::spec_unpack(con).0 as int;
        let sa = Constraint::spec_unpack(con).1 as int;
        let za = Constraint::spec_unpack(con).2 as int;
        let w = extent->Image_0 as int;
        let h = extent->Image_1 as int;
        &&& (!class.spec_has_linear() ==> (r matches Err(e) && e is User))
        &&& (class.spec_has_linear() && !crate::formats::is_known_format(class.format) ==> (
        r matches Err(e)
            && e is User))
        &&& (class.spec_has_linear() && crate::formats::is_known_format(class.format) ==> {
            &&& (r is Ok <==> crate::formats::packed_fits(fc, w, h, oa, sa, za))
            &&& (r matches Ok(l) ==> crate::formats::is_packed_image_layout(l, fc, w, h, oa, sa, za))
            &&& (r matches Err(e) ==> e is IntegerConversion)
        })
    }
}

/// Whether packing a class and an extent succeeds.
pub open spec fn spec_packable(class: Class, extent: Extent, con: Option<Constraint>) -> bool {
    if class.spec_is_buffer() {
        crate::utils::spec_align_up(
            extent->Buffer_0 as int,
            Constraint::spec_unpack(con).2 as int,
        ) <= u64::MAX
    } else {
        &&& class.spec_has_linear()
        &&& crate::formats::is_known_format(class.format)
        &&& crate::formats::packed_fits(
            crate::formats::format_class_spec(class.format)->Some_0,
            extent->Image_0 as int,
            extent->Image_1 as int,
            Constraint::spec_unpack(con).0 as int,
            Constraint::spec_unpack(con).1 as int,
            Constraint::spec_unpack(con).2 as int,
        )
    }
}

/// Whether packing a class and an extent fails only because a packed quantity does not
/// fit in 64 bits.
pub open spec fn spec_packed_overflow(class: Class, extent: Extent, con: Option<
    Constraint,
>) -> bool {
    if class.spec_is_buffer() {
        crate::utils::spec_align_up(
            extent->Buffer_0 as int,
            Constraint::spec_unpack(con).2 as int,
        ) > u64::MAX
    } else {
        &&& class.spec_has_linear()
        &&& crate::formats::is_known_format(class.format)
        &&& !crate::formats::packed_fits(
            crate::formats::format_class_spec(class.format)->Some_0,
            extent->Image_0 as int,
            extent->Image_1 as int,
            Constraint::spec_unpack(con).0 as int,
            Constraint::spec_unpack(con).1 as int,
            Constraint::spec_unpack(con).2 as int,
        )
    }
}

/// The total size packing produces.
pub open spec fn spec_packed_size(class: Class, extent: Extent, con: Option<Constraint>) -> int {
    if class.spec_is_buffer() {
        crate::utils::spec_align_up(
            extent->Buffer_0 as int,
            Constraint::spec_unpack(con).2 as int,
        )
    } else {
        let fc = crate::formats::format_class_spec(class.format)->Some_0;
        crate::formats::packed_end(
            fc,
            extent->Image_0 as int,
            extent->Image_1 as int,
            Constraint::spec_unpack(con).0 as int,
            Constraint::spec_unpack(con).1 as int,
            Constraint::spec_unpack(con).2 as int,
            fc.plane_count as int,
        )
    }
}

/// The modifier packing produces: a buffer has none, an image is linear.
pub open spec fn spec_packed_modifier(class: Class) -> u64 {
    if class.spec_is_buffer() {
        crate::formats::DRM_FORMAT_MOD_INVALID
    } else {
        crate::formats::DRM_FORMAT_MOD_LINEAR
    }
}

/// The plane count packing produces: a buffer has none, an image has its format's.
pub open spec fn spec_packed_plane_count(class: Class) -> int {
    if class.spec_is_buffer() {
        0
    } else {
        crate::formats::format_class_spec(class.format)->Some_0.plane_count as int
    }
}

/// Whether a layout is the packed layout of a buffer of the given size: the size rounded
/// up to the size alignment, and nothing else.
pub open spec fn is_packed_buffer_layout(l: Layout, size: int, za: int) -> bool {
    &&& l.wf()
    &&& l.size == crate::utils::spec_align_up(size, za)
    &&& l.modifier.0 == crate::formats::DRM_FORMAT_MOD_INVALID
    &&& l.plane_count == 0
    &&& forall|i: int| 0 <= i < 4 ==> #[trigger] l.offsets@[i] == 0
    &&& forall|i: int| 0 <= i < 4 ==> #[trigger] l.strides@[i] == 0
}

impl Layout {
    /// Packs the layout of a BO of a class: a buffer is its size rounded up to the size
    /// alignment; an image must support the linear modifier and packs plane by plane.
    pub fn packed(class: &Class, extent: Extent, con: Option<Constraint>) -> (r: Result<
        Layout,
        Error,
    >)
        requires
            class.wf(),
            class.max_extent.same_kind(extent),
            con matches Some(c) ==> c.wf(),
        ensures
            spec_packed_result(*class, extent, con, r),
    {
        if class.is_buffer() {
            let alignments = Constraint::unpack(con);
            let size_align = alignments.2;
            match crate::utils::checked_align_up(extent.size(), size_align) {
                Some(size) => Ok(Layout::new().size(size)),
                None => Err(Error::IntegerConversion),
            }
        } else {
            if !class.has_linear() {
                return Err(Error::User);
            }
            crate::formats::packed_layout(class.format, extent.width(), extent.height(), con)
        }
    }

    /// Whether the layout satisfies a constraint: every plane offset and stride is
    /// aligned, and, taking the planes in ascending offset order, every plane has at
    /// least the size alignment's worth of room before the next plane or the total size.
    ///
    /// An alignment of one is not checked.
    pub open spec fn spec_fit(&self, con: Option<Constraint>) -> bool {
        match con {
            None => true,
            Some(c) => {
                let n = self.plane_count as int;
                let sorted = self.offsets@.subrange(0, n).sort_by(u64_leq());
                &&& (c.offset_align > 1 ==> forall|i: int|
                    0 <= i < n ==> #[trigger] self.offsets@[i] % c.offset_align == 0)
                &&& (c.stride_align > 1 ==> forall|i: int|
                    0 <= i < n ==> #[trigger] self.strides@[i] % c.stride_align == 0)
                &&& (c.size_align > 1 ==> forall|i: int|
                    0 <= i < n ==> spec_effective_extent(sorted, self.size as int, i)
                        >= c.size_align)
            },
        }
    }

    /// Whether the layout satisfies a constraint.
    #[verifier::loop_isolation(false)]
    pub fn fit(&self, con: Option<Constraint>) -> (r: bool)
        requires
            self.wf(),
            self.plane_count <= 4,
            con matches Some(c) ==> c.wf(),
        ensures
            r == self.spec_fit(con),
    {
        let c = match &con {
            None => { return true },
            Some(c) => c,
        };
        let n = self.plane_count as usize;

        if c.offset_align > 1 {
            let mut i: usize = 0;
            while i < n
                invariant
                    i <= n,
                    forall|j: int| 0 <= j < i ==> #[trigger] self.offsets@[j] % c.offset_align == 0,
                decreases n - i,
            {
                if self.offsets[i] % c.offset_align != 0 {
                    return false;
                }
                i = i + 1;
            }
        }

        if c.stride_align > 1 {
            let mut i: usize = 0;
            while i < n
                invariant
                    i <= n,
                    forall|j: int| 0 <= j < i ==> #[trigger] self.strides@[j] % c.stride_align == 0,
                decreases n - i,
            {
                if self.strides[i] % c.stride_align != 0 {
                    return false;
                }
                i = i + 1;
            }
        }

        if c.size_align > 1 {
            let sorted = sort_sizes(&self.offsets, n);
            let ghost sorted_spec = self.offsets@.subrange(0, n as int).sort_by(u64_leq());
            proof {
                broadcast use vstd::seq_lib::group_to_multiset_ensures;

                assert(total_ordering(u64_leq()));
                self.offsets@.subrange(0, n as int).lemma_sort_by_ensures(u64_leq());
                assert(sorted@.to_multiset() =~= self.offsets@.subrange(
                    0,
                    n as int,
                ).to_multiset());
                assert(sorted@.len() == sorted@.to_multiset().len());
                assert(sorted@.len() == n);
            }
            let mut i: usize = 0;
            while i < n
                invariant
                    i <= n,
                    forall|j: int|
                        0 <= j < i ==> spec_effective_extent(sorted_spec, self.size as int, j)
                            >= c.size_align,
                decreases n - i,
            {
                let next = if i + 1 < n {
                    sorted[i + 1]
                } else {
                    self.size
                };
                if next < sorted[i] {
                    proof {
                        assert(spec_effective_extent(sorted_spec, self.size as int, i as int)
                            < c.size_align);
                    }
                    return false;
                }
                if next - sorted[i] < c.size_align {
                    proof {
                        assert(spec_effective_extent(sorted_spec, self.size as int, i as int)
                            < c.size_align);
                    }
                    return false;
                }
                i = i + 1;
            }
        }

        true
    }
}

/// A backend-native object, as an opaque token the backend interprets, together with
/// the layout the backend reported when it created the object.
#[derive(Clone, Debug)]
pub struct NativeRes {
    /// The backend's token for the object.
    pub token: u64,
    /// The layout the backend reported.
    pub layout: Layout,
}

/// The backend-specific payload of a handle.
#[derive(Debug)]
pub enum HandlePayload {
    /// A generic dma-buf resource.
    DmaBuf(crate::dma_buf::Resource),
    /// A backend-native buffer object.
    Buffer(NativeRes),
    /// A backend-native image object.
    Image(NativeRes),
}

/// A BO handle: the backend-opaque payload of the backend that created it.
#[derive(Debug)]
pub struct Handle {
    /// The backend-specific payload.
    pub payload: HandlePayload,
}

impl Handle {
    /// Creates a handle from a payload.
    pub fn new(payload: HandlePayload) -> (r: Self)
        ensures
            r.payload == payload,
    {
        Handle { payload }
    }

    /// The layout of the object the handle refers to.
    pub open spec fn layout_spec(&self) -> Layout {
        match self.payload {
            HandlePayload::DmaBuf(res) => res.layout,
            HandlePayload::Buffer(n) => n.layout,
            HandlePayload::Image(n) => n.layout,
        }
    }

    /// The layout the handle carries is well-formed.
    pub open spec fn wf(&self) -> bool {
        self.layout_spec().wf()
    }
}

/// Chained adjacent bounds: in a sequence whose adjacent elements ascend, any earlier
/// element is at most any later one.
proof fn lemma_le_chain(s: Seq<u64>, i: int, j: int)
    requires
        forall|k: int| 0 <= k < s.len() - 1 ==> #[trigger] s[k] <= s[k + 1],
        0 <= i <= j < s.len(),
    ensures
        s[i] <= s[j],
    decreases j - i,
{
    if i < j {
        lemma_le_chain(s, i, j - 1);
        assert(s[j - 1] <= s[j]);
    }
}

/// A sequence whose adjacent elements ascend is sorted.
proof fn lemma_adjacent_sorted(s: Seq<u64>)
    requires
        forall|k: int| 0 <= k < s.len() - 1 ==> #[trigger] s[k] <= s[k + 1],
    ensures
        sorted_by(s, u64_leq()),
{
    assert forall|i: int, j: int| 0 <= i < j < s.len() implies u64_leq()(s[i], s[j]) by {
        lemma_le_chain(s, i, j);
    }
}

/// A layout that packing produced satisfies the constraint it was packed with: every
/// offset and stride is aligned, and, the planes being laid out in ascending order,
/// every effective extent is at least one size alignment.
#[verifier::rlimit(40)]
pub proof fn lemma_packed_fits(l: Layout, class: Class, extent: Extent, con: Option<Constraint>)
    requires
        class.wf(),
        class.max_extent.same_kind(extent),
        class.spec_validate(extent),
        con matches Some(c) ==> c.wf(),
        spec_packed_result(class, extent, con, Ok::<Layout, Error>(l)),
    ensures
        l.spec_fit(con),
{
    match con {
        None => {},
        Some(c) => {
            if class.spec_is_buffer() {
                assert(l.plane_count == 0);
                assert(l.spec_fit(con));
            } else {
                let fc = crate::formats::format_class_spec(class.format)->Some_0;
                let oa = c.offset_align as int;
                let sa = c.stride_align as int;
                let za = c.size_align as int;
                let w = extent->Image_0 as int;
                let h = extent->Image_1 as int;
                crate::formats::lemma_format_class_wf(class.format);
                let n = l.plane_count as int;
                assert(n == fc.plane_count);
                assert(1 <= w && 1 <= h);

                assert forall|i: int| 0 <= i < n implies #[trigger] l.offsets@[i]
                    % c.offset_align == 0 by {
                    crate::formats::lemma_packed_end_nonneg(fc, w, h, oa, sa, za, i);
                    crate::utils::lemma_align_up(
                        crate::formats::packed_end(fc, w, h, oa, sa, za, i),
                        oa,
                    );
                }
                assert forall|i: int| 0 <= i < n implies #[trigger] l.strides@[i]
                    % c.stride_align == 0 by {
                    crate::formats::lemma_plane_quantities(fc, w, h, sa, za, i);
                }

                let prefix = l.offsets@.subrange(0, n);
                assert forall|k: int| 0 <= k < prefix.len() - 1 implies #[trigger] prefix[k]
                    <= prefix[k + 1] by {
                    crate::formats::lemma_packed_end_nonneg(fc, w, h, oa, sa, za, k + 1);
                    crate::utils::lemma_align_up(
                        crate::formats::packed_end(fc, w, h, oa, sa, za, k + 1),
                        oa,
                    );
                    crate::formats::lemma_plane_quantities(fc, w, h, sa, za, k);
                    assert(l.offsets@[k + 1] >= crate::formats::packed_end(
                        fc,
                        w,
                        h,
                        oa,
                        sa,
                        za,
                        k + 1,
                    ));
                }
                lemma_adjacent_sorted(prefix);
                prefix.lemma_sort_by_ensures(u64_leq());
                vstd::seq_lib::lemma_sorted_unique(
                    prefix,
                    prefix.sort_by(u64_leq()),
                    u64_leq(),
                );
                let sorted = prefix.sort_by(u64_leq());
                assert(sorted =~= prefix);

                assert forall|i: int| 0 <= i < n implies spec_effective_extent(
                    sorted,
                    l.size as int,
                    i,
                ) >= c.size_align by {
                    crate::formats::lemma_plane_quantities(fc, w, h, sa, za, i);
                    if i < n - 1 {
                        crate::formats::lemma_packed_end_nonneg(fc, w, h, oa, sa, za, i + 1);
                        crate::utils::lemma_align_up(
                            crate::formats::packed_end(fc, w, h, oa, sa, za, i + 1),
                            oa,
                        );
                        assert(l.offsets@[i + 1] >= crate::formats::packed_end(
                            fc,
                            w,
                            h,
                            oa,
                            sa,
                            za,
                            i + 1,
                        ));
                    } else {
                        assert(l.size == crate::formats::packed_end(fc, w, h, oa, sa, za, n));
                    }
                }

                assert(c.offset_align > 1 ==> forall|i: int|
                    0 <= i < n ==> #[trigger] l.offsets@[i] % c.offset_align == 0);
                assert(c.stride_align > 1 ==> forall|i: int|
                    0 <= i < n ==> #[trigger] l.strides@[i] % c.stride_align == 0);
                assert(c.size_align > 1 ==> forall|i: int|
                    0 <= i < n ==> spec_effective_extent(sorted, l.size as int, i)
                        >= c.size_align);
                assert(l.spec_fit(con));
            }
        },
    }
}

/// Whether a modifier list contains a modifier.
pub(crate) fn contains_modifier(v: &Vec<Modifier>, m: Modifier) -> (r: bool)
    ensures
        r == v@.contains(m),
{
    let mut i: usize = 0;
    while i < v.len()
        invariant
            i <= v@.len(),
            forall|j: int| 0 <= j < i ==> v@[j] != m,
        decreases v@.len() - i,
    {
        if v[i].0 == m.0 {
            return true;
        }
        i = i + 1;
    }
    false
}

/// The modifiers present in both lists, in the first list's order, one occurrence
/// each.
pub(crate) fn intersect_modifiers(a: &Vec<Modifier>, b: &Vec<Modifier>) -> (r: Vec<Modifier>)
    ensures
        forall|m: Modifier| #[trigger] r@.contains(m) <==> a@.contains(m) && b@.contains(m),
        r@.no_duplicates(),
{
    let mut r: Vec<Modifier> = Vec::new();
    let mut i: usize = 0;
    while i < a.len()
        invariant
            i <= a@.len(),
            forall|m: Modifier| #[trigger]
                r@.contains(m) <==> a@.subrange(0, i as int).contains(m) && b@.contains(m),
            r@.no_duplicates(),
        decreases a@.len() - i,
    {
        let ghost prev = r@;
        let ghost prefix = a@.subrange(0, i as int);
        let has = contains_modifier(b, a[i]) && !contains_modifier(&r, a[i]);
        if has {
            r.push(a[i]);
        }
        i = i + 1;
        proof {
            let next = a@.subrange(0, i as int);
            assert(next =~= prefix.push(a@[i - 1]));
            assert forall|m: Modifier| #[trigger] r@.contains(m) implies next.contains(m)
                && b@.contains(m) by {
                if prev.contains(m) {
                    assert(prefix.contains(m));
                    let j = choose|j: int| 0 <= j < prefix.len() && prefix[j] == m;
                    assert(next[j] == m);
                } else {
                    assert(has && m == a@[i - 1]);
                    assert(next[i - 1] == m);
                }
            }
            assert forall|m: Modifier| next.contains(m) && b@.contains(m) implies #[trigger] r@
                .contains(m) by {
                let j = choose|j: int| 0 <= j < next.len() && next[j] == m;
                if j < i - 1 {
                    assert(prefix[j] == m);
                    assert(prev.contains(m));
                    let k = choose|k: int| 0 <= k < prev.len() && prev[k] == m;
                    assert(r@[k] == m);
                } else {
                    assert(m == a@[i - 1]);
                    if !prev.contains(m) {
                        assert(has);
                        assert(r@.last() == m);
                    } else {
                        let k = choose|k: int| 0 <= k < prev.len() && prev[k] == m;
                        assert(r@[k] == m);
                    }
                }
            }
            if has {
                assert forall|p: int, q: int| 0 <= p < q < r@.len() implies r@[p] != r@[q] by {
                    if q == r@.len() - 1 {
                        assert(prev.contains(r@[p]));
                    }
                }
            }
        }
    }
    proof {
        assert(a@.subrange(0, a@.len() as int) =~= a@);
    }
    r
}

/// The modifiers of a list, one occurrence each, in first-occurrence order.
pub(crate) fn dedup_modifiers(a: &Vec<Modifier>) -> (r: Vec<Modifier>)
    ensures
        forall|m: Modifier| #[trigger] r@.contains(m) <==> a@.contains(m),
        r@.no_duplicates(),
{
    let mut r: Vec<Modifier> = Vec::new();
    let mut i: usize = 0;
    while i < a.len()
        invariant
            i <= a@.len(),
            forall|m: Modifier| #[trigger] r@.contains(m) <==> a@.subrange(0, i as int).contains(m),
            r@.no_duplicates(),
        decreases a@.len() - i,
    {
        let ghost prev = r@;
        let ghost prefix = a@.subrange(0, i as int);
        let fresh = !contains_modifier(&r, a[i]);
        if fresh {
            r.push(a[i]);
        }
        i = i + 1;
        proof {
            let next = a@.subrange(0, i as int);
            assert(next =~= prefix.push(a@[i - 1]));
            assert forall|m: Modifier| #[trigger] r@.contains(m) implies next.contains(m) by {
                if prev.contains(m) {
                    assert(prefix.contains(m));
                    let j = choose|j: int| 0 <= j < prefix.len() && prefix[j] == m;
                    assert(next[j] == m);
                } else {
                    assert(m == a@[i - 1]);
                    assert(next[i - 1] == m);
                }
            }
            assert forall|m: Modifier| next.contains(m) implies #[trigger] r@.contains(m) by {
                let j = choose|j: int| 0 <= j < next.len() && next[j] == m;
                if j < i - 1 {
                    assert(prefix[j] == m);
                    assert(prev.contains(m));
                    let k = choose|k: int| 0 <= k < prev.len() && prev[k] == m;
                    assert(r@[k] == m);
                } else {
                    assert(m == a@[i - 1]);
                    if !prev.contains(m) {
                        assert(fresh);
                        assert(r@.last() == m);
                    } else {
                        let k = choose|k: int| 0 <= k < prev.len() && prev[k] == m;
                        assert(r@[k] == m);
                    }
                }
            }
            if fresh {
                assert forall|p: int, q: int| 0 <= p < q < r@.len() implies r@[p] != r@[q] by {
                    if q == r@.len() - 1 {
                        assert(prev.contains(r@[p]));
                    }
                }
            }
        }
    }
    proof {
        assert(a@.subrange(0, a@.len() as int) =~= a@);
    }
    r
}

/// A layout that satisfies a constraint also satisfies any constraint whose alignments
/// divide that constraint's.
pub proof fn lemma_fit_weaken(l: Layout, c1: Constraint, c2: Constraint)
    requires
        c1.wf(),
        c2.wf(),
        c2.offset_align % c1.offset_align == 0,
        c2.stride_align % c1.stride_align == 0,
        c2.size_align % c1.size_align == 0,
        l.spec_fit(Some(c2)),
    ensures
        l.spec_fit(Some(c1)),
{
    let n = l.plane_count as int;
    if c1.offset_align > 1 {
        crate::utils::lemma_positive_multiple(c2.offset_align as int, c1.offset_align as int);
        assert forall|i: int| 0 <= i < n implies #[trigger] l.offsets@[i] % c1.offset_align
            == 0 by {
            crate::utils::lemma_multiple_transitive(
                l.offsets@[i] as int,
                c2.offset_align as int,
                c1.offset_align as int,
            );
        }
    }
    if c1.stride_align > 1 {
        crate::utils::lemma_positive_multiple(c2.stride_align as int, c1.stride_align as int);
        assert forall|i: int| 0 <= i < n implies #[trigger] l.strides@[i] % c1.stride_align
            == 0 by {
            crate::utils::lemma_multiple_transitive(
                l.strides@[i] as int,
                c2.stride_align as int,
                c1.stride_align as int,
            );
        }
    }
    if c1.size_align > 1 {
        crate::utils::lemma_positive_multiple(c2.size_align as int, c1.size_align as int);
    }
}

/// Packing is deterministic: two layouts packed for the same class, extent and
/// constraint are the same layout.
pub proof fn lemma_packed_deterministic(
    class: Class,
    extent: Extent,
    con: Option<Constraint>,
    l1: Layout,
    l2: Layout,
)
    requires
        spec_packed_result(class, extent, con, Ok::<Layout, Error>(l1)),
        spec_packed_result(class, extent, con, Ok::<Layout, Error>(l2)),
    ensures
        layout_eq(l1, l2),
{
    assert(l1.offsets@ =~= l2.offsets@);
    assert(l1.strides@ =~= l2.strides@);
}

/// Raising the alignments of a constraint never shrinks the packed size, as long as
/// each raised alignment is an exact multiple of the one it replaces.
pub proof fn lemma_packed_size_monotone(
    class: Class,
    extent: Extent,
    c1: Constraint,
    c2: Constraint,
)
    requires
        class.wf(),
        class.max_extent.same_kind(extent),
        class.spec_validate(extent),
        !class.spec_is_buffer() ==> crate::formats::is_known_format(class.format),
        c1.wf(),
        c2.wf(),
        c2.offset_align % c1.offset_align == 0,
        c2.stride_align % c1.stride_align == 0,
        c2.size_align % c1.size_align == 0,
    ensures
        spec_packed_size(class, extent, Some(c1)) <= spec_packed_size(class, extent, Some(c2)),
{
    if class.spec_is_buffer() {
        crate::utils::lemma_align_up_mono(
            extent->Buffer_0 as int,
            extent->Buffer_0 as int,
            c1.size_align as int,
            c2.size_align as int,
        );
    } else {
        let fc = crate::formats::format_class_spec(class.format)->Some_0;
        crate::formats::lemma_format_class_wf(class.format);
        crate::formats::lemma_packed_end_monotone(
            fc,
            extent->Image_0 as int,
            extent->Image_1 as int,
            c1.offset_align as int,
            c1.stride_align as int,
            c1.size_align as int,
            c2.offset_align as int,
            c2.stride_align as int,
            c2.size_align as int,
            fc.plane_count as int,
        );
    }
}

/// Describes a buffer-buffer copy.
#[derive(Clone, Copy, Debug, Eq, PartialEq, Structural)]
pub struct CopyBuffer {
    /// Starting offset of the source buffer in bytes.
    pub src_offset: Size,
    /// Starting offset of the destination buffer in bytes.
    pub dst_offset: Size,
    /// Number of bytes to copy.
    pub size: Size,
}

/// Describes a buffer-image copy.
#[derive(Clone, Copy, Debug, Eq, PartialEq, Structural)]
pub struct CopyBufferImage {
    /// Starting offset of the buffer in bytes.
    pub offset: Size,
    /// Row stride of the buffer in bytes.
    pub stride: Size,
    /// Plane of the image to copy.
    pub plane: u32,
    /// Starting X coordinate of the image in texels.
    pub x: u32,
    /// Starting Y coordinate of the image in texels.
    pub y: u32,
    /// Number of texels in X coordinate to copy.
    pub width: u32,
    /// Number of texels in Y coordinate to copy.
    pub height: u32,
}

/// The backend capability interface: the contract every allocation source satisfies.
///
/// The generic dma-buf backend provides the default behavior for classification,
/// creation, layout and memory-type queries; the operations that must reach a device —
/// binding, exporting, mapping, cache maintenance, copies and sync-file waits — are the
/// implementer's own.
pub trait Backend: Sized {
    /// Returns the number of memory planes of a format and modifier pair, which is
    /// never below the format's logical plane count.
    fn memory_plane_count(&self, fmt: Format, modifier: Modifier) -> (r: Result<u32, Error>)
        ensures
            r matches Ok(n) ==> (crate::formats::format_class_spec(fmt) matches Some(fc) ==> n
                >= fc.plane_count),
        default_ensures
            r matches Err(e) && e is Unsupported,
    {
        let _ = fmt;
        let _ = modifier;
        Err(Error::Unsupported)
    }

    /// Validates and resolves a description against this backend, returning a class
    /// fragment: the largest extent, the supported modifiers and the constraint.
    ///
    /// Any class returned is well-formed and carries the description's flags and format.
    fn classify(&self, desc: Description, usage: Usage) -> (r: Result<Class, Error>)
        ensures
            r matches Ok(c) ==> c.wf() && c.flags == desc.flags && c.format == desc.format
                && c.backend_index == 0,
        default_ensures
            r is Ok <==> crate::dma_buf::spec_classify_ok(desc),
    {
        crate::dma_buf::classify(desc, usage)
    }

    /// Allocates, returning a handle whose layout satisfies the constraint passed in.
    fn with_constraint(&self, class: &Class, extent: Extent, con: Option<Constraint>) -> (r:
        Result<Handle, Error>)
        requires
            class.wf(),
            class.max_extent.same_kind(extent),
            class.spec_validate(extent),
            con matches Some(c) ==> c.wf(),
        ensures
            r matches Ok(h) ==> {
                &&& h.wf()
                &&& h.layout_spec().spec_fit(con)
                &&& (!class.spec_is_buffer() ==> crate::formats::is_known_format(class.format))
            },
    {
        let r = crate::dma_buf::with_constraint(class, extent, con);
        proof {
            if r is Ok {
                lemma_packed_fits(r->Ok_0.layout_spec(), *class, extent, con);
            }
        }
        r
    }

    /// Validates an externally-supplied layout — at least as large as the packed
    /// reference layout, with the same modifier and plane count — and returns a handle
    /// that carries it.
    fn with_layout(&self, class: &Class, extent: Extent, layout: Layout, dmabuf: Option<Fd>) -> (r:
        Result<Handle, Error>)
        requires
            class.wf(),
            class.max_extent.same_kind(extent),
            class.spec_validate(extent),
            layout.wf(),
        ensures
            r matches Ok(h) ==> {
                &&& h.wf()
                &&& layout_eq(h.layout_spec(), layout)
                &&& (!class.spec_is_buffer() ==> crate::formats::is_known_format(class.format))
            },
    {
        crate::dma_buf::with_layout(class, extent, layout, dmabuf)
    }

    /// Releases backend-side bookkeeping for a handle.
    fn free(&self, handle: &Handle) {
        let _ = handle;
    }

    /// Returns the physical layout of a handle this backend created.
    fn layout(&self, handle: &Handle) -> (r: Layout)
        requires
            handle.wf(),
        ensures
            layout_eq(r, handle.layout_spec()),
    {
        match &handle.payload {
            HandlePayload::DmaBuf(res) => clone_layout(&res.layout),
            HandlePayload::Buffer(n) => clone_layout(&n.layout),
            HandlePayload::Image(n) => clone_layout(&n.layout),
        }
    }

    /// Returns the memory types a handle supports.
    fn memory_types(&self, handle: &Handle) -> (r: Vec<MemoryType>)
        default_ensures
            r@.len() == 1 && r@[0].bits == MEMORY_MAPPABLE,
    {
        crate::dma_buf::memory_types(handle)
    }

    /// Allocates or imports the backing memory and attaches it to the handle; the
    /// layout of the handle does not change.
    fn bind_memory(&self, handle: &mut Handle, mt: MemoryType, dmabuf: Option<Fd>) -> (r: Result<
        (),
        Error,
    >)
        requires
            old(handle).wf(),
        ensures
            final(handle).wf(),
            layout_eq(final(handle).layout_spec(), old(handle).layout_spec()),
        default_ensures
            r matches Err(e) && e is Unsupported,
    {
        let _ = mt;
        let _ = dmabuf;
        Err(Error::Unsupported)
    }

    /// Exports a bound handle as a dma-buf, optionally naming the underlying object.
    fn export_dma_buf(&self, handle: &Handle, name: Option<&str>) -> Result<Fd, Error>;

    /// Maps a bound handle for CPU access.
    fn map(&self, handle: &Handle) -> Result<Mapping, Error>;

    /// Unmaps a mapping this backend returned.
    fn unmap(&self, handle: &Handle, mapping: Mapping);

    /// Makes CPU writes through a mapping visible to the device.
    fn flush(&self, handle: &Handle);

    /// Makes device writes visible through a mapping.
    fn invalidate(&self, handle: &Handle);

    /// Copies between two buffers, after waiting for an optional sync file; may return
    /// a sync file for the copy.
    fn copy_buffer(&self, dst: &Handle, src: &Handle, copy: CopyBuffer, sync_fd: Option<Fd>) -> (r:
        Result<Option<Fd>, Error>)
        default_ensures
            r matches Err(e) && e is Unsupported,
    {
        let _ = dst;
        let _ = src;
        let _ = copy;
        let _ = sync_fd;
        Err(Error::Unsupported)
    }

    /// Copies between a buffer and an image, after waiting for an optional sync file;
    /// may return a sync file for the copy.
    fn copy_buffer_image(
        &self,
        dst: &Handle,
        src: &Handle,
        copy: CopyBufferImage,
        sync_fd: Option<Fd>,
    ) -> (r: Result<Option<Fd>, Error>)
        default_ensures
            r matches Err(e) && e is Unsupported,
    {
        let _ = dst;
        let _ = src;
        let _ = copy;
        let _ = sync_fd;
        Err(Error::Unsupported)
    }

    /// Blocks until a sync file signals.
    fn wait_sync(&self, sync_fd: Fd);
}

} // verus!
