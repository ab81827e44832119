//! Format tables.
//!
//! This module defines the DRM format and modifier constants the library knows, the
//! per-format block layout table, and the packing of linear image layouts.

use vstd::prelude::*;

use crate::backends::Constraint;
use crate::backends::Layout;
use crate::types::Error;
use crate::types::Format;
use crate::types::Modifier;
use crate::types::Size;
use crate::utils::checked_align_up;
use crate::utils::spec_align_up;

verus! {

// from drm_fourcc.h
pub const DRM_FORMAT_INVALID: u32 = 0;
pub const DRM_FORMAT_R8: u32 = 0x20203852;
pub const DRM_FORMAT_BGR565: u32 = 0x36314742;
pub const DRM_FORMAT_RGB565: u32 = 0x36314752;
pub const DRM_FORMAT_GR88: u32 = 0x38385247;
pub const DRM_FORMAT_R16: u32 = 0x20363152;
pub const DRM_FORMAT_BGR888: u32 = 0x34324742;
pub const DRM_FORMAT_RGB888: u32 = 0x34324752;
pub const DRM_FORMAT_ABGR8888: u32 = 0x34324241;
pub const DRM_FORMAT_XBGR8888: u32 = 0x34324258;
pub const DRM_FORMAT_ARGB8888: u32 = 0x34325241;
pub const DRM_FORMAT_XRGB8888: u32 = 0x34325258;
pub const DRM_FORMAT_ABGR2101010: u32 = 0x30334241;
pub const DRM_FORMAT_XBGR2101010: u32 = 0x30334258;
pub const DRM_FORMAT_ARGB2101010: u32 = 0x30335241;
pub const DRM_FORMAT_XRGB2101010: u32 = 0x30335258;
pub const DRM_FORMAT_ABGR16161616F: u32 = 0x48344241;
pub const DRM_FORMAT_YUYV: u32 = 0x56595559;
pub const DRM_FORMAT_UYVY: u32 = 0x59565955;
pub const DRM_FORMAT_NV12: u32 = 0x3231564e;
pub const DRM_FORMAT_NV21: u32 = 0x3132564e;
pub const DRM_FORMAT_P010: u32 = 0x30313050;
pub const DRM_FORMAT_P016: u32 = 0x36313050;
pub const DRM_FORMAT_YUV420: u32 = 0x32315559;
pub const DRM_FORMAT_YVU420: u32 = 0x32315659;

pub const DRM_FORMAT_MOD_INVALID: u64 = 0xffffffffffffff;
pub const DRM_FORMAT_MOD_LINEAR: u64 = 0;

/// The invalid format, which denotes a buffer rather than an image.
pub fn invalid() -> (r: Format)
    ensures
        r.0 == DRM_FORMAT_INVALID,
{
    Format(DRM_FORMAT_INVALID)
}

/// The single-plane 8-bit red format.
pub fn r8() -> (r: Format)
    ensures
        r.0 == DRM_FORMAT_R8,
{
    Format(DRM_FORMAT_R8)
}

/// The invalid modifier, which denotes an implicit layout.
pub fn mod_invalid() -> (r: Modifier)
    ensures
        r.0 == DRM_FORMAT_MOD_INVALID,
{
    Modifier(DRM_FORMAT_MOD_INVALID)
}

/// The linear modifier.
pub fn mod_linear() -> (r: Modifier)
    ensures
        r.0 == DRM_FORMAT_MOD_LINEAR,
{
    Modifier(DRM_FORMAT_MOD_LINEAR)
}

/// Whether a format is one of the formats the library knows.
pub open spec fn is_known_format(fmt: Format) -> bool {
    ||| fmt.0 == DRM_FORMAT_R8
    ||| fmt.0 == DRM_FORMAT_BGR565
    ||| fmt.0 == DRM_FORMAT_RGB565
    ||| fmt.0 == DRM_FORMAT_GR88
    ||| fmt.0 == DRM_FORMAT_R16
    ||| fmt.0 == DRM_FORMAT_BGR888
    ||| fmt.0 == DRM_FORMAT_RGB888
    ||| fmt.0 == DRM_FORMAT_ABGR8888
    ||| fmt.0 == DRM_FORMAT_XBGR8888
    ||| fmt.0 == DRM_FORMAT_ARGB8888
    ||| fmt.0 == DRM_FORMAT_XRGB8888
    ||| fmt.0 == DRM_FORMAT_ABGR2101010
    ||| fmt.0 == DRM_FORMAT_XBGR2101010
    ||| fmt.0 == DRM_FORMAT_ARGB2101010
    ||| fmt.0 == DRM_FORMAT_XRGB2101010
    ||| fmt.0 == DRM_FORMAT_ABGR16161616F
    ||| fmt.0 == DRM_FORMAT_YUYV
    ||| fmt.0 == DRM_FORMAT_UYVY
    ||| fmt.0 == DRM_FORMAT_NV12
    ||| fmt.0 == DRM_FORMAT_NV21
    ||| fmt.0 == DRM_FORMAT_P010
    ||| fmt.0 == DRM_FORMAT_P016
    ||| fmt.0 == DRM_FORMAT_YUV420
    ||| fmt.0 == DRM_FORMAT_YVU420
}

/// All the formats the library knows, one entry each.
pub fn known_formats() -> (r: Vec<Format>)
    ensures
        r@.len() == 24,
        forall|i: int| 0 <= i < r@.len() ==> is_known_format(#[trigger] r@[i]),
        r@[0].0 == DRM_FORMAT_R8,
        r@[1].0 == DRM_FORMAT_BGR565,
        r@[2].0 == DRM_FORMAT_RGB565,
        r@[3].0 == DRM_FORMAT_GR88,
        r@[4].0 == DRM_FORMAT_R16,
        r@[5].0 == DRM_FORMAT_BGR888,
        r@[6].0 == DRM_FORMAT_RGB888,
        r@[7].0 == DRM_FORMAT_ABGR8888,
        r@[8].0 == DRM_FORMAT_XBGR8888,
        r@[9].0 == DRM_FORMAT_ARGB8888,
        r@[10].0 == DRM_FORMAT_XRGB8888,
        r@[11].0 == DRM_FORMAT_ABGR2101010,
        r@[12].0 == DRM_FORMAT_XBGR2101010,
        r@[13].0 == DRM_FORMAT_ARGB2101010,
        r@[14].0 == DRM_FORMAT_XRGB2101010,
        r@[15].0 == DRM_FORMAT_ABGR16161616F,
        r@[16].0 == DRM_FORMAT_YUYV,
        r@[17].0 == DRM_FORMAT_UYVY,
        r@[18].0 == DRM_FORMAT_NV12,
        r@[19].0 == DRM_FORMAT_NV21,
        r@[20].0 == DRM_FORMAT_P010,
        r@[21].0 == DRM_FORMAT_P016,
        r@[22].0 == DRM_FORMAT_YUV420,
        r@[23].0 == DRM_FORMAT_YVU420,
{
    let mut v: Vec<Format> = Vec::new();
    v.push(Format(DRM_FORMAT_R8));
    v.push(Format(DRM_FORMAT_BGR565));
    v.push(Format(DRM_FORMAT_RGB565));
    v.push(Format(DRM_FORMAT_GR88));
    v.push(Format(DRM_FORMAT_R16));
    v.push(Format(DRM_FORMAT_BGR888));
    v.push(Format(DRM_FORMAT_RGB888));
    v.push(Format(DRM_FORMAT_ABGR8888));
    v.push(Format(DRM_FORMAT_XBGR8888));
    v.push(Format(DRM_FORMAT_ARGB8888));
    v.push(Format(DRM_FORMAT_XRGB8888));
    v.push(Format(DRM_FORMAT_ABGR2101010));
    v.push(Format(DRM_FORMAT_XBGR2101010));
    v.push(Format(DRM_FORMAT_ARGB2101010));
    v.push(Format(DRM_FORMAT_XRGB2101010));
    v.push(Format(DRM_FORMAT_ABGR16161616F));
    v.push(Format(DRM_FORMAT_YUYV));
    v.push(Format(DRM_FORMAT_UYVY));
    v.push(Format(DRM_FORMAT_NV12));
    v.push(Format(DRM_FORMAT_NV21));
    v.push(Format(DRM_FORMAT_P010));
    v.push(Format(DRM_FORMAT_P016));
    v.push(Format(DRM_FORMAT_YUV420));
    v.push(Format(DRM_FORMAT_YVU420));
    v
}

/// The four bytes of a fourcc code, least significant first.
pub open spec fn fourcc_bytes(v: u32) -> Seq<u8> {
    seq![
        (v & 0xff) as u8,
        ((v >> 8u32) & 0xff) as u8,
        ((v >> 16u32) & 0xff) as u8,
        ((v >> 24u32) & 0xff) as u8,
    ]
}

/// Whether every byte of a fourcc code is ASCII.
pub open spec fn fourcc_is_ascii(v: u32) -> bool {
    forall|i: int| 0 <= i < 4 ==> fourcc_bytes(v)[i] < 0x80
}

/// The lowercase hexadecimal digit for a value below sixteen, as an ASCII byte.
pub open spec fn hex_digit_byte(n: int) -> u8 {
    if n < 10 {
        (0x30 + n) as u8
    } else {
        (0x61 + n - 10) as u8
    }
}

/// The lowercase hexadecimal digits of a value, most significant first, without
/// leading zeros, as ASCII bytes.
pub open spec fn hex_bytes(v: int) -> Seq<u8>
    decreases v,
{
    if v < 16 {
        seq![hex_digit_byte(v)]
    } else {
        hex_bytes(v / 16) + seq![hex_digit_byte(v % 16)]
    }
}

/// The text of a fourcc code, as ASCII bytes: the four bytes quoted when they all are
/// ASCII, else the hexadecimal value.
pub open spec fn fourcc_text(v: u32) -> Seq<u8> {
    if fourcc_is_ascii(v) {
        seq![0x27u8] + fourcc_bytes(v) + seq![0x27u8]
    } else {
        seq![0x30u8, 0x78u8] + hex_bytes(v as int)
    }
}

/// Relies on String::from_utf8: a vector of ASCII bytes converts to the string with
/// one character per byte, each with the byte's code.
#[verifier::external_body]
fn string_from_ascii(bytes: Vec<u8>) -> (r: String)
    requires
        forall|i: int| 0 <= i < bytes@.len() ==> bytes@[i] < 0x80,
    ensures
        r@.len() == bytes@.len(),
        forall|i: int| 0 <= i < bytes@.len() ==> r@[i] as u32 == bytes@[i] as u32,
{
    String::from_utf8(bytes).unwrap()
}

/// Pushes the lowercase hexadecimal digit of a value below sixteen.
fn push_hex_digit(n: u32, out: &mut Vec<u8>)
    requires
        n < 16,
    ensures
        final(out)@ == old(out)@ + seq![hex_digit_byte(n as int)],
{
    if n < 10 {
        out.push(0x30 + n as u8);
    } else {
        out.push(0x61 + (n - 10) as u8);
    }
}

/// Pushes the lowercase hexadecimal digits of a value, without leading zeros.
fn push_hex(v: u32, out: &mut Vec<u8>)
    ensures
        final(out)@ == old(out)@ + hex_bytes(v as int),
    decreases v,
{
    if v < 16 {
        push_hex_digit(v, out);
    } else {
        push_hex(v / 16, out);
        push_hex_digit(v % 16, out);
        proof {
            assert(out@ =~= old(out)@ + hex_bytes(v as int));
        }
    }
}

/// Formats a fourcc code as text: the four bytes quoted when they all are ASCII, else
/// the hexadecimal value.
pub fn fourcc(fmt: Format) -> (r: String)
    ensures
        r@.len() == fourcc_text(fmt.0).len(),
        forall|i: int| 0 <= i < r@.len() ==> r@[i] as u32 == fourcc_text(fmt.0)[i] as u32,
{
    let v = fmt.0;
    let b0 = (v & 0xff) as u8;
    let b1 = ((v >> 8u32) & 0xff) as u8;
    let b2 = ((v >> 16u32) & 0xff) as u8;
    let b3 = ((v >> 24u32) & 0xff) as u8;
    proof {
        assert(fourcc_bytes(v)[0] == b0);
        assert(fourcc_bytes(v)[1] == b1);
        assert(fourcc_bytes(v)[2] == b2);
        assert(fourcc_bytes(v)[3] == b3);
    }
    let mut bytes: Vec<u8> = Vec::new();
    if b0 < 0x80 && b1 < 0x80 && b2 < 0x80 && b3 < 0x80 {
        bytes.push(0x27);
        bytes.push(b0);
        bytes.push(b1);
        bytes.push(b2);
        bytes.push(b3);
        bytes.push(0x27);
        proof {
            assert(fourcc_is_ascii(v));
            assert(bytes@ =~= fourcc_text(v));
        }
        string_from_ascii(bytes)
    } else {
        bytes.push(0x30);
        bytes.push(0x78);
        push_hex(v, &mut bytes);
        proof {
            assert(!fourcc_is_ascii(v));
            assert(bytes@ =~= fourcc_text(v));
            lemma_hex_bytes_ascii(v as int);
        }
        string_from_ascii(bytes)
    }
}

/// Every hexadecimal digit byte is ASCII.
proof fn lemma_hex_bytes_ascii(v: int)
    requires
        v >= 0,
    ensures
        forall|i: int| 0 <= i < hex_bytes(v).len() ==> hex_bytes(v)[i] < 0x80,
    decreases v,
{
    if v < 16 {
    } else {
        lemma_hex_bytes_ascii(v / 16);
        assert forall|i: int| 0 <= i < hex_bytes(v).len() implies hex_bytes(v)[i] < 0x80 by {
            if i < hex_bytes(v / 16).len() {
                assert(hex_bytes(v)[i] == hex_bytes(v / 16)[i]);
            } else {
                assert(hex_bytes(v)[i] == hex_digit_byte(v % 16));
            }
        }
    }
}

/// The name of a format, as text.
pub open spec fn spec_name(fmt: Format) -> Option<Seq<char>> {
    if fmt.0 == DRM_FORMAT_R8 {
        Some("R8"@)
    } else if fmt.0 == DRM_FORMAT_BGR565 {
        Some("BGR565"@)
    } else if fmt.0 == DRM_FORMAT_RGB565 {
        Some("RGB565"@)
    } else if fmt.0 == DRM_FORMAT_GR88 {
        Some("GR88"@)
    } else if fmt.0 == DRM_FORMAT_R16 {
        Some("R16"@)
    } else if fmt.0 == DRM_FORMAT_BGR888 {
        Some("BGR888"@)
    } else if fmt.0 == DRM_FORMAT_RGB888 {
        Some("RGB888"@)
    } else if fmt.0 == DRM_FORMAT_ABGR8888 {
        Some("ABGR8888"@)
    } else if fmt.0 == DRM_FORMAT_XBGR8888 {
        Some("XBGR8888"@)
    } else if fmt.0 == DRM_FORMAT_ARGB8888 {
        Some("ARGB8888"@)
    } else if fmt.0 == DRM_FORMAT_XRGB8888 {
        Some("XRGB8888"@)
    } else if fmt.0 == DRM_FORMAT_ABGR2101010 {
        Some("ABGR2101010"@)
    } else if fmt.0 == DRM_FORMAT_XBGR2101010 {
        Some("XBGR2101010"@)
    } else if fmt.0 == DRM_FORMAT_ARGB2101010 {
        Some("ARGB2101010"@)
    } else if fmt.0 == DRM_FORMAT_XRGB2101010 {
        Some("XRGB2101010"@)
    } else if fmt.0 == DRM_FORMAT_ABGR16161616F {
        Some("ABGR16161616F"@)
    } else if fmt.0 == DRM_FORMAT_YUYV {
        Some("YUYV"@)
    } else if fmt.0 == DRM_FORMAT_UYVY {
        Some("UYVY"@)
    } else if fmt.0 == DRM_FORMAT_NV12 {
        Some("NV12"@)
    } else if fmt.0 == DRM_FORMAT_NV21 {
        Some("NV21"@)
    } else if fmt.0 == DRM_FORMAT_P010 {
        Some("P010"@)
    } else if fmt.0 == DRM_FORMAT_P016 {
        Some("P016"@)
    } else if fmt.0 == DRM_FORMAT_YUV420 {
        Some("YUV420"@)
    } else if fmt.0 == DRM_FORMAT_YVU420 {
        Some("YVU420"@)
    } else {
        None
    }
}

/// Returns the name of a known format.
pub fn name(fmt: Format) -> (r: Option<&'static str>)
    ensures
        r matches Some(s) ==> spec_name(fmt) == Some(s@),
        r is None <==> spec_name(fmt) is None,
        r is Some <==> is_known_format(fmt),
{
    match fmt.0 {
        DRM_FORMAT_R8 => Some("R8"),
        DRM_FORMAT_BGR565 => Some("BGR565"),
        DRM_FORMAT_RGB565 => Some("RGB565"),
        DRM_FORMAT_GR88 => Some("GR88"),
        DRM_FORMAT_R16 => Some("R16"),
        DRM_FORMAT_BGR888 => Some("BGR888"),
        DRM_FORMAT_RGB888 => Some("RGB888"),
        DRM_FORMAT_ABGR8888 => Some("ABGR8888"),
        DRM_FORMAT_XBGR8888 => Some("XBGR8888"),
        DRM_FORMAT_ARGB8888 => Some("ARGB8888"),
        DRM_FORMAT_XRGB8888 => Some("XRGB8888"),
        DRM_FORMAT_ABGR2101010 => Some("ABGR2101010"),
        DRM_FORMAT_XBGR2101010 => Some("XBGR2101010"),
        DRM_FORMAT_ARGB2101010 => Some("ARGB2101010"),
        DRM_FORMAT_XRGB2101010 => Some("XRGB2101010"),
        DRM_FORMAT_ABGR16161616F => Some("ABGR16161616F"),
        DRM_FORMAT_YUYV => Some("YUYV"),
        DRM_FORMAT_UYVY => Some("UYVY"),
        DRM_FORMAT_NV12 => Some("NV12"),
        DRM_FORMAT_NV21 => Some("NV21"),
        DRM_FORMAT_P010 => Some("P010"),
        DRM_FORMAT_P016 => Some("P016"),
        DRM_FORMAT_YUV420 => Some("YUV420"),
        DRM_FORMAT_YVU420 => Some("YVU420"),
        _ => None,
    }
}

/// The block layout of one memory plane: bytes per block, and the block extent in texels.
#[derive(Clone, Copy, Debug, Eq, PartialEq, Structural)]
pub struct PlaneClass {
    /// Bytes per block.
    pub block_size: u32,
    /// Block width in texels.
    pub block_width: u32,
    /// Block height in texels.
    pub block_height: u32,
}

/// Whether a plane class is well-formed: every quantity is between one and 255.
pub open spec fn plane_class_wf(p: PlaneClass) -> bool {
    &&& 1 <= p.block_size <= 255
    &&& 1 <= p.block_width <= 255
    &&& 1 <= p.block_height <= 255
}

/// The block layout of a format: the memory plane count and the per-plane block layout.
///
/// This follows the graphics-API format compatibility classes.
#[derive(Clone, Copy, Debug, Eq, PartialEq, Structural)]
pub struct FormatClass {
    /// The number of memory planes; between one and three.
    pub plane_count: u32,
    /// The first plane.
    pub plane0: PlaneClass,
    /// The second plane, if any.
    pub plane1: PlaneClass,
    /// The third plane, if any.
    pub plane2: PlaneClass,
}

impl FormatClass {
    /// The block layout of one plane.
    pub open spec fn spec_plane(&self, i: int) -> PlaneClass {
        if i == 0 {
            self.plane0
        } else if i == 1 {
            self.plane1
        } else {
            self.plane2
        }
    }

    /// The block layout of one plane.
    pub fn plane(&self, i: u32) -> (r: PlaneClass)
        requires
            i < 3,
        ensures
            r == self.spec_plane(i as int),
    {
        if i == 0 {
            self.plane0
        } else if i == 1 {
            self.plane1
        } else {
            self.plane2
        }
    }

    /// Whether the class is well-formed: one to three planes, each well-formed.
    pub open spec fn wf(&self) -> bool {
        &&& 1 <= self.plane_count <= 3
        &&& forall|i: int| 0 <= i < self.plane_count ==> plane_class_wf(#[trigger] self.spec_plane(i))
    }
}

/// A plane with the given bytes per block and a one-by-one block.
fn plane_1x1(block_size: u32) -> (r: PlaneClass)
    ensures
        r == (PlaneClass { block_size, block_width: 1u32, block_height: 1u32 }),
{
    PlaneClass { block_size, block_width: 1, block_height: 1 }
}

/// A placeholder for a plane the format does not have.
fn plane_unused() -> (r: PlaneClass)
    ensures
        r == (PlaneClass { block_size: 0u32, block_width: 1u32, block_height: 1u32 }),
{
    PlaneClass { block_size: 0, block_width: 1, block_height: 1 }
}

/// The block layout of a format.
pub open spec fn format_class_spec(fmt: Format) -> Option<FormatClass> {
    let unused = PlaneClass { block_size: 0, block_width: 1, block_height: 1 };
    if fmt.0 == DRM_FORMAT_R8 {
        Some(single_plane_class(1))
    } else if fmt.0 == DRM_FORMAT_BGR565 || fmt.0 == DRM_FORMAT_RGB565 || fmt.0 == DRM_FORMAT_GR88
        || fmt.0 == DRM_FORMAT_R16 {
        Some(single_plane_class(2))
    } else if fmt.0 == DRM_FORMAT_BGR888 || fmt.0 == DRM_FORMAT_RGB888 {
        Some(single_plane_class(3))
    } else if fmt.0 == DRM_FORMAT_ABGR8888 || fmt.0 == DRM_FORMAT_XBGR8888 || fmt.0
        == DRM_FORMAT_ARGB8888 || fmt.0 == DRM_FORMAT_XRGB8888 || fmt.0 == DRM_FORMAT_ABGR2101010
        || fmt.0 == DRM_FORMAT_XBGR2101010 || fmt.0 == DRM_FORMAT_ARGB2101010 || fmt.0
        == DRM_FORMAT_XRGB2101010 {
        Some(single_plane_class(4))
    } else if fmt.0 == DRM_FORMAT_ABGR16161616F {
        Some(single_plane_class(8))
    } else if fmt.0 == DRM_FORMAT_YUYV || fmt.0 == DRM_FORMAT_UYVY {
        Some(
            FormatClass {
                plane_count: 1,
                plane0: PlaneClass { block_size: 4, block_width: 2, block_height: 1 },
                plane1: unused,
                plane2: unused,
            },
        )
    } else if fmt.0 == DRM_FORMAT_NV12 || fmt.0 == DRM_FORMAT_NV21 {
        Some(two_plane_420_class(1, 2))
    } else if fmt.0 == DRM_FORMAT_P010 || fmt.0 == DRM_FORMAT_P016 {
        Some(two_plane_420_class(2, 4))
    } else if fmt.0 == DRM_FORMAT_YUV420 || fmt.0 == DRM_FORMAT_YVU420 {
        Some(
            FormatClass {
                plane_count: 3,
                plane0: PlaneClass { block_size: 1, block_width: 1, block_height: 1 },
                plane1: PlaneClass { block_size: 1, block_width: 2, block_height: 2 },
                plane2: PlaneClass { block_size: 1, block_width: 2, block_height: 2 },
            },
        )
    } else {
        None
    }
}

/// A single-plane format class with the given bytes per block and a one-by-one block.
pub open spec fn single_plane_class(block_size: u32) -> FormatClass {
    let unused = PlaneClass { block_size: 0, block_width: 1, block_height: 1 };
    FormatClass {
        plane_count: 1,
        plane0: PlaneClass { block_size, block_width: 1, block_height: 1 },
        plane1: unused,
        plane2: unused,
    }
}

/// A two-plane format class with half-resolution second plane.
pub open spec fn two_plane_420_class(block_size0: u32, block_size1: u32) -> FormatClass {
    let unused = PlaneClass { block_size: 0, block_width: 1, block_height: 1 };
    FormatClass {
        plane_count: 2,
        plane0: PlaneClass { block_size: block_size0, block_width: 1, block_height: 1 },
        plane1: PlaneClass { block_size: block_size1, block_width: 2, block_height: 2 },
        plane2: unused,
    }
}

/// Every known format's class is well-formed.
pub proof fn lemma_format_class_wf(fmt: Format)
    ensures
        format_class_spec(fmt) matches Some(c) ==> c.wf(),
{
    if format_class_spec(fmt) is Some {
        let c = format_class_spec(fmt)->Some_0;
        assert(plane_class_wf(c.spec_plane(0)) || c.plane_count < 1);
        assert forall|i: int| 0 <= i < c.plane_count implies plane_class_wf(
            #[trigger] c.spec_plane(i),
        ) by {
        }
    }
}

/// Returns the block layout of a known format.
pub fn format_class(fmt: Format) -> (r: Result<FormatClass, Error>)
    ensures
        r matches Ok(c) ==> format_class_spec(fmt) == Some(c) && c.wf(),
        r matches Err(e) ==> e is User,
        r is Ok <==> is_known_format(fmt),
{
    proof {
        lemma_format_class_wf(fmt);
    }
    match fmt.0 {
        DRM_FORMAT_R8 => Ok(
            FormatClass {
                plane_count: 1,
                plane0: plane_1x1(1),
                plane1: plane_unused(),
                plane2: plane_unused(),
            },
        ),
        DRM_FORMAT_BGR565 | DRM_FORMAT_RGB565 | DRM_FORMAT_GR88 | DRM_FORMAT_R16 => Ok(
            FormatClass {
                plane_count: 1,
                plane0: plane_1x1(2),
                plane1: plane_unused(),
                plane2: plane_unused(),
            },
        ),
        DRM_FORMAT_BGR888 | DRM_FORMAT_RGB888 => Ok(
            FormatClass {
                plane_count: 1,
                plane0: plane_1x1(3),
                plane1: plane_unused(),
                plane2: plane_unused(),
            },
        ),
        DRM_FORMAT_ABGR8888 | DRM_FORMAT_XBGR8888 | DRM_FORMAT_ARGB8888 | DRM_FORMAT_XRGB8888
        | DRM_FORMAT_ABGR2101010 | DRM_FORMAT_XBGR2101010 | DRM_FORMAT_ARGB2101010
        | DRM_FORMAT_XRGB2101010 => Ok(
            FormatClass {
                plane_count: 1,
                plane0: plane_1x1(4),
                plane1: plane_unused(),
                plane2: plane_unused(),
            },
        ),
        DRM_FORMAT_ABGR16161616F => Ok(
            FormatClass {
                plane_count: 1,
                plane0: plane_1x1(8),
                plane1: plane_unused(),
                plane2: plane_unused(),
            },
        ),
        DRM_FORMAT_YUYV | DRM_FORMAT_UYVY => Ok(
            FormatClass {
                plane_count: 1,
                plane0: PlaneClass { block_size: 4, block_width: 2, block_height: 1 },
                plane1: plane_unused(),
                plane2: plane_unused(),
            },
        ),
        DRM_FORMAT_NV12 | DRM_FORMAT_NV21 => Ok(
            FormatClass {
                plane_count: 2,
                plane0: plane_1x1(1),
                plane1: PlaneClass { block_size: 2, block_width: 2, block_height: 2 },
                plane2: plane_unused(),
            },
        ),
        DRM_FORMAT_P010 | DRM_FORMAT_P016 => Ok(
            FormatClass {
                plane_count: 2,
                plane0: plane_1x1(2),
                plane1: PlaneClass { block_size: 4, block_width: 2, block_height: 2 },
                plane2: plane_unused(),
            },
        ),
        DRM_FORMAT_YUV420 | DRM_FORMAT_YVU420 => Ok(
            FormatClass {
                plane_count: 3,
                plane0: plane_1x1(1),
                plane1: PlaneClass { block_size: 1, block_width: 2, block_height: 2 },
                plane2: PlaneClass { block_size: 1, block_width: 2, block_height: 2 },
            },
        ),
        _ => Err(Error::User),
    }
}

/// Returns the bytes per block of one plane of a known format.
pub fn block_size(fmt: Format, plane: u32) -> (r: Result<u32, Error>)
    requires
        plane < 3,
    ensures
        r matches Ok(b) ==> format_class_spec(fmt) matches Some(c) && b == c.spec_plane(
            plane as int,
        ).block_size,
        r matches Err(e) ==> e is User,
        r is Ok <==> is_known_format(fmt),
{
    match format_class(fmt) {
        Ok(c) => Ok(c.plane(plane).block_size),
        Err(e) => Err(e),
    }
}

/// Returns the memory plane count of a known format.
pub fn plane_count(fmt: Format) -> (r: Result<u32, Error>)
    ensures
        r matches Ok(n) ==> format_class_spec(fmt) matches Some(c) && n == c.plane_count,
        r matches Err(e) ==> e is User,
        r is Ok <==> is_known_format(fmt),
{
    match format_class(fmt) {
        Ok(c) => Ok(c.plane_count),
        Err(e) => Err(e),
    }
}

/// The width of a plane in blocks.
pub open spec fn plane_width_blocks(fc: FormatClass, w: int, i: int) -> int {
    crate::utils::ceil_div(w, fc.spec_plane(i).block_width as int)
}

/// The height of a plane in blocks.
pub open spec fn plane_height_blocks(fc: FormatClass, h: int, i: int) -> int {
    crate::utils::ceil_div(h, fc.spec_plane(i).block_height as int)
}

/// The packed row stride of a plane: blocks per row times bytes per block, aligned up.
pub open spec fn plane_stride(fc: FormatClass, w: int, sa: int, i: int) -> int {
    spec_align_up(plane_width_blocks(fc, w, i) * fc.spec_plane(i).block_size as int, sa)
}

/// The packed byte size of a plane: the stride times the rows of blocks, aligned up.
pub open spec fn plane_size(fc: FormatClass, w: int, h: int, sa: int, za: int, i: int) -> int {
    spec_align_up(plane_stride(fc, w, sa, i) * plane_height_blocks(fc, h, i), za)
}

/// The running offset after the first `n` planes are packed.
pub open spec fn packed_end(
    fc: FormatClass,
    w: int,
    h: int,
    oa: int,
    sa: int,
    za: int,
    n: int,
) -> int
    decreases n,
{
    if n <= 0 {
        0
    } else {
        spec_align_up(packed_end(fc, w, h, oa, sa, za, n - 1), oa) + plane_size(
            fc,
            w,
            h,
            sa,
            za,
            n - 1,
        )
    }
}

/// The packed offset of a plane: the end of the previous planes, aligned up.
pub open spec fn plane_offset(
    fc: FormatClass,
    w: int,
    h: int,
    oa: int,
    sa: int,
    za: int,
    i: int,
) -> int {
    spec_align_up(packed_end(fc, w, h, oa, sa, za, i), oa)
}

/// Whether every quantity that packing computes for one plane fits in 64 bits.
pub open spec fn plane_fits(
    fc: FormatClass,
    w: int,
    h: int,
    oa: int,
    sa: int,
    za: int,
    i: int,
) -> bool {
    &&& plane_offset(fc, w, h, oa, sa, za, i) <= u64::MAX
    &&& plane_stride(fc, w, sa, i) <= u64::MAX
    &&& plane_size(fc, w, h, sa, za, i) <= u64::MAX
    &&& packed_end(fc, w, h, oa, sa, za, i + 1) <= u64::MAX
}

/// Whether packing the whole image stays within 64 bits.
pub open spec fn packed_fits(fc: FormatClass, w: int, h: int, oa: int, sa: int, za: int) -> bool {
    forall|i: int| 0 <= i < fc.plane_count ==> plane_fits(fc, w, h, oa, sa, za, i)
}

/// Whether a layout is the packed linear layout of an image.
pub open spec fn is_packed_image_layout(
    l: Layout,
    fc: FormatClass,
    w: int,
    h: int,
    oa: int,
    sa: int,
    za: int,
) -> bool {
    &&& l.wf()
    &&& l.modifier.0 == DRM_FORMAT_MOD_LINEAR
    &&& l.plane_count == fc.plane_count
    &&& l.size == packed_end(fc, w, h, oa, sa, za, fc.plane_count as int)
    &&& forall|i: int|
        0 <= i < fc.plane_count ==> #[trigger] l.offsets@[i] == plane_offset(
            fc,
            w,
            h,
            oa,
            sa,
            za,
            i,
        )
    &&& forall|i: int|
        0 <= i < fc.plane_count ==> #[trigger] l.strides@[i] == plane_stride(fc, w, sa, i)
    &&& forall|i: int| fc.plane_count <= i < 4 ==> #[trigger] l.offsets@[i] == 0
    &&& forall|i: int| fc.plane_count <= i < 4 ==> #[trigger] l.strides@[i] == 0
}

/// The packed stride of a plane is an aligned positive value, and the packed size an
/// aligned multiple of the size alignment, when the image is non-empty.
pub proof fn lemma_plane_quantities(fc: FormatClass, w: int, h: int, sa: int, za: int, i: int)
    requires
        fc.wf(),
        1 <= w,
        1 <= h,
        sa >= 1,
        za >= 1,
        0 <= i < fc.plane_count,
    ensures
        plane_stride(fc, w, sa, i) >= 1,
        plane_stride(fc, w, sa, i) % sa == 0,
        plane_size(fc, w, h, sa, za, i) >= za,
        plane_size(fc, w, h, sa, za, i) % za == 0,
        plane_size(fc, w, h, sa, za, i) >= plane_stride(fc, w, sa, i),
{
    let p = fc.spec_plane(i);
    assert(plane_class_wf(p));
    let bw = p.block_width as int;
    let bh = p.block_height as int;
    let bs = p.block_size as int;
    let wb = crate::utils::ceil_div(w, bw);
    let hb = crate::utils::ceil_div(h, bh);
    vstd::arithmetic::div_mod::lemma_div_non_zero(w + bw - 1, bw);
    vstd::arithmetic::div_mod::lemma_div_non_zero(h + bh - 1, bh);
    assert(wb >= 1);
    assert(hb >= 1);
    let raw = wb * bs;
    assert(wb * bs >= 1) by (nonlinear_arith)
        requires
            wb >= 1,
            bs >= 1,
    ;
    crate::utils::lemma_align_up(raw, sa);
    let stride = plane_stride(fc, w, sa, i);
    assert(stride >= 1);
    let rawsz = stride * hb;
    assert(stride * hb >= stride) by (nonlinear_arith)
        requires
            stride >= 1,
            hb >= 1,
    ;
    crate::utils::lemma_align_up(rawsz, za);
    let size = plane_size(fc, w, h, sa, za, i);
    assert(size >= 1);
    crate::utils::lemma_positive_multiple(size, za);
}

/// The running offset of packing never goes negative.
pub proof fn lemma_packed_end_nonneg(
    fc: FormatClass,
    w: int,
    h: int,
    oa: int,
    sa: int,
    za: int,
    n: int,
)
    requires
        fc.wf(),
        1 <= w,
        1 <= h,
        oa >= 1,
        sa >= 1,
        za >= 1,
        0 <= n <= fc.plane_count,
    ensures
        packed_end(fc, w, h, oa, sa, za, n) >= 0,
    decreases n,
{
    if n > 0 {
        lemma_packed_end_nonneg(fc, w, h, oa, sa, za, n - 1);
        crate::utils::lemma_align_up(packed_end(fc, w, h, oa, sa, za, n - 1), oa);
        lemma_plane_quantities(fc, w, h, sa, za, n - 1);
    }
}

/// Raising the alignments never shrinks the packed offsets or sizes, as long as each
/// raised alignment is an exact multiple of the one it replaces.
pub proof fn lemma_packed_end_monotone(
    fc: FormatClass,
    w: int,
    h: int,
    oa1: int,
    sa1: int,
    za1: int,
    oa2: int,
    sa2: int,
    za2: int,
    n: int,
)
    requires
        fc.wf(),
        1 <= w,
        1 <= h,
        oa1 >= 1,
        sa1 >= 1,
        za1 >= 1,
        oa2 >= 1,
        sa2 >= 1,
        za2 >= 1,
        oa2 % oa1 == 0,
        sa2 % sa1 == 0,
        za2 % za1 == 0,
        0 <= n <= fc.plane_count,
    ensures
        packed_end(fc, w, h, oa1, sa1, za1, n) <= packed_end(fc, w, h, oa2, sa2, za2, n),
    decreases n,
{
    if n > 0 {
        let i = n - 1;
        lemma_packed_end_monotone(fc, w, h, oa1, sa1, za1, oa2, sa2, za2, i);
        lemma_packed_end_nonneg(fc, w, h, oa1, sa1, za1, i);
        lemma_packed_end_nonneg(fc, w, h, oa2, sa2, za2, i);
        crate::utils::lemma_align_up_mono(
            packed_end(fc, w, h, oa1, sa1, za1, i),
            packed_end(fc, w, h, oa2, sa2, za2, i),
            oa1,
            oa2,
        );
        lemma_plane_quantities(fc, w, h, sa1, za1, i);
        lemma_plane_quantities(fc, w, h, sa2, za2, i);
        let p = fc.spec_plane(i);
        let raw = plane_width_blocks(fc, w, i) * p.block_size as int;
        assert(raw >= 1) by {
            vstd::arithmetic::div_mod::lemma_div_non_zero(
                w + p.block_width - 1,
                p.block_width as int,
            );
            assert(plane_width_blocks(fc, w, i) >= 1);
            vstd::arithmetic::mul::lemma_mul_strictly_positive(
                plane_width_blocks(fc, w, i),
                p.block_size as int,
            );
        }
        crate::utils::lemma_align_up_mono(raw, raw, sa1, sa2);
        let hb = plane_height_blocks(fc, h, i);
        assert(hb >= 0) by {
            vstd::arithmetic::div_mod::lemma_div_non_zero(
                h + p.block_height - 1,
                p.block_height as int,
            );
        }
        vstd::arithmetic::mul::lemma_mul_inequality(
            plane_stride(fc, w, sa1, i),
            plane_stride(fc, w, sa2, i),
            hb,
        );
        crate::utils::lemma_align_up_mono(
            plane_stride(fc, w, sa1, i) * hb,
            plane_stride(fc, w, sa2, i) * hb,
            za1,
            za2,
        );
    }
}

/// Packs the linear layout of an image: walk the format's planes in order, rounding
/// each offset, stride and size up to the given alignments.
///
/// Fails with a user error for an unknown format, and with an integer-conversion error
/// when any packed quantity does not fit in 64 bits.
#[verifier::loop_isolation(false)]
pub fn packed_layout(fmt: Format, width: u32, height: u32, con: Option<Constraint>) -> (r: Result<
    Layout,
    Error,
>)
    requires
        con matches Some(c) ==> c.wf(),
    ensures
        !is_known_format(fmt) ==> (r matches Err(e) && e is User),
        is_known_format(fmt) ==> {
            let fc = format_class_spec(fmt)->Some_0;
            let oa = Constraint::spec_unpack(con).0 as int;
            let sa = Constraint::spec_unpack(con).1 as int;
            let za = Constraint::spec_unpack(con).2 as int;
            &&& (r is Ok <==> packed_fits(fc, width as int, height as int, oa, sa, za))
            &&& (r matches Ok(l) ==> is_packed_image_layout(
                l,
                fc,
                width as int,
                height as int,
                oa,
                sa,
                za,
            ))
            &&& (r matches Err(e) ==> e is IntegerConversion)
        },
{
    let fc = match format_class(fmt) {
        Ok(c) => c,
        Err(e) => { return Err(e) },
    };
    let alignments = Constraint::unpack(con);
    let offset_align = alignments.0;
    let stride_align = alignments.1;
    let size_align = alignments.2;

    let ghost w = width as int;
    let ghost h = height as int;
    let ghost oa = offset_align as int;
    let ghost sa = stride_align as int;
    let ghost za = size_align as int;

    let mut layout = Layout::new().modifier(mod_linear()).plane_count(fc.plane_count);
    let mut offset: u64 = 0;
    let mut plane: u32 = 0;
    while plane < fc.plane_count
        invariant
            Some(fc) == format_class_spec(fmt),
            fc.wf(),
            plane <= fc.plane_count,
            offset_align >= 1,
            stride_align >= 1,
            size_align >= 1,
            oa == offset_align as int,
            sa == stride_align as int,
            za == size_align as int,
            w == width as int,
            h == height as int,
            offset == packed_end(fc, w, h, oa, sa, za, plane as int),
            layout.wf(),
            layout.modifier.0 == DRM_FORMAT_MOD_LINEAR,
            layout.plane_count == fc.plane_count,
            forall|i: int|
                0 <= i < plane ==> #[trigger] layout.offsets@[i] == plane_offset(
                    fc,
                    w,
                    h,
                    oa,
                    sa,
                    za,
                    i,
                ),
            forall|i: int|
                0 <= i < plane ==> #[trigger] layout.strides@[i] == plane_stride(fc, w, sa, i),
            forall|i: int| plane <= i < 4 ==> #[trigger] layout.offsets@[i] == 0,
            forall|i: int| plane <= i < 4 ==> #[trigger] layout.strides@[i] == 0,
            forall|i: int| 0 <= i < plane ==> plane_fits(fc, w, h, oa, sa, za, i),
        decreases fc.plane_count - plane,
    {
        let ghost p_int = plane as int;
        let p = fc.plane(plane);
        assert(plane_class_wf(p));

        let wb = crate::utils::ceil_div_u32(width, p.block_width);
        let hb = crate::utils::ceil_div_u32(height, p.block_height);

        let aligned_offset = match checked_align_up(offset, offset_align) {
            Some(v) => v,
            None => {
                proof {
                    assert(!plane_fits(fc, w, h, oa, sa, za, p_int));
                    assert(!packed_fits(fc, w, h, oa, sa, za));
                }
                return Err(Error::IntegerConversion);
            },
        };

        proof {
            vstd::arithmetic::mul::lemma_mul_upper_bound(
                wb as int,
                u32::MAX as int,
                p.block_size as int,
                255,
            );
        }
        let raw_stride: u64 = wb * (p.block_size as u64);
        assert(raw_stride == plane_width_blocks(fc, w, p_int) * (p.block_size as int));
        let stride = match checked_align_up(raw_stride, stride_align) {
            Some(v) => v,
            None => {
                proof {
                    assert(!plane_fits(fc, w, h, oa, sa, za, p_int));
                    assert(!packed_fits(fc, w, h, oa, sa, za));
                }
                return Err(Error::IntegerConversion);
            },
        };

        let raw_size = match stride.checked_mul(hb) {
            Some(v) => v,
            None => {
                proof {
                    crate::utils::lemma_align_up(
                        plane_stride(fc, w, sa, p_int) * plane_height_blocks(fc, h, p_int),
                        za,
                    );
                    assert(!plane_fits(fc, w, h, oa, sa, za, p_int));
                    assert(!packed_fits(fc, w, h, oa, sa, za));
                }
                return Err(Error::IntegerConversion);
            },
        };
        let size = match checked_align_up(raw_size, size_align) {
            Some(v) => v,
            None => {
                proof {
                    assert(!plane_fits(fc, w, h, oa, sa, za, p_int));
                    assert(!packed_fits(fc, w, h, oa, sa, za));
                }
                return Err(Error::IntegerConversion);
            },
        };

        let plane_idx = plane as usize;
        layout.offsets[plane_idx] = aligned_offset;
        layout.strides[plane_idx] = stride;

        offset = match aligned_offset.checked_add(size) {
            Some(v) => v,
            None => {
                proof {
                    assert(!plane_fits(fc, w, h, oa, sa, za, p_int));
                    assert(!packed_fits(fc, w, h, oa, sa, za));
                }
                return Err(Error::IntegerConversion);
            },
        };

        proof {
            assert(aligned_offset == plane_offset(fc, w, h, oa, sa, za, p_int));
            assert(stride == plane_stride(fc, w, sa, p_int));
            assert(hb == plane_height_blocks(fc, h, p_int));
            assert(size == plane_size(fc, w, h, sa, za, p_int));
            assert(offset == packed_end(fc, w, h, oa, sa, za, p_int + 1));
            assert(plane_fits(fc, w, h, oa, sa, za, p_int));
        }
        plane = plane + 1;
    }

    layout.size = offset;
    proof {
        assert(is_packed_image_layout(layout, fc, w, h, oa, sa, za));
    }
    Ok(layout)
}

} // verus!
