//! Tests for the format tables and layout packing.

use hbm::formats;
use hbm::Constraint;
use hbm::Format;
use hbm::Layout;
use hbm::Size;

#[test]
fn consts() {
    assert_eq!(formats::DRM_FORMAT_INVALID, 0);
    assert_eq!(formats::DRM_FORMAT_R8, 538982482);
    assert_eq!(formats::DRM_FORMAT_MOD_INVALID, 72057594037927935);
    assert_eq!(formats::DRM_FORMAT_MOD_LINEAR, 0);
}

#[test]
fn fourcc() {
    assert_eq!(formats::fourcc(formats::r8()), String::from("'R8  '"));
    assert_eq!(formats::fourcc(Format(0xffffffff)), String::from("0xffffffff"));
}

#[test]
fn name() {
    assert_eq!(formats::name(formats::r8()), Some("R8"));
    assert_eq!(formats::name(formats::invalid()), None);
}

#[test]
fn format_class() {
    for fmt in formats::known_formats() {
        assert!(formats::format_class(fmt).is_ok());
    }
}

#[test]
fn block_size() {
    assert_eq!(formats::block_size(formats::r8(), 0).unwrap(), 1);
}

#[test]
fn packed_layout() {
    let w = 10;
    let h = 10;
    let mut layout = Layout::new()
        .size((w * h) as Size)
        .modifier(formats::mod_linear())
        .plane_count(1)
        .stride(0, w as Size);
    assert_eq!(formats::packed_layout(formats::r8(), w, h, None).unwrap(), layout);

    let stride = 16;
    let con = Constraint::new().stride_align(stride);
    layout.size = stride * (h as Size);
    layout.strides[0] = stride;
    assert_eq!(formats::packed_layout(formats::r8(), w, h, Some(con)).unwrap(), layout);
}

#[test]
fn packed_layout_aligned_r8() {
    // an 8x8 single-byte-per-texel image with a 16-byte stride alignment packs to one
    // plane with stride 16 and size 128
    let con = Constraint::new().stride_align(16);
    let layout = formats::packed_layout(formats::r8(), 8, 8, Some(con)).unwrap();
    assert_eq!(layout.plane_count, 1);
    assert_eq!(layout.strides[0], 16);
    assert_eq!(layout.size, 16 * 8);
    assert_eq!(layout.offsets[0], 0);
}

#[test]
fn packed_layout_two_planes() {
    // a 4x4 two-plane 4:2:0 image: a 4x4 byte luma plane and a 2x2 two-byte chroma
    // plane
    let layout = formats::packed_layout(Format(formats::DRM_FORMAT_NV12), 4, 4, None).unwrap();
    assert_eq!(layout.plane_count, 2);
    assert_eq!(layout.strides[0], 4);
    assert_eq!(layout.offsets[0], 0);
    assert_eq!(layout.strides[1], 4);
    assert_eq!(layout.offsets[1], 16);
    assert_eq!(layout.size, 16 + 8);
}

#[test]
fn packed_layout_overflow() {
    // a stride alignment that pushes the packed size past 64 bits is a bad-integer
    // error
    let con = Constraint::new().stride_align(u64::MAX);
    let r = formats::packed_layout(formats::r8(), 2, 2, Some(con));
    assert!(matches!(r, Err(hbm::Error::IntegerConversion)));
}

#[test]
fn packed_layout_unknown_format() {
    let r = formats::packed_layout(Format(0x12345678), 4, 4, None);
    assert!(matches!(r, Err(hbm::Error::User)));
}

#[test]
fn fourcc_hex_of_partial_ascii() {
    // one non-ASCII byte forces the hexadecimal form
    assert_eq!(formats::fourcc(Format(0x80203852)), String::from("0x80203852"));
    // a small value keeps no leading zeros
    assert_eq!(formats::fourcc(Format(0x80)), String::from("0x80"));
}
