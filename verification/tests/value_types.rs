//! Tests for the simple value types: descriptions, classes, extents, constraints and
//! layouts.

use std::cmp;

use hbm::formats;
use hbm::Class;
use hbm::Constraint;
use hbm::Description;
use hbm::Extent;
use hbm::Format;
use hbm::Layout;
use hbm::Modifier;
use hbm::Size;

#[test]
fn test_description() {
    let mut desc = Description::new();
    assert!(desc.is_valid());
    assert!(desc.is_buffer());

    desc = desc.modifier(formats::mod_linear());
    assert!(!desc.is_valid());

    desc = desc.format(formats::r8());
    assert!(desc.is_valid());
    assert!(!desc.is_buffer());
}

#[test]
fn test_class() {
    let buf_desc = Description::new();
    let buf_class = Class::new(&buf_desc).max_extent(Extent::Buffer(10));

    assert!(!buf_class.validate(Extent::Buffer(0)));
    assert!(buf_class.validate(Extent::Buffer(1)));

    assert!(buf_class.validate(Extent::Buffer(9)));
    assert!(buf_class.validate(Extent::Buffer(10)));
    assert!(!buf_class.validate(Extent::Buffer(11)));

    let img_desc = Description::new().format(formats::r8());
    let img_class = Class::new(&img_desc).max_extent(Extent::Image(5, 10));

    assert!(!img_class.validate(Extent::Image(0, 0)));
    assert!(!img_class.validate(Extent::Image(5, 0)));
    assert!(!img_class.validate(Extent::Image(0, 10)));
    assert!(img_class.validate(Extent::Image(5, 1)));
    assert!(img_class.validate(Extent::Image(1, 10)));

    assert!(img_class.validate(Extent::Image(5, 10)));
    assert!(!img_class.validate(Extent::Image(6, 10)));
    assert!(!img_class.validate(Extent::Image(5, 11)));
    assert!(!img_class.validate(Extent::Image(6, 11)));
}

#[test]
fn test_extent() {
    for val in [42 as Size, (0x1234 as Size) << 30] {
        assert_eq!(Extent::Buffer(val).size(), val);
    }

    for (w, h) in [(5, 10), (10, 5)] {
        let extent = Extent::Image(w, h);
        assert_eq!(extent.width(), w);
        assert_eq!(extent.height(), h);
    }

    let buf_max = Extent::max(true);
    assert_eq!(buf_max.size(), u64::MAX);

    let img_max = Extent::max(false);
    assert_eq!(img_max.width(), u32::MAX);
    assert_eq!(img_max.height(), u32::MAX);

    assert!(Extent::Buffer(0).is_empty());
    assert!(!Extent::Buffer(1).is_empty());

    assert!(Extent::Image(0, 1).is_empty());
    assert!(Extent::Image(1, 0).is_empty());
    assert!(!Extent::Image(1, 1).is_empty());

    for (v1, v2) in [(0, 10), (10, 0), (5, 10), (10, 5)] {
        let mut extent = Extent::Buffer(v1);
        extent.intersect(Extent::Buffer(v2));
        assert_eq!(extent.size(), cmp::min(v1, v2));
    }

    for ((w1, h1), (w2, h2)) in [((5, 20), (15, 10)), ((0, 20), (15, 0))] {
        let mut extent = Extent::Image(w1, h1);
        extent.intersect(Extent::Image(w2, h2));
        assert_eq!(extent.width(), cmp::min(w1, w2));
        assert_eq!(extent.height(), cmp::min(h1, h2));
    }
}

#[test]
fn test_constraint() {
    let con = Constraint::new();
    assert_eq!(con.to_tuple(), (1, 1, 1));

    let con = Constraint::new().offset_align(0).stride_align(0).size_align(0);
    assert_eq!(con.to_tuple(), (1, 1, 1));

    let con = Constraint::new().offset_align(8).stride_align(16).size_align(32);
    assert_eq!(con.to_tuple(), (8, 16, 32));

    // we don't require power-of-two at the moment
    let con = Constraint::new().offset_align(10).stride_align(11).size_align(12);
    assert_eq!(con.to_tuple(), (10, 11, 12));

    let con = Constraint::new().offset_align(8).stride_align(16).size_align(32);
    assert_eq!(Constraint::unpack(Some(con)), (8, 16, 32));
    assert_eq!(Constraint::unpack(None), (1, 1, 1));
}

#[test]
fn test_layout() {
    let size = 10;
    let buf_desc = Description::new();
    let buf_class = Class::new(&buf_desc).max_extent(Extent::Buffer(size));
    let mut buf_layout = Layout::new().size(size);
    assert_eq!(Layout::packed(&buf_class, Extent::Buffer(size), None).unwrap(), buf_layout);

    let size_align = 16;
    let con = Constraint::new().size_align(size_align);
    buf_layout = buf_layout.size(size.next_multiple_of(size_align));
    assert_eq!(Layout::packed(&buf_class, Extent::Buffer(size), Some(con)).unwrap(), buf_layout);

    let width = 5;
    let height = 10;
    let img_desc = Description::new().format(formats::r8()).modifier(formats::mod_linear());
    let img_class = Class::new(&img_desc)
        .max_extent(Extent::Image(width, height))
        .modifiers(vec![formats::mod_linear()]);
    let mut img_layout = Layout::new()
        .size((width * height) as Size)
        .modifier(formats::mod_linear())
        .plane_count(1)
        .stride(0, width as Size);
    assert_eq!(
        Layout::packed(&img_class, Extent::Image(width, height), None).unwrap(),
        img_layout
    );

    let stride_align = 8;
    let size_align = 32;
    let con = Constraint::new().stride_align(stride_align).size_align(size_align);

    let aligned_width = (width as Size).next_multiple_of(stride_align);
    let aligned_size = (aligned_width * height as Size).next_multiple_of(size_align);
    img_layout = img_layout.size(aligned_size).stride(0, aligned_width);
    assert_eq!(
        Layout::packed(&img_class, Extent::Image(width, height), Some(con)).unwrap(),
        img_layout
    );

    assert!(img_layout.fit(None));

    // we know img_layout has stride 8 and size 96
    let con = Constraint::new().stride_align(8).size_align(96);
    assert!(img_layout.fit(Some(con)));

    let con = Constraint::new().stride_align(16);
    assert!(!img_layout.fit(Some(con)));

    let con = Constraint::new().size_align(192);
    assert!(!img_layout.fit(Some(con)));

    // for size align, we care about the size itself rather than its real alignment
    let con = Constraint::new().size_align(64);
    assert!(img_layout.fit(Some(con)));
}

#[test]
fn test_format() {
    assert_eq!(Format::default(), formats::invalid());
}

#[test]
fn test_modifier() {
    assert_eq!(Modifier::default(), formats::mod_invalid());
}

#[test]
fn fit_unordered_planes() {
    // fit takes the planes in ascending offset order, whatever order the table lists
    // them in
    let layout = Layout::new()
        .size(96)
        .plane_count(2)
        .offset(0, 64)
        .offset(1, 0)
        .stride(0, 8)
        .stride(1, 8);
    // plane gaps in ascending order are 64 and 32
    assert!(layout.fit(Some(Constraint::new().size_align(32))));
    assert!(!layout.fit(Some(Constraint::new().size_align(48))));

    // two planes at the same offset leave no room at all
    let overlapping = Layout::new().size(96).plane_count(2).offset(0, 0).offset(1, 0);
    assert!(!overlapping.fit(Some(Constraint::new().size_align(2))));
}
