use gray_scott::frame::{Frame, Pixel};

#[test]
fn pixel_pack_round_trip() {
    let quads: [(u8, u8, u8, u8); 6] = [
        (0, 0, 0, 0),
        (255, 255, 255, 255),
        (1, 2, 3, 4),
        (0x12, 0x34, 0x56, 0x78),
        (255, 0, 128, 7),
        (0, 255, 0, 255),
    ];
    for (a, r, g, b) in quads {
        let pix = Pixel::new(a, r, g, b);
        assert_eq!(pix.get_color(), (r, g, b, a));
    }
}

#[test]
fn pixel_packed_layout() {
    assert_eq!(Pixel::new(0xFF, 0x11, 0x22, 0x33).argb, 0xFF112233);
    assert_eq!(Pixel::new(1, 2, 3, 4).argb, 0x01020304);
    assert_eq!(Pixel::new(0, 0, 0, 0).argb, 0);
}

#[test]
fn pixel_set_color_overwrites() {
    let mut pix = Pixel::new(9, 9, 9, 9);
    pix.set_color(0x11, 0x22, 0x33, 0x44);
    assert_eq!(pix.argb, 0x44112233);
    assert_eq!(pix.get_color(), (0x11, 0x22, 0x33, 0x44));
}

#[test]
fn pixel_unpack_then_pack() {
    for argb in [0u32, 0xFFFFFFFF, 0xDEADBEEF, 0x01020304, 0x80000001] {
        let (r, g, b, a) = Pixel { argb }.get_color();
        assert_eq!(Pixel::new(a, r, g, b).argb, argb);
    }
}

#[test]
fn frame_starts_blank() {
    let frame = Frame::<4, 3>::new();
    let buf = frame.get_pixels();
    assert_eq!(buf.len(), 12);
    assert!(buf.iter().all(|&v| v == 0));
}

#[test]
fn frame_set_then_get() {
    let mut frame = Frame::<4, 3>::new();
    let pix = Pixel::new(255, 10, 20, 30);
    frame.set_pixel(2, 1, pix);
    assert_eq!(*frame.get_pixel(2, 1), pix);
    assert_eq!(*frame.get_pixel(0, 0), Pixel { argb: 0 });
    let buf = frame.get_pixels();
    assert_eq!(buf[1 * 4 + 2], pix.argb);
}

#[test]
fn frame_get_pixel_mut_writes_through() {
    let mut frame = Frame::<2, 2>::new();
    frame.get_pixel_mut(1, 0).set_color(1, 2, 3, 4);
    assert_eq!(frame.get_pixel(1, 0).argb, 0x04010203);
    assert_eq!(frame.get_pixel(0, 0).argb, 0);
}

#[test]
fn frame_set_pixel_owned_chains() {
    let frame = Frame::<2, 1>::new()
        .set_pixel_owned(0, 0, Pixel::new(255, 1, 1, 1))
        .set_pixel_owned(1, 0, Pixel::new(255, 2, 2, 2));
    assert_eq!(frame.get_pixels(), vec![0xFF010101, 0xFF020202]);
}

#[test]
fn fill_grayscale_is_opaque_gray() {
    let mut frame = Frame::<2, 2>::new();
    let intensities: Vec<u8> = vec![0, 10, 200, 255];
    frame.fill_grayscale(&intensities);
    assert_eq!(
        frame.get_pixels(),
        vec![0xFF000000, 0xFF0A0A0A, 0xFFC8C8C8, 0xFFFFFFFF],
    );
    for (i, &v) in intensities.iter().enumerate() {
        let (r, g, b, a) = frame.get_pixel(i % 2, i / 2).get_color();
        assert_eq!(a, 255);
        assert_eq!((r, g, b), (v, v, v));
    }
}
