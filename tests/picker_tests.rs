use color_picker::picker::{
    color_from_pixel, colors_from_bitmap, decode_rows, region_bounds, row_stride, Point, Region,
    CLR_INVALID,
};

#[test]
fn test_get_cursor_position_not_windows() {
    println!("Cursor position retrieval is not implemented for this platform");
    assert!(true, "Test skipped for non-Windows platform");
}

#[test]
fn pixel_value_decodes_red_green_blue() {
    assert_eq!(color_from_pixel(0x00332211), Some((0x11, 0x22, 0x33)));
    assert_eq!(color_from_pixel(0x00000000), Some((0, 0, 0)));
    assert_eq!(color_from_pixel(0x00FFFFFF), Some((255, 255, 255)));
    assert_eq!(color_from_pixel(0x000000FF), Some((255, 0, 0)));
}

#[test]
fn invalid_pixel_gives_none() {
    assert_eq!(color_from_pixel(CLR_INVALID), None);
}

#[test]
fn region_is_normalized_from_either_corner() {
    let p1 = Point { x: 10, y: 3 };
    let p2 = Point { x: 4, y: 8 };
    let r = region_bounds(p1, p2);
    assert_eq!(r, Region { left: 4, top: 3, width: 7, height: 6 });
    assert_eq!(region_bounds(p2, p1), r);
}

#[test]
fn single_point_region_is_one_pixel() {
    let p = Point { x: -5, y: 7 };
    assert_eq!(region_bounds(p, p), Region { left: -5, top: 7, width: 1, height: 1 });
}

#[test]
fn widest_region_fits() {
    let a = Point { x: i32::MIN, y: i32::MIN };
    let b = Point { x: i32::MAX, y: i32::MAX };
    let r = region_bounds(a, b);
    assert_eq!(r.width, 1u64 << 32);
    assert_eq!(r.height, 1u64 << 32);
}

#[test]
fn row_stride_pads_to_four_bytes() {
    assert_eq!(row_stride(1), 4);
    assert_eq!(row_stride(4), 12);
    assert_eq!(row_stride(5), 16);
    assert_eq!(row_stride(0), 0);
}

#[test]
fn decode_skips_row_padding() {
    // Two pixels per row: six bytes of color, two of padding.
    let buf: Vec<u8> = vec![1, 2, 3, 4, 5, 6, 0xEE, 0xEE, 7, 8, 9, 10, 11, 12, 0xEE, 0xEE];
    let colors = decode_rows(&buf, 2, 2, 8);
    assert_eq!(colors, vec![(3, 2, 1), (6, 5, 4), (9, 8, 7), (12, 11, 10)]);
}

#[test]
fn five_by_five_region_gives_twenty_five_colors() {
    let start = Point { x: 100, y: 200 };
    let end = Point { x: start.x + 4, y: start.y + 4 };
    let region = region_bounds(start, end);
    assert_eq!((region.width, region.height), (5, 5));
    let stride = row_stride(region.width) as usize;
    let buf: Vec<u8> = (0..stride * 5).map(|i| (i * 7 % 256) as u8).collect();
    let colors = colors_from_bitmap(region, &buf).unwrap();
    assert_eq!(colors.len(), 25);
    for rgb in colors.iter() {
        assert!(rgb.0 <= 255 && rgb.1 <= 255 && rgb.2 <= 255);
    }
    // Row 1, column 2 starts at byte 16 + 6.
    assert_eq!(colors[7], (buf[24], buf[23], buf[22]));
}

#[test]
fn swapped_corners_give_identical_colors() {
    let p1 = Point { x: 3, y: 9 };
    let p2 = Point { x: 0, y: 7 };
    let r1 = region_bounds(p1, p2);
    let r2 = region_bounds(p2, p1);
    let stride = row_stride(r1.width) as usize;
    let buf: Vec<u8> = (0..stride * 3).map(|i| (i * 13 % 251) as u8).collect();
    assert_eq!(colors_from_bitmap(r1, &buf), colors_from_bitmap(r2, &buf));
    assert_eq!(colors_from_bitmap(r1, &buf).unwrap().len(), 12);
}

#[test]
fn short_bitmap_buffer_gives_none() {
    let region = region_bounds(Point { x: 0, y: 0 }, Point { x: 4, y: 4 });
    let buf: Vec<u8> = vec![0; 79];
    assert_eq!(colors_from_bitmap(region, &buf), None);
    let buf: Vec<u8> = vec![0; 80];
    assert!(colors_from_bitmap(region, &buf).is_some());
}

#[test]
fn single_pixel_read_matches_one_pixel_region() {
    let p = Point { x: 12, y: 34 };
    let buf: Vec<u8> = vec![0x30, 0x20, 0x10, 0x00];
    let pixel: u32 = 0x10 | (0x20 << 8) | (0x30 << 16);
    let region = colors_from_bitmap(region_bounds(p, p), &buf).unwrap();
    assert_eq!(region.len(), 1);
    assert_eq!(Some(region[0]), color_from_pixel(pixel));
}
