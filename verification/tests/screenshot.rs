use axiom_core::screenshot::{analyze_screenshot, diff_counts, quadrant_colors, screenshot_diff, RgbaImage};

fn solid(w: u32, h: u32, f: impl Fn(u32, u32) -> [u8; 4]) -> RgbaImage {
    let mut pixels = Vec::new();
    for y in 0..h {
        for x in 0..w {
            pixels.extend_from_slice(&f(x, y));
        }
    }
    RgbaImage { width: w, height: h, pixels }
}

fn png(img: &RgbaImage) -> Vec<u8> {
    let buf = image::RgbaImage::from_raw(img.width, img.height, img.pixels.clone()).unwrap();
    let mut out = std::io::Cursor::new(Vec::new());
    image::DynamicImage::ImageRgba8(buf).write_to(&mut out, image::ImageFormat::Png).unwrap();
    out.into_inner()
}

#[test]
fn quadrant_colors_average_each_quadrant() {
    // Left half red, right half blue; the bottom row of the right half is white.
    let img = solid(4, 4, |x, y| {
        if x < 2 {
            [200, 0, 0, 255]
        } else if y == 3 {
            [255, 255, 255, 255]
        } else {
            [0, 0, 100, 255]
        }
    });
    let q = quadrant_colors(&img);
    let names: Vec<&str> = q.iter().map(|c| c.name.as_str()).collect();
    assert_eq!(names, vec!["top_left", "top_right", "bottom_left", "bottom_right"]);
    assert_eq!(q[0].avg_color, [200, 0, 0]);
    assert_eq!(q[1].avg_color, [0, 0, 100]);
    assert_eq!(q[2].avg_color, [200, 0, 0]);
    // Two blue pixels (0, 0, 100) and two white ones: (510/4, 510/4, 710/4).
    assert_eq!(q[3].avg_color, [127, 127, 177]);
}

#[test]
fn odd_sizes_give_the_larger_share_to_the_right_and_bottom() {
    let img = solid(3, 1, |x, _| [x as u8 * 10, 0, 0, 255]);
    let q = quadrant_colors(&img);
    // Width 3, height 1: the top quadrants are empty, averaged over 1.
    assert_eq!(q[0].avg_color, [0, 0, 0]);
    assert_eq!(q[1].avg_color, [0, 0, 0]);
    assert_eq!(q[2].avg_color, [0, 0, 0]);
    assert_eq!(q[3].avg_color, [15, 0, 0]);
}

#[test]
fn diff_counts_use_the_shared_area_and_a_threshold() {
    let base = solid(4, 4, |_, _| [100, 100, 100, 255]);
    let cur = solid(6, 4, |x, y| {
        if x == 0 && y == 0 {
            [111, 100, 100, 255]
        } else if x == 3 && y == 3 {
            [100, 90, 100, 0]
        } else if x == 1 && y == 1 {
            [100, 100, 89, 255]
        } else {
            [100, 100, 100, 255]
        }
    });
    let d = diff_counts(&base, &cur);
    assert_eq!((d.width, d.height), (4, 4));
    let counts: Vec<u64> = d.quadrants.iter().map(|q| q.diff_count).collect();
    // (0,0) differs by 11 in red; (1,1) by 11 in blue; (3,3) by exactly 10.
    assert_eq!(counts, vec![2, 0, 0, 0]);
    assert_eq!(d.total_diff, 2);
    let pixels: Vec<u64> = d.quadrants.iter().map(|q| q.pixel_count).collect();
    assert_eq!(pixels, vec![4, 4, 4, 4]);
}

#[test]
fn encoded_screenshots_are_decoded_and_compared() {
    let a = solid(8, 6, |x, y| [(x * 30) as u8, (y * 40) as u8, 7, 255]);
    let b = solid(8, 6, |x, y| if x >= 4 && y >= 3 { [255, 255, 255, 255] } else { [(x * 30) as u8, (y * 40) as u8, 7, 255] });
    let (w, h, colors) = analyze_screenshot(&png(&a)).unwrap();
    assert_eq!((w, h), (8, 6));
    let direct = quadrant_colors(&a);
    for i in 0..4 {
        assert_eq!(colors[i].avg_color, direct[i].avg_color);
    }
    let d = screenshot_diff(&png(&a), &png(&b)).unwrap();
    assert_eq!(d.quadrants[3].diff_count, 12);
    assert_eq!(d.total_diff, 12);
    let err = analyze_screenshot(b"not an image").err().unwrap();
    assert!(err.starts_with("Failed to open screenshot: "));
    assert!(screenshot_diff(b"junk", &png(&a)).err().unwrap().starts_with("Failed to open baseline: "));
    assert!(screenshot_diff(&png(&a), b"junk").err().unwrap().starts_with("Failed to open current screenshot: "));
}
