use image::{GenericImageView, RgbImage};
use tiandi::hash::{dhash64 as dhash_raw, dhash_from_gray, duplicate_groups, find_duplicates, hamming, RawImage};

fn dhash64(img: &image::DynamicImage) -> u64 {
    let rgb = img.to_rgb8();
    let (width, height) = rgb.dimensions();
    dhash_raw(&RawImage { color: 2, width, height, data: rgb.into_raw() })
}

fn make_image(w: u32, h: u32, pattern: u8) -> image::DynamicImage {
    let mut img = RgbImage::new(w, h);
    for (x, y, p) in img.enumerate_pixels_mut() {
        let v = match pattern {
            0 => {
                if x >= w / 2 {
                    220
                } else {
                    20
                }
            }
            1 => {
                if (x / 32 + y / 32) % 2 == 0 {
                    220
                } else {
                    20
                }
            }
            2 => {
                if y < h / 2 {
                    220
                } else {
                    20
                }
            }
            3 => {
                if x * h > y * w {
                    220
                } else {
                    20
                }
            }
            4 => 60,
            5 => 200,
            _ => 0,
        };
        *p = image::Rgb([v, v / 2, v / 3]);
    }
    image::DynamicImage::ImageRgb8(img)
}

#[test]
fn identical_images_have_same_hash() {
    let a = dhash64(&make_image(512, 512, 0));
    let b = dhash64(&make_image(512, 512, 0));
    assert_eq!(a, b);
    assert_eq!(hamming(a, b), 0);
}

#[test]
fn different_patterns_differ() {
    let a = dhash64(&make_image(512, 512, 0));
    let b = dhash64(&make_image(512, 512, 1));
    let c = dhash64(&make_image(512, 512, 2));
    let d = dhash64(&make_image(512, 512, 3));
    assert_ne!(a, 0);
    assert!(hamming(a, b) > 5, "a-b {}", hamming(a, b));
    assert!(hamming(a, c) > 5, "a-c {}", hamming(a, c));
    assert!(hamming(a, d) > 5, "a-d {}", hamming(a, d));
}

#[test]
fn scaled_copy_is_near_duplicate() {
    let orig = make_image(1024, 768, 0);
    let scaled = orig.resize_exact(512, 384, image::imageops::FilterType::Triangle);
    let a = dhash64(&orig);
    let b = dhash64(&scaled);
    assert!(hamming(a, b) <= 5, "{}", hamming(a, b));
}

#[test]
fn find_duplicates_groups_copies() {
    let entries = vec![
        ("a.png".to_string(), dhash64(&make_image(512, 512, 0))),
        ("a-copy.png".to_string(), dhash64(&make_image(512, 512, 0))),
        ("b.png".to_string(), dhash64(&make_image(512, 512, 2))),
    ];
    let groups = find_duplicates(&entries, 5);
    assert_eq!(groups.len(), 1);
    assert_eq!(groups[0].len(), 2);
}

#[test]
fn grayscale_probe_sanity() {
    let gray = make_image(512, 512, 0)
        .grayscale()
        .resize_exact(9, 8, image::imageops::FilterType::Triangle);
    let row: Vec<u8> = (0..9).map(|x| gray.get_pixel(x, 0)[0]).collect();
    assert!(row.windows(2).any(|w| w[1] > w[0]), "{row:?}");
}

#[test]
fn all_zero_hashes_are_not_grouped() {
    let solid_a = dhash64(&make_image(64, 64, 4));
    let solid_b = dhash64(&make_image(64, 64, 5));
    assert_eq!(solid_a, 0);
    assert_eq!(solid_b, 0);
    let normal = dhash64(&make_image(64, 64, 0));
    assert_ne!(normal, 0);
    let entries = vec![
        ("solid-a.png".to_string(), solid_a),
        ("solid-b.png".to_string(), solid_b),
        ("normal.png".to_string(), normal),
    ];
    let groups = find_duplicates(&entries, 5);
    assert!(groups.is_empty(), "{groups:?}");
}

#[test]
fn cross_prefix_boundary_near_duplicate_detected() {
    let h1 = 0x8000_0000_0000_0001u64;
    let h2 = 0x0000_0000_0000_0001u64;
    assert_eq!(hamming(h1, h2), 1);
    let entries = vec![("a.png".to_string(), h1), ("b.png".to_string(), h2)];
    let groups = find_duplicates(&entries, 5);
    assert_eq!(groups.len(), 1, "{groups:?}");
    assert_eq!(groups[0].len(), 2);
}

#[test]
fn chained_near_duplicates_form_transitive_group() {
    let a = 0x0000_0000_0000_0001u64;
    let b = a ^ (1 << 5);
    let c = b ^ (1 << 6) ^ (1 << 7) ^ (1 << 8) ^ (1 << 9) ^ (1 << 10);
    assert!(hamming(a, b) <= 5);
    assert!(hamming(b, c) <= 5);
    assert!(hamming(a, c) > 5);
    let entries = vec![
        ("a.png".to_string(), a),
        ("b.png".to_string(), b),
        ("c.png".to_string(), c),
    ];
    let groups = find_duplicates(&entries, 5);
    assert_eq!(groups.len(), 1, "{groups:?}");
    assert_eq!(groups[0].len(), 3);
}

#[test]
fn hamming_counts_differing_bits() {
    assert_eq!(hamming(0, u64::MAX), 64);
    assert_eq!(hamming(0b1011, 0b0001), 2);
    assert_eq!(hamming(7, 7), 0);
    // Symmetric.
    assert_eq!(hamming(0xF0F0, 0x0FF0), hamming(0x0FF0, 0xF0F0));
}

#[test]
fn groups_are_sorted_and_ordered_by_first_path() {
    let entries = vec![
        ("z.png".to_string(), 0x10u64),
        ("m.png".to_string(), 0xFF00u64),
        ("a.png".to_string(), 0x11u64),
        ("b.png".to_string(), 0xFF01u64),
        ("solo.png".to_string(), 0xFFFF_0000_0000_0000u64),
    ];
    let groups = find_duplicates(&entries, 2);
    let names: Vec<Vec<&str>> = groups
        .iter()
        .map(|g| g.iter().map(|(p, _)| p.as_str()).collect())
        .collect();
    assert_eq!(names, vec![vec!["a.png", "z.png"], vec!["b.png", "m.png"]]);
    let idx = duplicate_groups(&entries, 2);
    assert_eq!(idx, vec![vec![2, 0], vec![3, 1]]);
}

#[test]
fn threshold_zero_groups_exact_copies_only() {
    let entries = vec![
        ("a".to_string(), 5u64),
        ("b".to_string(), 5u64),
        ("c".to_string(), 4u64),
    ];
    let groups = find_duplicates(&entries, 0);
    assert_eq!(groups.len(), 1);
    assert_eq!(groups[0].len(), 2);
}

#[test]
fn dhash_from_gray_encodes_rising_edges() {
    // Every row rises from left to right: all 64 bits set.
    let mut gray = vec![0u8; 72];
    for y in 0..8 {
        for x in 0..9 {
            gray[y * 9 + x] = (x * 10) as u8;
        }
    }
    assert_eq!(dhash_from_gray(&gray), u64::MAX);
    // Flat rows: no bit set.
    assert_eq!(dhash_from_gray(&[7u8; 72]), 0);
    // Only the first pair of the first row rises: the most significant bit.
    let mut one = vec![0u8; 72];
    one[1] = 1;
    assert_eq!(dhash_from_gray(&one), 1u64 << 63);
}

fn probe_hash(img: &image::DynamicImage) -> u64 {
    let gray = img.grayscale().resize_exact(9, 8, image::imageops::FilterType::Triangle).to_luma8().into_raw();
    dhash_from_gray(&gray)
}

#[test]
fn every_pixel_layout_hashes_as_the_image_crate_probes_it() {
    let base = make_image(64, 48, 0);
    let layouts: Vec<(u8, image::DynamicImage)> = vec![
        (0, image::DynamicImage::ImageLuma8(base.to_luma8())),
        (1, image::DynamicImage::ImageLumaA8(base.to_luma_alpha8())),
        (2, image::DynamicImage::ImageRgb8(base.to_rgb8())),
        (3, image::DynamicImage::ImageRgba8(base.to_rgba8())),
    ];
    for (color, img) in layouts {
        let (width, height) = img.dimensions();
        let raw = RawImage { color, width, height, data: img.as_bytes().to_vec() };
        assert_eq!(dhash_raw(&raw), probe_hash(&img), "layout {color}");
        assert_ne!(dhash_raw(&raw), 0);
    }
}

#[test]
fn distance_up_to_the_threshold_groups_at_any_threshold() {
    let a = 0x0001_0001_0001_0001u64;
    let b = 0x0002_0002_0002_0002u64;
    assert_eq!(hamming(a, b), 8);
    let entries = vec![("a.png".to_string(), a), ("b.png".to_string(), b)];
    assert_eq!(find_duplicates(&entries, 8), vec![entries.clone()]);
    assert!(find_duplicates(&entries, 7).is_empty());
}
