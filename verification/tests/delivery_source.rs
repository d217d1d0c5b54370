use kinewright_media::delivery_source::{
    bt709_limited_source_codes, cc6_delivery_source, cc6_source_base_rgb, cc6_source_frame_planes,
    cc7_expected_sample_frames, CC6_DELIVERY_SOURCE_FRAMES, CC6_DELIVERY_SOURCE_SAMPLES,
    CC6_DELIVERY_SOURCE_SIZE, CC6_MOVING_SQUARE_SIZE, CC6_MOVING_SQUARE_STEP,
    CC6_MOVING_SQUARE_TOP,
};

#[test]
fn cc6_delivery_source_moves_the_pinned_element_across_the_sampled_frames() {
    let band_row: u32 = 28;
    let near_white_luma: u8 = 235;
    let band_grey_luma: u8 = 126;
    let clearance: u32 = 8;

    let (width, _height) = CC6_DELIVERY_SOURCE_SIZE;
    assert!(
        (CC6_MOVING_SQUARE_TOP..CC6_MOVING_SQUARE_TOP + CC6_MOVING_SQUARE_SIZE).contains(&band_row),
        "the sampled row must be inside the band the element travels through"
    );
    let mut positions = Vec::new();
    for frame in CC6_DELIVERY_SOURCE_SAMPLES.map(|frame| u32::try_from(frame).expect("a frame")) {
        assert!(frame < CC6_DELIVERY_SOURCE_FRAMES);
        let planes = cc6_source_frame_planes(CC6_DELIVERY_SOURCE_SIZE, frame);
        let luma = |x: u32| planes[(band_row * width + x) as usize];
        let square_left = CC6_MOVING_SQUARE_STEP * frame;
        positions.push(square_left);

        // Eight pixels into the element: its middle column, near-white.
        let inside = square_left + clearance;
        assert_eq!(
            cc6_source_base_rgb(inside, band_row, frame),
            [255, 255, 255],
            "frame {frame}: the element must cover ({inside}, {band_row})"
        );
        assert_eq!(
            luma(inside),
            near_white_luma,
            "frame {frame}: ({inside}, {band_row}) must be written as near-white limited luma"
        );

        // Eight pixels clear of it, in the same band: the surround grey, on the
        // right where there is no room on the left.
        let outside = if square_left >= clearance {
            square_left - clearance
        } else {
            square_left + CC6_MOVING_SQUARE_SIZE + clearance
        };
        assert!(outside < width);
        assert_eq!(
            cc6_source_base_rgb(outside, band_row, frame),
            [128, 128, 128],
            "frame {frame}: the element must not cover ({outside}, {band_row})"
        );
        assert_eq!(
            luma(outside),
            band_grey_luma,
            "frame {frame}: ({outside}, {band_row}) must be written as the band's surround grey"
        );
    }
    assert_eq!(positions.len(), CC6_DELIVERY_SOURCE_SAMPLES.len());
    assert!(positions.windows(2).all(|pair| pair[0] < pair[1]));
    assert!(
        positions
            .windows(2)
            .all(|pair| pair[1] - pair[0] >= CC6_MOVING_SQUARE_SIZE),
        "two consecutive sampled frames must not show the element in overlapping columns: \
         {positions:?}"
    );
}

/// The forward matrix in double precision.
fn by_double_precision(rgb: [u8; 3]) -> [u8; 3] {
    let [red, green, blue] = rgb.map(|code| f64::from(code) / 255.0);
    let green_weight = 1.0 - 0.2126 - 0.0722;
    let luma = 0.2126 * red + green_weight * green + 0.0722 * blue;
    let cb = (blue - luma) / 1.8556;
    let cr = (red - luma) / 1.5748;
    [
        (16.0 + 219.0 * luma).round().clamp(0.0, 255.0) as u8,
        (128.0 + 224.0 * cb).round().clamp(0.0, 255.0) as u8,
        (128.0 + 224.0 * cr).round().clamp(0.0, 255.0) as u8,
    ]
}

#[test]
fn source_codes_are_those_of_double_precision() {
    for red in (0..=255_u8).step_by(3) {
        for green in (0..=255_u8).step_by(5) {
            for blue in (0..=255_u8).step_by(3) {
                let rgb = [red, green, blue];
                assert_eq!(bt709_limited_source_codes(rgb), by_double_precision(rgb), "{rgb:?}");
            }
        }
    }
}

#[test]
fn codes_of_every_exact_middle_are_those_of_double_precision() {
    let mut below = 0_usize;
    for red in 0..=255_u8 {
        for green in 0..=255_u8 {
            for blue in 0..=255_u8 {
                let parts =
                    2_126 * u64::from(red) + 7_152 * u64::from(green) + 722 * u64::from(blue);
                if (438 * parts + 2_550_000) % 5_100_000 != 0 {
                    continue;
                }
                let rgb = [red, green, blue];
                let codes = bt709_limited_source_codes(rgb);
                assert_eq!(codes, by_double_precision(rgb), "{rgb:?}");
                if u64::from(codes[0]) < 16 + (438 * parts + 2_550_000) / 5_100_000 {
                    below += 1;
                }
            }
        }
    }
    assert_eq!(below, 15);
}

#[test]
fn source_codes_have_known_values() {
    assert_eq!(bt709_limited_source_codes([0, 0, 0]), [16, 128, 128]);
    assert_eq!(bt709_limited_source_codes([255, 255, 255]), [235, 128, 128]);
    assert_eq!(bt709_limited_source_codes([128, 128, 128]), [126, 128, 128]);
    assert_eq!(bt709_limited_source_codes([255, 0, 0]), [63, 102, 240]);
    assert_eq!(bt709_limited_source_codes([0, 0, 255]), [32, 240, 118]);
}

#[test]
fn base_raster_shows_its_parts() {
    assert_eq!(cc6_source_base_rgb(0, 0, 0), [0, 0, 0]);
    assert_eq!(cc6_source_base_rgb(319, 19, 0), [255, 255, 255]);
    assert_eq!(cc6_source_base_rgb(48, 36, 0), [255, 0, 0]);
    assert_eq!(cc6_source_base_rgb(0, 76, 0), [217, 173, 153]);
    assert_eq!(cc6_source_base_rgb(79, 116, 0), [0, 0, 255]);
    assert_eq!(cc6_source_base_rgb(80, 116, 0), [0, 255, 0]);
    assert_eq!(cc6_source_base_rgb(200, 60, 0), [115, 115, 115]);
}

#[test]
fn a_larger_source_repeats_each_pixel() {
    let base = cc6_source_frame_planes((320, 180), 3);
    let large = cc6_source_frame_planes((640, 360), 3);
    assert_eq!(large.len(), 4 * base.len());
    for (x, y) in [(0_usize, 0_usize), (17, 25), (319, 179), (100, 120)] {
        for plane in 0..3_usize {
            let small = base[plane * 320 * 180 + y * 320 + x];
            for (dx, dy) in [(0, 0), (1, 0), (0, 1), (1, 1)] {
                let at = plane * 640 * 360 + (2 * y + dy) * 640 + 2 * x + dx;
                assert_eq!(large[at], small);
            }
        }
    }
}

#[test]
fn a_source_holds_its_frames_and_its_recipe() {
    let source = cc6_delivery_source("/tmp/raw.yuv", (320, 180), 2);
    assert_eq!(source.raw.len(), 320 * 180 * 3 * 2);
    assert_eq!(
        source.raw[320 * 180 * 3..],
        cc6_source_frame_planes((320, 180), 1)[..]
    );
    assert_eq!(source.arguments.len(), 28);
    assert_eq!(source.arguments[..10].join(" "), "-f rawvideo -pix_fmt yuv444p -s 320x180 -r 25 -i /tmp/raw.yuv");
    assert_eq!(source.arguments[26..].join(" "), "-color_range tv");
    assert_eq!(cc6_delivery_source("raw", (320, 180), 0).raw.len(), 0);
}

#[test]
fn samples_span_a_document() {
    assert_eq!(cc7_expected_sample_frames(60), vec![0, 14, 29, 44, 59]);
    assert_eq!(cc7_expected_sample_frames(5), vec![0, 1, 2, 3, 4]);
    assert_eq!(cc7_expected_sample_frames(1), vec![0, 0, 0, 0, 0]);
    assert_eq!(cc7_expected_sample_frames(0), vec![0, 0, 0, 0, -1]);
}
