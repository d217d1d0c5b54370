use half::f16;
use kinewright_media::qc_raster::{
    cc6_qc_raster, QcPatches, BELOW_BLACK, CC6_CHART_SURROUND, CC6_QC_RASTER,
    CC6_QC_RASTER_BASIS_POINTS, CC6_QC_RASTER_POPULATIONS, CC6_SUB_THRESHOLD_ROI, HALF_ONE,
    ISOLATED_OVER, OVER_BLOCK, UNDER_BLOCK,
};

fn bits(sample: [f32; 3]) -> [u16; 3] {
    sample.map(|value| f16::from_f32(value).to_bits())
}

/// Display samples as linear light.
fn decoded(sample: [f32; 3]) -> [u16; 3] {
    bits(sample.map(|encoded| {
        if encoded < 0.081 {
            encoded / 4.5
        } else {
            ((encoded + 0.099) / 1.099).powf(1.0 / 0.45)
        }
    }))
}

fn patches() -> QcPatches {
    QcPatches {
        skin: [
            decoded([0.85, 0.68, 0.60]),
            decoded([0.72, 0.53, 0.44]),
            decoded([0.55, 0.38, 0.30]),
            decoded([0.32, 0.20, 0.15]),
        ],
        product: [decoded([0.80, 0.10, 0.12]), decoded([0.10, 0.65, 0.75])],
    }
}

#[test]
fn cc6_qc_raster_populations_are_the_contract_table() {
    let raster = cc6_qc_raster(&patches());
    let pixels = u64::from(CC6_QC_RASTER.0 * CC6_QC_RASTER.1);
    assert_eq!(pixels, 3_200);
    assert_eq!(raster.frame.pixels.len(), (pixels * 4) as usize);
    assert_eq!(raster.populations, CC6_QC_RASTER_POPULATIONS);
    assert_eq!(
        raster.populations.iter().sum::<u32>(),
        CC6_QC_RASTER.0 * CC6_QC_RASTER.1
    );

    // One pixel is exactly 125 basis points horizontally and 250 vertically.
    assert_eq!(10_000 / u64::from(CC6_QC_RASTER.0), 125);
    assert_eq!(10_000 / u64::from(CC6_QC_RASTER.1), 250);

    let basis_points = |count: u64| u32::try_from(count * 10_000 / pixels).expect("basis points");
    let [ramp, over_block, under_block, skin, product, below_black, isolated_over, surround] =
        CC6_QC_RASTER_POPULATIONS.map(u64::from);
    assert_eq!(
        ramp + over_block + under_block + skin + product + below_black + isolated_over + surround,
        pixels
    );
    assert_eq!(skin, 4 * 96);
    assert_eq!(product, 2 * 96);

    // Over: the block and the isolated pixel.
    assert_eq!(over_block + isolated_over, 289);
    assert_eq!(basis_points(over_block + isolated_over), 903);
    // Under, red: the block and the pixel below black.
    assert_eq!(basis_points(under_block + below_black), 903);
    // Under, green and blue: the pixel below black alone.
    assert_eq!(basis_points(below_black), 3);
    // Gamut is the under-range pixel set exactly.
    assert_eq!(basis_points(under_block + below_black), 903);
    // Clamped is what is over or under.
    assert_eq!(
        basis_points(over_block + isolated_over + under_block + below_black),
        1_806
    );
    assert_eq!(
        [
            basis_points(over_block + isolated_over),
            basis_points(under_block + below_black),
            basis_points(below_black),
            basis_points(under_block + below_black),
            basis_points(over_block + isolated_over + under_block + below_black),
        ],
        CC6_QC_RASTER_BASIS_POINTS
    );
    // A single pixel can never trip the threshold at whole-raster scope.
    assert_eq!(basis_points(1), 3);
    assert!(basis_points(1) < 10);
    // ... while a block always does.
    assert_eq!(basis_points(288), 900);
    assert!(basis_points(288) >= 10);

    assert_eq!(CC6_SUB_THRESHOLD_ROI.2, 6_125);
    assert_eq!(CC6_SUB_THRESHOLD_ROI.3, 6_000);
    let roi_pixels = 49_u64 * 24;
    assert_eq!(roi_pixels, 1_176);
    assert_eq!(
        u64::from(CC6_QC_RASTER.0) * u64::from(CC6_SUB_THRESHOLD_ROI.2) / 10_000,
        49
    );
    assert_eq!(
        u64::from(CC6_QC_RASTER.1) * u64::from(CC6_SUB_THRESHOLD_ROI.3) / 10_000,
        24
    );
    // In it every counter is one pixel, below the threshold.
    assert_eq!(10_000 / roi_pixels, 8);
    assert!(10_000 / roi_pixels < 10);
}

#[test]
fn raster_samples_are_the_nearest_half_floats() {
    let patches = patches();
    let raster = cc6_qc_raster(&patches).frame;
    assert_eq!((raster.width, raster.height), CC6_QC_RASTER);
    for y in 0..40_u32 {
        for x in 0..80_u32 {
            let expected = if x < 48 && y < 24 {
                let fx = x as f32 / 47.0;
                let fy = y as f32 / 23.0;
                bits([fx, fy, f32::midpoint(fx, fy)])
            } else if x == 48 && y == 0 {
                bits([1.2, 1.2, 1.2])
            } else if x == 48 && y == 1 {
                bits([-0.02, -0.005, -0.005])
            } else if x < 36 && (24..32).contains(&y) {
                bits([1.05, 1.05, 1.05])
            } else if x < 36 && y >= 32 {
                bits([-0.01, 0.5, 0.5])
            } else if (36..60).contains(&x) && y >= 24 {
                patches.skin[usize::from(x >= 48) + 2 * usize::from(y >= 32)]
            } else if (60..72).contains(&x) && y >= 24 {
                patches.product[usize::from(y >= 32)]
            } else {
                bits([0.45, 0.45, 0.45])
            };
            let at = ((y * 80 + x) * 4) as usize;
            assert_eq!(raster.pixels[at..at + 3], expected, "({x}, {y})");
            assert_eq!(raster.pixels[at + 3], f16::from_f32(1.0).to_bits());
        }
    }
}

#[test]
fn named_samples_have_their_bits() {
    assert_eq!(bits([1.0, 1.2, 1.05])[0], HALF_ONE);
    assert_eq!(bits([1.2; 3]), ISOLATED_OVER);
    assert_eq!(bits([1.05; 3]), OVER_BLOCK);
    assert_eq!(bits([-0.02, -0.005, -0.005]), BELOW_BLACK);
    assert_eq!(bits([-0.01, 0.5, 0.5]), UNDER_BLOCK);
    assert_eq!(bits([0.45; 3]), CC6_CHART_SURROUND);
}
