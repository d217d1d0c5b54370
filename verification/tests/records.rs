use kinewright_media::cube::{
    assert_luts_verified, cc7_import_log_inverse_cube, cube_text, fixture_luts, CanonicalCube,
    CubeImportFailure, LutAvailability, LutRecord,
};
use kinewright_media::evidence::{record_contract, Suite};
use kinewright_media::numbers::{decimal_text, parse_usize};
use kinewright_media::recipes::{cc5_matte_source, raw_source_recipe, tracking_source};
use kinewright_media::text::{chars_of, find, split_lines, trimmed};

#[test]
fn a_record_needs_a_declared_name() {
    assert_eq!(record_contract(Suite::Matte, "cc5_performance"), Some("cc5_secondaries"));
    assert_eq!(record_contract(Suite::Delivery, "cc5_performance"), None);
    assert_eq!(
        record_contract(
            Suite::Delivery,
            "cc6_starved_bitrate_export_trips_the_decoded_difference_budget"
        ),
        Some("cc6_qc_and_managed_delivery")
    );
    assert_eq!(
        record_contract(Suite::Workflow, "cc7_every_scenario_verifies_at_eight_bits"),
        Some("cc7_workflow_evaluation")
    );
    assert_eq!(record_contract(Suite::Workflow, ""), None);
}

#[test]
fn a_lattice_is_written_with_red_running_fastest() {
    assert_eq!(
        cube_text([900_000, 1_000_000, 800_000]),
        "LUT_3D_SIZE 2\n\
         0.000000 0.000000 0.000000\n\
         0.900000 0.000000 0.000000\n\
         0.000000 1.000000 0.000000\n\
         0.900000 1.000000 0.000000\n\
         0.000000 0.000000 0.800000\n\
         0.900000 0.000000 0.800000\n\
         0.000000 1.000000 0.800000\n\
         0.900000 1.000000 0.800000\n"
    );
    assert!(cube_text([12, 345, 67_890]).contains("0.000012 0.000345 0.067890"));
    let luts = fixture_luts();
    assert_eq!(luts.len(), 2);
    assert_eq!((luts[0].asset, luts[0].file_name.as_str()), (1, "cc5-look-0.cube"));
    assert_eq!((luts[1].asset, luts[1].file_name.as_str()), (2, "cc5-look-1.cube"));
    assert_eq!(luts[1].text, cube_text([900_000, 1_000_000, 800_000]));
}

#[test]
fn recipes_carry_their_tags() {
    let matte = cc5_matte_source("cc5-a");
    assert_eq!((matte.label.as_str(), matte.extension), ("cc5-a", "mkv"));
    assert_eq!(matte.arguments[3], "color=c=gray:size=64x36:rate=25:duration=1");
    let shot = tracking_source("cc5-b");
    assert_eq!((shot.label.as_str(), shot.extension), ("cc5-b", "mp4"));
    assert_eq!(shot.arguments.len(), 26);
    let raw = raw_source_recipe((1_920, 1_080), 24, "a path");
    assert_eq!(raw[5], "1920x1080");
    assert_eq!(raw[7], "24");
    assert_eq!(raw[9], "a path");
}

#[test]
fn numbers_are_read_back_from_their_text() {
    for number in [0_u64, 7, 10, 99, 1_080, u64::MAX] {
        assert_eq!(decimal_text(number), number.to_string());
    }
    assert_eq!(parse_usize(&chars_of("0042")), Some(42));
    assert_eq!(parse_usize(&chars_of("")), None);
    assert_eq!(parse_usize(&chars_of("4a")), None);
}

#[test]
fn text_is_taken_apart_by_characters() {
    let line = chars_of("\u{2003} fn name() \t");
    assert_eq!(trimmed(&line), chars_of("fn name()"));
    assert_eq!(find(&chars_of("aab"), &chars_of("ab")), Some(1));
    assert_eq!(find(&chars_of("aab"), &chars_of("ba")), None);
    let lines = split_lines(&chars_of("a\r\nb\n\nc"));
    assert_eq!(lines, vec![chars_of("a"), chars_of("b"), Vec::new(), chars_of("c")]);
}

fn log_record(title: &str, size: u32) -> LutRecord {
    LutRecord {
        asset: 1,
        title: title.to_owned(),
        size,
        sha256: "ab".to_owned(),
        byte_len: 10,
        source: "log.cube".to_owned(),
    }
}

#[test]
fn only_the_canonical_lattice_is_held_to_the_scenario() {
    let canonical = CanonicalCube {
        record: log_record("Log inverse", 33),
        size: 33,
        title: "Log inverse".to_owned(),
    };
    let verified = [LutAvailability::Verified];
    let imported = log_record("Log inverse", 33);
    assert_eq!(
        cc7_import_log_inverse_cube(&imported, false, 33, &canonical, &verified),
        Ok(())
    );
    let other = log_record("Another", 33);
    assert_eq!(
        cc7_import_log_inverse_cube(&other, false, 33, &canonical, &verified),
        Err(CubeImportFailure::RecordDiffers)
    );
    assert_eq!(
        cc7_import_log_inverse_cube(&other, true, 33, &canonical, &verified),
        Ok(())
    );
    assert_eq!(
        cc7_import_log_inverse_cube(&other, false, 17, &canonical, &verified),
        Ok(())
    );
    let retitled = CanonicalCube {
        record: log_record("Another", 33),
        size: 33,
        title: "Log inverse".to_owned(),
    };
    assert_eq!(
        cc7_import_log_inverse_cube(&other, false, 33, &retitled, &verified),
        Err(CubeImportFailure::TitleDiffers)
    );
    let resized = CanonicalCube {
        record: log_record("Log inverse", 17),
        size: 33,
        title: "Log inverse".to_owned(),
    };
    assert_eq!(
        cc7_import_log_inverse_cube(
            &log_record("Log inverse", 17),
            false,
            33,
            &resized,
            &verified
        ),
        Err(CubeImportFailure::SizeDiffers)
    );
    assert_eq!(
        cc7_import_log_inverse_cube(
            &imported,
            false,
            33,
            &canonical,
            &[LutAvailability::Verified, LutAvailability::Other]
        ),
        Err(CubeImportFailure::NotVerified { index: 1 })
    );
    assert_eq!(assert_luts_verified(&[]), Ok(()));
    assert_eq!(
        assert_luts_verified(&[LutAvailability::Other, LutAvailability::Other]),
        Err(0)
    );
}
