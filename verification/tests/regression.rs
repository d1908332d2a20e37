use typpkg::error::RunEnd;
use typpkg::hash::{count_ones, distance};
use typpkg::tester::{
    compare, compile_tests, evaluate, judge, next_step, test_documents, Evidence, Raster, TestCase,
    TestOutcome, TestStep,
};

fn gradient(width: u32, height: u32) -> Vec<u8> {
    let mut luma = Vec::new();
    for y in 0..height {
        for x in 0..width {
            luma.push(((x * 255) / width.max(1)) as u8 ^ ((y * 7) as u8));
        }
    }
    luma
}

fn squares(width: u32, height: u32) -> Vec<u8> {
    let mut luma = Vec::new();
    for y in 0..height {
        for x in 0..width {
            luma.push(if (x / 8 + y / 8) % 2 == 0 { 0 } else { 255 });
        }
    }
    luma
}

#[test]
fn bits_are_counted() {
    for x in 0..=255u8 {
        assert_eq!(count_ones(x), x.count_ones());
    }
}

#[test]
fn distance_is_the_hamming_distance() {
    let a = [0u8, 1, 2, 3, 0xff, 0x0f, 0xaa, 0x55];
    let b = [0u8, 0, 3, 3, 0x00, 0xf0, 0x55, 0x55];
    assert_eq!(distance(&a, &a), 0);
    assert_eq!(distance(&a, &b), 0 + 1 + 1 + 0 + 8 + 8 + 8 + 0);
    assert_eq!(distance(&b, &a), distance(&a, &b));
    let x = image_hasher::ImageHash::<Box<[u8]>>::from_bytes(&a).unwrap();
    let y = image_hasher::ImageHash::<Box<[u8]>>::from_bytes(&b).unwrap();
    assert_eq!(distance(&a, &b), x.dist(&y));
}

#[test]
fn hashes_are_shown_in_base64_without_padding() {
    let zero = [0u8; 8];
    for bytes in [[0xffu8; 8], [1, 2, 3, 4, 5, 6, 7, 8], [0x80, 0x7f, 0x3e, 0x3f, 0xfb, 0xf0, 0x0f, 0xc3]] {
        let h = image_hasher::ImageHash::<Box<[u8]>>::from_bytes(&bytes).unwrap();
        let z = image_hasher::ImageHash::<Box<[u8]>>::from_bytes(&zero).unwrap();
        match judge(&zero, &bytes) {
            TestOutcome::Mismatch { old_hash, new_hash, distance } => {
                assert_eq!(old_hash, "AAAAAAAAAAA");
                assert_eq!(old_hash, z.to_base64());
                assert_eq!(new_hash, h.to_base64());
                assert_eq!(new_hash.len(), 11);
                assert_eq!(distance, z.dist(&h));
            }
            _ => panic!("the hashes differ"),
        }
    }
    match judge(&[0xfb, 0xff, 0xfe, 0, 0, 0, 0, 0], &zero) {
        TestOutcome::Mismatch { old_hash, .. } => assert_eq!(old_hash, "+//+AAAAAAA"),
        _ => panic!("the hashes differ"),
    }
}

#[test]
fn raster_needs_one_byte_per_pixel() {
    assert!(Raster::new(2, 3, vec![0; 6]).is_some());
    assert!(Raster::new(2, 3, vec![0; 5]).is_none());
    assert!(Raster::new(2, 3, vec![0; 7]).is_none());
    assert!(Raster::new(0, 0, vec![]).is_some());
    assert!(Raster::new(0, 5, vec![0]).is_none());
}

#[test]
fn raster_hash_is_the_hash_of_the_grey_image() {
    let hasher = image_hasher::HasherConfig::new().to_hasher();
    for (w, h, luma) in [(64u32, 48u32, gradient(64, 48)), (40, 40, squares(40, 40)), (3, 2, vec![0, 50, 100, 150, 200, 250])] {
        let grey = image::GrayImage::from_raw(w, h, luma.clone()).unwrap();
        let expected = hasher.hash_image(&image::DynamicImage::ImageLuma8(grey));
        let raster = Raster::new(w, h, luma).unwrap();
        assert_eq!(&raster.hash()[..], expected.as_bytes());
    }
    let rgba = image::RgbaImage::from_fn(32, 32, |x, y| image::Rgba([(x * 8) as u8, (y * 8) as u8, 128, 255]));
    let dynamic = image::DynamicImage::ImageRgba8(rgba);
    let expected = hasher.hash_image(&dynamic);
    let raster = Raster::new(32, 32, dynamic.to_luma8().into_raw()).unwrap();
    assert_eq!(&raster.hash()[..], expected.as_bytes());
}

#[test]
fn gradient_and_squares_hash_differently() {
    let a = Raster::new(64, 64, gradient(64, 64)).unwrap();
    let b = Raster::new(64, 64, squares(64, 64)).unwrap();
    assert_ne!(a.hash(), b.hash());
    assert_ne!(a.hash(), [0u8; 8]);
}

#[test]
fn identical_renderings_pass() {
    let a = Raster::new(64, 48, gradient(64, 48)).unwrap();
    let b = Raster::new(64, 48, gradient(64, 48)).unwrap();
    assert!(a.same_as(&b));
    assert!(matches!(compare(&a, &b), TestOutcome::Passed));
    assert!(matches!(judge(&a.hash(), &b.hash()), TestOutcome::Passed));
}

#[test]
fn different_renderings_are_reported_with_both_hashes() {
    let a = Raster::new(64, 64, gradient(64, 64)).unwrap();
    let b = Raster::new(64, 64, squares(64, 64)).unwrap();
    assert!(!a.same_as(&b));
    let hasher = image_hasher::HasherConfig::new().to_hasher();
    let old = hasher.hash_image(&image::GrayImage::from_raw(64, 64, gradient(64, 64)).unwrap());
    let new = hasher.hash_image(&image::GrayImage::from_raw(64, 64, squares(64, 64)).unwrap());
    match compare(&a, &b) {
        TestOutcome::Mismatch { old_hash, new_hash, distance } => {
            assert!(distance > 0);
            assert_eq!(distance, old.dist(&new));
            assert_eq!(old_hash, old.to_base64());
            assert_eq!(new_hash, new.to_base64());
        }
        _ => panic!("the two images differ"),
    }
}

#[test]
fn rasters_of_different_shape_are_not_the_same() {
    let a = Raster::new(4, 2, vec![9; 8]).unwrap();
    let b = Raster::new(2, 4, vec![9; 8]).unwrap();
    assert!(!a.same_as(&b));
    assert!(a.same_as(&a));
}

#[test]
fn judge_reports_distance_and_hashes() {
    let old = [0u8; 8];
    let mut new = [0u8; 8];
    new[3] = 0b0000_0101;
    match judge(&old, &new) {
        TestOutcome::Mismatch { old_hash, new_hash, distance } => {
            assert_eq!(distance, 2);
            assert_eq!(old_hash, "AAAAAAAAAAA");
            assert_eq!(new_hash, "AAAABQAAAAA");
        }
        _ => panic!("two bits differ"),
    }
    assert!(matches!(judge(&new, &new), TestOutcome::Passed));
}

#[test]
fn missing_baseline_is_a_warning_not_a_failure() {
    assert!(matches!(evaluate(&Evidence::NoBaseline), Ok(TestOutcome::MissingBaseline)));
    let report = compile_tests(&vec![Evidence::NoBaseline, Evidence::NoBaseline]).ok().unwrap();
    assert_eq!(report.outcomes.len(), 2);
    assert_eq!(report.passed, 0);
    assert_eq!(report.failed, 0);
}

#[test]
fn every_test_is_evaluated() {
    let same = || Raster::new(64, 64, gradient(64, 64)).unwrap();
    let other = || Raster::new(64, 64, squares(64, 64)).unwrap();
    let evidence = vec![
        Evidence::Rendered { baseline: same(), fresh: other() },
        Evidence::NoBaseline,
        Evidence::Rendered { baseline: same(), fresh: same() },
        Evidence::Rendered { baseline: other(), fresh: same() },
        Evidence::Rendered { baseline: other(), fresh: other() },
    ];
    let report = compile_tests(&evidence).ok().unwrap();
    assert_eq!(report.outcomes.len(), 5);
    assert!(matches!(report.outcomes[0], TestOutcome::Mismatch { .. }));
    assert!(matches!(report.outcomes[1], TestOutcome::MissingBaseline));
    assert!(matches!(report.outcomes[2], TestOutcome::Passed));
    assert!(matches!(report.outcomes[3], TestOutcome::Mismatch { .. }));
    assert!(matches!(report.outcomes[4], TestOutcome::Passed));
    assert_eq!(report.passed, 2);
    assert_eq!(report.failed, 2);
    assert!(compile_tests(&Vec::new()).ok().unwrap().outcomes.is_empty());
}

#[test]
fn test_documents_are_the_typ_files() {
    let entries: Vec<String> = ["a.typ", "a.png", "deep", "deep/b.typ", "deep/b.png", "deep/notes.md", "c.typ.bak"]
        .iter()
        .map(|s| s.to_string())
        .collect();
    assert_eq!(test_documents(&entries).unwrap(), vec!["a.typ", "deep/b.typ"]);
    assert!(test_documents(&Vec::new()).unwrap().is_empty());
}

#[test]
fn test_case_paths() {
    let case = TestCase::locate("/work/pkg", "/tmp", "deep/b.typ");
    assert_eq!(case.document, "/work/pkg/tests/deep/b.typ");
    assert_eq!(case.baseline, "/work/pkg/tests/deep/b.png");
    assert_eq!(case.rendered, "/tmp/deep/b.png");
    let run = case.command("/work/pkg");
    assert_eq!(run.program, "typst");
    assert_eq!(run.arguments, vec!["c", "/work/pkg/tests/deep/b.typ", "/tmp/deep/b.png"]);
    assert_eq!(run.working_directory, "/work/pkg");
}

#[test]
fn small_and_empty_rasters_have_a_hash() {
    let empty = Raster::new(0, 0, vec![]).unwrap();
    let dot = Raster::new(1, 1, vec![200]).unwrap();
    let line = Raster::new(5, 1, vec![0, 60, 120, 180, 240]).unwrap();
    assert_eq!(empty.hash().len(), 8);
    assert_eq!(dot.hash().len(), 8);
    assert_eq!(line.hash().len(), 8);
    assert!(matches!(compare(&dot, &dot), TestOutcome::Passed));
    assert!(matches!(compare(&empty, &empty), TestOutcome::Passed));
}

#[test]
fn a_document_that_was_not_rendered_ends_the_tests() {
    let case = TestCase::locate("/work/pkg", "/tmp", "b.typ");
    let failure = case.command("/work/pkg").finished(RunEnd::Exited(1)).err().unwrap();
    assert_eq!(failure.document, "/work/pkg/tests/b.typ");
    let later = case.command("/work/pkg").finished(RunEnd::NotStarted).err().unwrap();
    let same = || Raster::new(8, 8, gradient(8, 8)).unwrap();
    let evidence = vec![
        Evidence::NoBaseline,
        Evidence::Rendered { baseline: same(), fresh: same() },
        Evidence::Failed(failure),
        Evidence::Failed(later),
    ];
    let e = compile_tests(&evidence).err().unwrap();
    assert_eq!(e.program, "typst");
    assert_eq!(e.document, "/work/pkg/tests/b.typ");
    assert_eq!(e.end, RunEnd::Exited(1));
    assert!(evaluate(&evidence[2]).is_err());
    assert!(evaluate(&evidence[1]).is_ok());
}

#[test]
fn the_compiler_is_started_only_for_documents_with_a_baseline() {
    let case = TestCase::locate("/work/pkg", "/tmp/s", "deep/b.typ");
    assert!(matches!(next_step(&case, "/work/pkg", false), TestStep::Warn));
    match next_step(&case, "/work/pkg", true) {
        TestStep::Render(run) => {
            assert_eq!(run.program, "typst");
            assert_eq!(run.arguments, vec!["c", "/work/pkg/tests/deep/b.typ", "/tmp/s/deep/b.png"]);
            assert_eq!(run.working_directory, "/work/pkg");
            assert_eq!(run.document, "/work/pkg/tests/deep/b.typ");
        }
        TestStep::Warn => panic!("a document with a baseline is rendered"),
    }
}
