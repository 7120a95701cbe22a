use lidar_sequence_viewer::sequence::{
    count_folder_files_with_extension, frame_file_name, frame_file_path, has_extension,
    is_valid_label_dir, read_sequence_from_dir, FolderProbe, LoadState, SequenceReadError,
};

fn numbered(count: usize, ext: &str) -> FolderProbe {
    let names = (0..count).map(|i| format!("{:0>6}.{}", i, ext)).collect();
    FolderProbe::Files(names)
}

#[test]
fn sequence_from_velodyne_subfolder_without_labels() {
    let r = read_sequence_from_dir(
        "seq",
        &numbered(50, "bin"),
        &FolderProbe::Missing,
        &FolderProbe::Missing,
    );
    let s = r.unwrap_or_else(|_| panic!("expected a sequence"));
    assert_eq!(s.frame_count, 50);
    assert_eq!(s.point_folder, "seq/velodyne");
    assert!(s.label_folder.is_none());
    assert_eq!(s.frames.len(), 50);
    assert_eq!(s.load_states.len(), 50);
    assert!(s.frames.iter().all(|f| f.is_none()));
    assert!(s.load_states.iter().all(|l| *l == LoadState::NotRequested));
}

#[test]
fn sequence_pairs_label_folder_on_exact_count() {
    let r = read_sequence_from_dir(
        "seq",
        &numbered(50, "bin"),
        &FolderProbe::Missing,
        &numbered(50, "label"),
    );
    let s = r.unwrap_or_else(|_| panic!("expected a sequence"));
    assert_eq!(s.frame_count, 50);
    assert_eq!(s.label_folder.as_deref(), Some("seq/labels"));
}

#[test]
fn sequence_skips_label_folder_on_count_mismatch() {
    // 49 label files for 50 frames: silently label-less, not an error.
    let r = read_sequence_from_dir(
        "seq",
        &numbered(50, "bin"),
        &FolderProbe::Missing,
        &numbered(49, "label"),
    );
    let s = r.unwrap_or_else(|_| panic!("expected a sequence"));
    assert_eq!(s.frame_count, 50);
    assert!(s.label_folder.is_none());
}

#[test]
fn sequence_falls_back_to_root_folder() {
    let r = read_sequence_from_dir(
        "data",
        &FolderProbe::Missing,
        &numbered(3, "bin"),
        &FolderProbe::Missing,
    );
    let s = r.unwrap_or_else(|_| panic!("expected a sequence"));
    assert_eq!(s.frame_count, 3);
    assert_eq!(s.point_folder, "data");
}

#[test]
fn sequence_ignores_files_with_other_extensions() {
    let names = vec![
        "000000.bin".to_string(),
        "000001.bin".to_string(),
        "notes.txt".to_string(),
        "bin".to_string(),
        ".bin".to_string(),
    ];
    let r = read_sequence_from_dir(
        "seq",
        &FolderProbe::Files(names),
        &FolderProbe::Missing,
        &FolderProbe::Missing,
    );
    assert_eq!(r.unwrap_or_else(|_| panic!("expected a sequence")).frame_count, 2);
}

#[test]
fn sequence_falls_back_when_velodyne_is_empty() {
    // an existing but empty velodyne subfolder counts as absent: the
    // points are taken from the root folder itself
    let r = read_sequence_from_dir(
        "data",
        &numbered(0, "bin"),
        &numbered(4, "bin"),
        &FolderProbe::Missing,
    );
    let s = r.unwrap_or_else(|_| panic!("expected a sequence"));
    assert_eq!(s.frame_count, 4);
    assert_eq!(s.point_folder, "data");
}

#[test]
fn sequence_missing_everywhere_is_folder_dont_exist() {
    let r = read_sequence_from_dir(
        "seq",
        &FolderProbe::Missing,
        &FolderProbe::Missing,
        &FolderProbe::Missing,
    );
    assert!(matches!(r, Err(SequenceReadError::FolderDontExist)));
}

#[test]
fn sequence_without_point_files_names_the_extension() {
    // both locations exist and neither holds a point file
    let r = read_sequence_from_dir(
        "seq",
        &numbered(0, "bin"),
        &numbered(0, "bin"),
        &FolderProbe::Missing,
    );
    match r {
        Err(SequenceReadError::MissingFilesWithExtension(e)) => assert_eq!(e, "bin"),
        _ => panic!("expected MissingFilesWithExtension"),
    }
}

#[test]
fn sequence_unreadable_point_folder_reports_read_error() {
    let r = read_sequence_from_dir(
        "seq",
        &FolderProbe::Unreadable("permission denied".to_string()),
        &FolderProbe::Missing,
        &FolderProbe::Missing,
    );
    match r {
        Err(SequenceReadError::ReadFolder(m)) => assert_eq!(m, "permission denied"),
        _ => panic!("expected ReadFolder"),
    }
}

#[test]
fn sequence_unreadable_label_folder_aborts_open() {
    let r = read_sequence_from_dir(
        "seq",
        &numbered(2, "bin"),
        &FolderProbe::Missing,
        &FolderProbe::Unreadable("io".to_string()),
    );
    assert!(matches!(r, Err(SequenceReadError::ReadFolder(_))));
}

#[test]
fn valid_label_dir_accepts_exact_count() {
    assert!(is_valid_label_dir(&numbered(50, "label"), 50).is_ok());
}

#[test]
fn label_count_mismatch_is_reported() {
    // 49 label files for 50 expected frames.
    match is_valid_label_dir(&numbered(49, "label"), 50) {
        Err(SequenceReadError::LabelFilesCountMismatch { expected, received }) => {
            assert_eq!(expected, 50);
            assert_eq!(received, 49);
        },
        _ => panic!("expected LabelFilesCountMismatch"),
    }
}

#[test]
fn empty_label_dir_is_missing_files() {
    match is_valid_label_dir(&numbered(0, "label"), 50) {
        Err(SequenceReadError::MissingFilesWithExtension(e)) => assert_eq!(e, "label"),
        _ => panic!("expected MissingFilesWithExtension"),
    }
}

#[test]
fn empty_label_dir_is_rejected_even_for_an_empty_range() {
    // at least one label file is required, whatever count was expected
    match is_valid_label_dir(&numbered(0, "label"), 0) {
        Err(SequenceReadError::MissingFilesWithExtension(e)) => assert_eq!(e, "label"),
        _ => panic!("expected MissingFilesWithExtension"),
    }
}

#[test]
fn absent_label_dir_is_folder_dont_exist() {
    assert!(matches!(
        is_valid_label_dir(&FolderProbe::Missing, 5),
        Err(SequenceReadError::FolderDontExist)
    ));
}

#[test]
fn count_folder_files_reports_probe_outcomes() {
    assert_eq!(count_folder_files_with_extension(&numbered(7, "bin"), "bin").ok(), Some(7));
    assert!(matches!(
        count_folder_files_with_extension(&FolderProbe::Missing, "bin"),
        Err(SequenceReadError::FolderDontExist)
    ));
    assert!(matches!(
        count_folder_files_with_extension(&FolderProbe::Unreadable("x".to_string()), "bin"),
        Err(SequenceReadError::ReadFolder(_))
    ));
}

#[test]
fn extension_matching_rules() {
    assert!(has_extension("000000.bin", "bin"));
    assert!(has_extension("a.b.bin", "bin"));
    assert!(!has_extension("bin", "bin"));
    assert!(!has_extension(".bin", "bin"));
    assert!(!has_extension("000000.label", "bin"));
    assert!(!has_extension("000000.bin.bak", "bin"));
    assert!(!has_extension("x.binx", "bin"));
    assert!(!has_extension("", "bin"));
}

#[test]
fn frame_file_names_are_zero_padded_to_six_digits() {
    assert_eq!(frame_file_name(0, "bin"), "000000.bin");
    assert_eq!(frame_file_name(42, "bin"), "000042.bin");
    assert_eq!(frame_file_name(123456, "label"), "123456.label");
    assert_eq!(frame_file_name(1234567, "bin"), "1234567.bin");
}

#[test]
fn frame_file_paths_join_folder_and_name() {
    assert_eq!(frame_file_path("seq/velodyne", 7, "bin"), "seq/velodyne/000007.bin");
    assert_eq!(frame_file_path("seq/labels", 31, "label"), "seq/labels/000031.label");
}
