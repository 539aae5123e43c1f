use dsu::format::{resolve_format, ArchiveFormat};

#[test]
fn resolves_simple_suffixes() {
    assert!(matches!(resolve_format("notes.tar"), ArchiveFormat::Tar));
    assert!(matches!(resolve_format("a.zip"), ArchiveFormat::Zip));
    assert!(matches!(resolve_format("a.rar"), ArchiveFormat::Rar));
    assert!(matches!(resolve_format("a.7z"), ArchiveFormat::SevenZip));
    assert!(matches!(resolve_format("data.gz"), ArchiveFormat::Gzip));
}

#[test]
fn compound_suffixes_win_over_simple_ones() {
    assert!(matches!(resolve_format("x.tar.gz"), ArchiveFormat::TarGz));
    assert!(matches!(resolve_format("x.tgz"), ArchiveFormat::TarGz));
    assert!(matches!(resolve_format("x.tar.7z"), ArchiveFormat::TarSevenZip));
}

#[test]
fn resolution_is_case_insensitive() {
    assert!(matches!(resolve_format("ARCHIVE.TAR.GZ"), ArchiveFormat::TarGz));
    assert!(matches!(resolve_format("archive.tar.gz"), ArchiveFormat::TarGz));
    assert!(matches!(resolve_format("A.ZIP"), ArchiveFormat::Zip));
    assert!(matches!(resolve_format("A.Tar"), ArchiveFormat::Tar));
}

#[test]
fn planned_formats_are_distinct_from_unknown() {
    match resolve_format("foo.tar.bz2") {
        ArchiveFormat::PlannedUnsupported(ext) => assert_eq!(ext, "tar.bz2"),
        _ => panic!("expected a planned format"),
    }
    match resolve_format("foo.tbz") {
        ArchiveFormat::PlannedUnsupported(ext) => assert_eq!(ext, "tbz"),
        _ => panic!("expected a planned format"),
    }
    match resolve_format("foo.xz") {
        ArchiveFormat::PlannedUnsupported(ext) => assert_eq!(ext, "xz"),
        _ => panic!("expected a planned format"),
    }
    match resolve_format("foo.xyz") {
        ArchiveFormat::Unknown(ext) => assert_eq!(ext, "xyz"),
        _ => panic!("expected an unknown format"),
    }
}

#[test]
fn unknown_extension_is_lowercased_and_may_be_empty() {
    match resolve_format("FOO.XYZ") {
        ArchiveFormat::Unknown(ext) => assert_eq!(ext, "xyz"),
        _ => panic!("expected an unknown format"),
    }
    match resolve_format("noext") {
        ArchiveFormat::Unknown(ext) => assert_eq!(ext, ""),
        _ => panic!("expected an unknown format"),
    }
    // A bare hidden-file name has no extension to go by.
    match resolve_format(".tar") {
        ArchiveFormat::Unknown(ext) => assert_eq!(ext, ""),
        _ => panic!("expected an unknown format"),
    }
}
