use std::io::Write;

use dsu::error::ExtractError;
use dsu::xtract::{
    extract_7z, extract_gz, extract_tar, extract_tar7z, extract_targz, extract_zip,
    rar_entry_plan, Extraction, XtractArgs,
};

fn args(archive: &str, destination: &str) -> XtractArgs {
    XtractArgs {
        archive: archive.to_string(),
        destination: destination.to_string(),
        dry: false,
        list: false,
    }
}

fn make_tar(entries: &[(&str, &[u8], bool, u32)]) -> Vec<u8> {
    let mut builder = tar::Builder::new(Vec::new());
    for (name, data, is_dir, mode) in entries {
        let mut header = tar::Header::new_gnu();
        header.set_mode(*mode);
        if *is_dir {
            header.set_entry_type(tar::EntryType::dir());
            header.set_size(0);
            header.set_cksum();
            builder.append_data(&mut header, *name, &b""[..]).unwrap();
        } else {
            header.set_entry_type(tar::EntryType::file());
            header.set_size(data.len() as u64);
            header.set_cksum();
            builder.append_data(&mut header, *name, *data).unwrap();
        }
    }
    builder.into_inner().unwrap()
}

fn make_gz(data: &[u8]) -> Vec<u8> {
    let mut enc = flate2::write::GzEncoder::new(Vec::new(), flate2::Compression::default());
    enc.write_all(data).unwrap();
    enc.finish().unwrap()
}

fn make_7z(entries: &[(&str, &[u8], bool)]) -> Vec<u8> {
    let cursor = std::io::Cursor::new(Vec::new());
    let mut writer = sevenz_rust2::ArchiveWriter::new(cursor).unwrap();
    for (name, data, is_dir) in entries {
        let mut entry = sevenz_rust2::ArchiveEntry::default();
        entry.name = name.to_string();
        if *is_dir {
            entry.is_directory = true;
            writer.push_archive_entry::<&[u8]>(entry, None).unwrap();
        } else {
            entry.has_stream = true;
            writer.push_archive_entry(entry, Some(*data)).unwrap();
        }
    }
    writer.finish().unwrap().into_inner()
}

#[test]
fn tar_extraction_reproduces_the_entry_set() {
    let data = make_tar(&[
        ("c/", b"", true, 0o755),
        ("c/d.txt", b"hello tar", false, 0o644),
    ]);
    let plan = extract_tar(&data).unwrap();
    assert_eq!(plan.len(), 2);
    assert_eq!(plan[0].path, "c/");
    assert!(plan[0].is_dir);
    assert_eq!(plan[1].path, "c/d.txt");
    assert!(!plan[1].is_dir);
    assert_eq!(plan[1].data, b"hello tar");
    assert_eq!(plan[1].mode, Some(0o644));
}

#[test]
fn tar_entry_escaping_the_destination_is_skipped() {
    let mut builder = tar::Builder::new(Vec::new());
    let mut ok = tar::Header::new_gnu();
    ok.set_mode(0o644);
    ok.set_entry_type(tar::EntryType::file());
    ok.set_size(4);
    ok.set_cksum();
    builder.append_data(&mut ok, "ok.txt", &b"fine"[..]).unwrap();
    // The writer refuses traversal names, so the header bytes carry it raw.
    let mut evil = tar::Header::new_gnu();
    evil.set_mode(0o644);
    evil.set_entry_type(tar::EntryType::file());
    evil.set_size(4);
    let name = b"../escape.txt";
    evil.as_mut_bytes()[..name.len()].copy_from_slice(name);
    evil.set_cksum();
    builder.append(&evil, &b"evil"[..]).unwrap();
    let data = builder.into_inner().unwrap();
    let plan = extract_tar(&data).unwrap();
    assert_eq!(plan.len(), 1);
    assert_eq!(plan[0].path, "ok.txt");
}

#[test]
fn malformed_tar_fails_with_io_failure() {
    let data = vec![1u8; 700];
    assert!(matches!(extract_tar(&data), Err(ExtractError::IoFailure(_))));
}

#[test]
fn gz_extraction_yields_one_file_with_the_plain_bytes() {
    let data = make_gz(b"stream contents");
    let plan = extract_gz("data", &data).unwrap();
    assert_eq!(plan.len(), 1);
    assert_eq!(plan[0].path, "data");
    assert!(!plan[0].is_dir);
    assert_eq!(plan[0].data, b"stream contents");
}

#[test]
fn malformed_gz_fails_with_io_failure() {
    let data = vec![9u8; 40];
    assert!(matches!(extract_gz("data", &data), Err(ExtractError::IoFailure(_))));
}

#[test]
fn targz_extraction_chains_gzip_into_tar() {
    let tar = make_tar(&[("c/d.txt", b"nested", false, 0o600)]);
    let data = make_gz(&tar);
    let plan = extract_targz(&data).unwrap();
    assert_eq!(plan.len(), 1);
    assert_eq!(plan[0].path, "c/d.txt");
    assert_eq!(plan[0].data, b"nested");
}

fn make_zip_with_escape() -> Vec<u8> {
    let cursor = std::io::Cursor::new(Vec::new());
    let mut writer = zip::ZipWriter::new(cursor);
    let options = zip::write::SimpleFileOptions::default()
        .compression_method(zip::CompressionMethod::Stored)
        .unix_permissions(0o755);
    writer.start_file("a/b.txt", options).unwrap();
    writer.write_all(b"zip contents").unwrap();
    writer.start_file("../evil.txt", options).unwrap();
    writer.write_all(b"evil").unwrap();
    writer.add_directory("d", options).unwrap();
    writer.finish().unwrap().into_inner()
}

#[test]
fn zip_extraction_skips_escaping_entries_and_still_succeeds() {
    let data = make_zip_with_escape();
    let plan = extract_zip(&data).unwrap();
    assert_eq!(plan.len(), 2);
    assert_eq!(plan[0].path, "a/b.txt");
    assert!(!plan[0].is_dir);
    assert_eq!(plan[0].data, b"zip contents");
    assert_eq!(plan[0].mode, Some(0o100755));
    assert!(plan[0].note.is_none());
    assert_eq!(plan[1].path, "d/");
    assert!(plan[1].is_dir);
}

#[test]
fn zip_entry_comment_is_kept_as_a_note() {
    let cursor = std::io::Cursor::new(Vec::new());
    let mut writer = zip::ZipWriter::new(cursor);
    let options = zip::write::FullFileOptions::default()
        .compression_method(zip::CompressionMethod::Stored)
        .with_file_comment("a remark");
    writer.start_file("noted.txt", options).unwrap();
    writer.write_all(b"x").unwrap();
    let data = writer.finish().unwrap().into_inner();
    let plan = extract_zip(&data).unwrap();
    assert_eq!(plan.len(), 1);
    assert_eq!(plan[0].note.as_deref(), Some("a remark"));
}

fn crc32(data: &[u8]) -> u32 {
    let mut crc: u32 = 0xffff_ffff;
    for b in data {
        crc ^= *b as u32;
        for _ in 0..8 {
            let low = crc & 1;
            crc >>= 1;
            if low != 0 {
                crc ^= 0xedb8_8320;
            }
        }
    }
    !crc
}

fn le16(out: &mut Vec<u8>, v: u16) {
    out.extend_from_slice(&v.to_le_bytes());
}

fn le32(out: &mut Vec<u8>, v: u32) {
    out.extend_from_slice(&v.to_le_bytes());
}

/// A zip holding two stored entries under one name; writers refuse to build
/// such an archive, so the bytes are laid out by hand.
fn make_zip_with_duplicate_names(name: &str, first: &[u8], second: &[u8]) -> Vec<u8> {
    let mut out: Vec<u8> = Vec::new();
    let mut offsets: Vec<u32> = Vec::new();
    for data in [first, second] {
        offsets.push(out.len() as u32);
        out.extend_from_slice(b"PK\x03\x04");
        le16(&mut out, 20);
        le16(&mut out, 0);
        le16(&mut out, 0);
        le16(&mut out, 0);
        le16(&mut out, 0);
        le32(&mut out, crc32(data));
        le32(&mut out, data.len() as u32);
        le32(&mut out, data.len() as u32);
        le16(&mut out, name.len() as u16);
        le16(&mut out, 0);
        out.extend_from_slice(name.as_bytes());
        out.extend_from_slice(data);
    }
    let cd_start = out.len() as u32;
    for (data, offset) in [first, second].iter().zip(&offsets) {
        out.extend_from_slice(b"PK\x01\x02");
        le16(&mut out, 20);
        le16(&mut out, 20);
        le16(&mut out, 0);
        le16(&mut out, 0);
        le16(&mut out, 0);
        le16(&mut out, 0);
        le32(&mut out, crc32(data));
        le32(&mut out, data.len() as u32);
        le32(&mut out, data.len() as u32);
        le16(&mut out, name.len() as u16);
        le16(&mut out, 0);
        le16(&mut out, 0);
        le16(&mut out, 0);
        le16(&mut out, 0);
        le32(&mut out, 0);
        le32(&mut out, *offset);
        out.extend_from_slice(name.as_bytes());
    }
    let cd_size = out.len() as u32 - cd_start;
    out.extend_from_slice(b"PK\x05\x06");
    le16(&mut out, 0);
    le16(&mut out, 0);
    le16(&mut out, 2);
    le16(&mut out, 2);
    le32(&mut out, cd_size);
    le32(&mut out, cd_start);
    le16(&mut out, 0);
    out
}

#[test]
fn zip_duplicate_names_merge_to_the_later_entry() {
    // The decoder keys its directory by entry name, so two same-named
    // entries reach the plan as one; the later entry's bytes win.
    let data = make_zip_with_duplicate_names("dup.txt", b"one", b"two");
    let plan = extract_zip(&data).unwrap();
    assert_eq!(plan.len(), 1);
    assert_eq!(plan[0].path, "dup.txt");
    assert_eq!(plan[0].data, b"two");
}

#[test]
fn malformed_zip_fails_with_io_failure() {
    let data = vec![3u8; 100];
    assert!(matches!(extract_zip(&data), Err(ExtractError::IoFailure(_))));
}

#[test]
fn sevenz_extraction_reproduces_the_entry_set() {
    let data = make_7z(&[("e/", b"", true), ("e/f.txt", b"seven", false)]);
    let plan = extract_7z(&data).unwrap();
    assert_eq!(plan.len(), 2);
    // The decoder walks content blocks first, then the streamless entries.
    assert_eq!(plan[0].path, "e/f.txt");
    assert_eq!(plan[0].data, b"seven");
    assert!(!plan[0].is_dir);
    assert_eq!(plan[1].path, "e/");
    assert!(plan[1].is_dir);
}

#[test]
fn tar7z_extraction_matches_direct_tar_extraction() {
    let tar = make_tar(&[("c/d.txt", b"doubly nested", false, 0o640)]);
    let data = make_7z(&[("bundle.tar", &tar, false)]);
    let nested = extract_tar7z(&data).unwrap();
    let direct = extract_tar(&tar).unwrap();
    assert_eq!(nested.len(), direct.len());
    for (n, d) in nested.iter().zip(direct.iter()) {
        assert_eq!(n.path, d.path);
        assert_eq!(n.data, d.data);
        assert_eq!(n.is_dir, d.is_dir);
        assert_eq!(n.mode, d.mode);
    }
}

#[test]
fn tar7z_without_tar_member_fails_with_missing_member() {
    let data = make_7z(&[("readme.txt", b"no tar here", false)]);
    assert!(matches!(
        extract_tar7z(&data),
        Err(ExtractError::NestedArchiveMissingMember)
    ));
}

#[test]
fn process_dispatches_tar_under_the_resolved_destination() {
    let data = make_tar(&[("c/d.txt", b"hello", false, 0o644)]);
    let a = args("notes.tar", "/out");
    match a.process(data).unwrap() {
        Extraction::Entries(plan) => {
            assert_eq!(plan.dest_root, "/out/notes.tar");
            assert_eq!(plan.entries.len(), 1);
            assert_eq!(plan.entries[0].path, "c/d.txt");
        }
        _ => panic!("expected an in-memory plan"),
    }
}

#[test]
fn process_keeps_zip_success_despite_escaping_entry() {
    let data = make_zip_with_escape();
    let a = args("archive.zip", "/out");
    match a.process(data).unwrap() {
        Extraction::Entries(plan) => {
            assert_eq!(plan.dest_root, "/out/archive.zip");
            let paths: Vec<&str> = plan.entries.iter().map(|e| e.path.as_str()).collect();
            assert_eq!(paths, ["a/b.txt", "d/"]);
        }
        _ => panic!("expected an in-memory plan"),
    }
}

#[test]
fn process_writes_gz_as_one_file_under_the_hint_itself() {
    let data = make_gz(b"plain");
    let a = args("data.gz", "/out");
    match a.process(data).unwrap() {
        Extraction::Entries(plan) => {
            assert_eq!(plan.dest_root, "/out");
            assert_eq!(plan.entries.len(), 1);
            assert_eq!(plan.entries[0].path, "data");
            assert_eq!(plan.entries[0].data, b"plain");
            assert!(!plan.entries[0].is_dir);
        }
        _ => panic!("expected an in-memory plan"),
    }
}

#[test]
fn process_runs_the_nested_pipeline_for_tar7z() {
    let tar = make_tar(&[("c/d.txt", b"pipeline", false, 0o644)]);
    let data = make_7z(&[("bundle.tar", &tar, false)]);
    let a = args("bundle.tar.7z", "/out");
    match a.process(data).unwrap() {
        Extraction::Entries(plan) => {
            assert_eq!(plan.dest_root, "/out/bundle.tar.7z");
            assert_eq!(plan.entries.len(), 1);
            assert_eq!(plan.entries[0].path, "c/d.txt");
            assert_eq!(plan.entries[0].data, b"pipeline");
        }
        _ => panic!("expected an in-memory plan"),
    }
}

#[test]
fn process_reports_missing_nested_member() {
    let data = make_7z(&[("readme.txt", b"nothing", false)]);
    let a = args("bundle.tar.7z", "/out");
    assert!(matches!(
        a.process(data),
        Err(ExtractError::NestedArchiveMissingMember)
    ));
}

#[test]
fn process_rejects_unknown_and_planned_formats() {
    let a = args("foo.xyz", "/out");
    match a.process(Vec::new()) {
        Err(ExtractError::UnsupportedFormat(ext)) => assert_eq!(ext, "xyz"),
        _ => panic!("expected an unsupported-format failure"),
    }
    let b = args("foo.tar.bz2", "/out");
    match b.process(Vec::new()) {
        Err(ExtractError::PlannedNotImplemented(ext)) => assert_eq!(ext, "tar.bz2"),
        _ => panic!("expected a planned-not-implemented failure"),
    }
}

#[test]
fn process_rejects_invalid_destination_for_every_format() {
    for name in ["a.tar", "a.zip", "a.rar", "a.7z", "a.gz", "a.tar.gz", "a.tar.7z"] {
        let a = args(name, "/out/file.txt");
        assert!(matches!(
            a.process(Vec::new()),
            Err(ExtractError::InvalidDestination)
        ));
    }
}

#[test]
fn process_hands_rar_back_as_a_streaming_pass() {
    let a = args("a.rar", "/out");
    match a.process(Vec::new()).unwrap() {
        Extraction::RarStream(dest) => assert_eq!(dest, "/out/a.rar"),
        _ => panic!("expected a rar streaming pass"),
    }
}

#[test]
fn rar_entry_plan_applies_the_shared_path_safety() {
    let step = rar_entry_plan("/out/a.rar", "sub/file.txt", true).unwrap();
    assert_eq!(step.path, "/out/a.rar/sub/file.txt");
    assert!(!step.is_dir);
    let dir = rar_entry_plan("/out/a.rar", "sub", false).unwrap();
    assert!(dir.is_dir);
    assert!(rar_entry_plan("/out/a.rar", "../evil", true).is_none());
    assert!(rar_entry_plan("/out/a.rar", "/abs", true).is_none());
}
