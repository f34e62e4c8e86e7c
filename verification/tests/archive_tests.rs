use std::io::Read;

use prismarine::error::PackError;

use prismarine::archive::{ArchiveBuilder, ArchiveRecord};
use prismarine::models::{Pack, PackMeta};

fn meta(code: i32, desc: &str) -> PackMeta {
    PackMeta { pack: Pack { pack_format: code, description: desc.to_string() } }
}

fn read_back(bytes: Vec<u8>) -> Vec<(String, Vec<u8>)> {
    let cursor = std::io::Cursor::new(bytes);
    let mut archive = zip::ZipArchive::new(cursor).unwrap();
    let mut out: Vec<(String, Vec<u8>)> = Vec::new();
    for i in 0..archive.len() {
        let mut file = archive.by_index(i).unwrap();
        let mut data: Vec<u8> = Vec::new();
        file.read_to_end(&mut data).unwrap();
        out.push((file.name().to_string(), data));
    }
    out
}

#[test]
fn archive_holds_mapped_records_plus_one_metadata_entry() {
    let records = vec![
        ArchiveRecord { path: "assets".to_string(), is_dir: true, data: Vec::new() },
        ArchiveRecord {
            path: "assets/a.json".to_string(),
            is_dir: false,
            data: b"{ }".to_vec(),
        },
        ArchiveRecord { path: "README.md".to_string(), is_dir: false, data: b"hi".to_vec() },
    ];
    let mut builder = ArchiveBuilder::new();
    builder.fill(&records, &meta(15, "demo pack")).unwrap();
    let bytes = builder.finish().unwrap();

    let entries = read_back(bytes);
    let names: Vec<&str> = entries.iter().map(|(n, _)| n.as_str()).collect();
    assert_eq!(names, vec!["assets/", "assets/a.json", "README.md", "pack.mcmeta"]);
    assert_eq!(entries[1].1, b"{ }".to_vec());
    assert_eq!(entries[2].1, b"hi".to_vec());
    assert_eq!(
        String::from_utf8(entries[3].1.clone()).unwrap(),
        "{\"pack\":{\"pack_format\":15,\"description\":\"demo pack\"}}"
    );
}

#[test]
fn empty_selection_still_gets_its_metadata_entry() {
    let mut builder = ArchiveBuilder::new();
    builder.fill(&Vec::new(), &meta(9, "")).unwrap();
    let bytes = builder.finish().unwrap();
    let entries = read_back(bytes);
    assert_eq!(entries.len(), 1);
    assert_eq!(entries[0].0, "pack.mcmeta");
    assert_eq!(
        String::from_utf8(entries[0].1.clone()).unwrap(),
        "{\"pack\":{\"pack_format\":9,\"description\":\"\"}}"
    );
}

#[test]
fn file_bytes_round_trip_exactly() {
    let payload: Vec<u8> = (0..=255u8).collect();
    let mut builder = ArchiveBuilder::new();
    builder.add_file("blob.bin", &payload).unwrap();
    builder.add_metadata(&meta(1, "x")).unwrap();
    let bytes = builder.finish().unwrap();
    let entries = read_back(bytes);
    assert_eq!(entries[0].0, "blob.bin");
    assert_eq!(entries[0].1, payload);
}

#[test]
fn duplicate_stored_names_are_refused_and_leave_the_archive_unchanged() {
    let mut builder = ArchiveBuilder::new();
    builder.add_file("a.txt", b"one").unwrap();
    assert_eq!(builder.add_file("a.txt", b"two").unwrap_err(), PackError::ArchiveError);
    builder.add_directory("assets").unwrap();
    assert_eq!(builder.add_directory("assets").unwrap_err(), PackError::ArchiveError);
    // A directory is stored under `name/`, so it does not collide with
    // a file of the bare name.
    builder.add_directory("a.txt").unwrap();
    builder.add_metadata(&meta(3, "z")).unwrap();
    let bytes = builder.finish().unwrap();
    let entries = read_back(bytes);
    let names: Vec<&str> = entries.iter().map(|(n, _)| n.as_str()).collect();
    assert_eq!(names, vec!["a.txt", "assets/", "a.txt/", "pack.mcmeta"]);
    assert_eq!(entries[0].1, b"one".to_vec());
}

#[test]
fn fill_refuses_a_record_named_like_the_metadata_entry() {
    let records = vec![ArchiveRecord {
        path: "pack.mcmeta".to_string(),
        is_dir: false,
        data: b"{}".to_vec(),
    }];
    let mut builder = ArchiveBuilder::new();
    assert_eq!(builder.fill(&records, &meta(4, "w")).unwrap_err(), PackError::ArchiveError);
}

#[test]
fn directory_records_are_stored_with_a_trailing_separator() {
    let mut builder = ArchiveBuilder::new();
    builder.add_directory("assets").unwrap();
    builder.add_directory("assets/minecraft").unwrap();
    builder.add_metadata(&meta(2, "y")).unwrap();
    let bytes = builder.finish().unwrap();
    let entries = read_back(bytes);
    assert_eq!(entries[0].0, "assets/");
    assert_eq!(entries[1].0, "assets/minecraft/");
}
