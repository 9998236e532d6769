use lanshare::catalog::{
    file_records, list, scan_of, DirEntry, DirectoryScan, EntryKind, FileRecord, RawEntry,
};
use lanshare::config::MyConfig;
use lanshare::error::ShareError;
use lanshare::listing::{list_files, listing_for, Listing};
use lanshare::qr::generate_qr_n64;

fn entry(name: &str, kind: EntryKind) -> DirEntry {
    DirEntry { name: name.to_string(), kind }
}

fn record(base: &str, name: &str) -> FileRecord {
    FileRecord { name: name.to_string(), share_url: format!("{}/share/{}", base, name) }
}

fn mixed_directory() -> Vec<DirEntry> {
    vec![
        entry("notes.txt", EntryKind::File),
        entry("photos", EntryKind::Directory),
        entry("link-to-notes", EntryKind::Symlink),
        entry("a.bin", EntryKind::File),
        entry("pipe", EntryKind::Other),
        entry("z", EntryKind::File),
    ]
}

#[test]
fn only_regular_files_are_listed() {
    let base = "http://10.0.0.2:8000";
    assert_eq!(
        file_records(base, &mixed_directory()),
        vec![record(base, "notes.txt"), record(base, "a.bin"), record(base, "z")]
    );
}

#[test]
fn records_keep_the_order_of_the_directory() {
    let base = "http://h:1";
    let entries = vec![
        entry("b", EntryKind::File),
        entry("a", EntryKind::File),
        entry("c", EntryKind::File),
    ];
    let names: Vec<String> = file_records(base, &entries).into_iter().map(|r| r.name).collect();
    assert_eq!(names, vec!["b", "a", "c"]);
}

#[test]
fn one_record_for_each_file() {
    let base = "http://h:1";
    let entries = mixed_directory();
    let records = file_records(base, &entries);
    for e in entries.iter() {
        let count = records.iter().filter(|r| r.name == e.name).count();
        assert_eq!(count, if e.kind == EntryKind::File { 1 } else { 0 });
    }
    assert_eq!(records.len(), 3);
}

#[test]
fn empty_directory_has_no_records() {
    assert_eq!(file_records("http://h:1", &Vec::new()), Vec::new());
    assert_eq!(list("http://h:1", &DirectoryScan::Entries(Vec::new())), Ok(Vec::new()));
}

#[test]
fn directory_without_files_has_no_records() {
    let entries = vec![entry("d", EntryKind::Directory), entry("s", EntryKind::Symlink)];
    assert_eq!(file_records("http://h:1", &entries), Vec::new());
}

#[test]
fn unreadable_directory_fails_the_listing() {
    assert_eq!(list("http://h:1", &DirectoryScan::Unreadable), Err(ShareError::DirectoryUnreadable));
}

#[test]
fn readable_directory_is_listed() {
    let base = "https://h:2";
    assert_eq!(
        list(base, &DirectoryScan::Entries(mixed_directory())),
        Ok(vec![record(base, "notes.txt"), record(base, "a.bin"), record(base, "z")])
    );
}

#[test]
fn listing_holds_records_url_and_image() {
    let base = "http://10.0.0.2:8000";
    let listing = listing_for(
        base.to_string(),
        &DirectoryScan::Entries(mixed_directory()),
        Ok("aW1hZ2U=".to_string()),
    );
    assert_eq!(
        listing,
        Ok(Listing {
            file_list: vec![record(base, "notes.txt"), record(base, "a.bin"), record(base, "z")],
            host_url: base.to_string(),
            host_url_qr: Some("aW1hZ2U=".to_string()),
        })
    );
}

#[test]
fn listing_without_image_is_still_a_listing() {
    let listing = listing_for(
        "http://h:1".to_string(),
        &DirectoryScan::Entries(vec![entry("f", EntryKind::File)]),
        Err(ShareError::EncodingError),
    )
    .unwrap();
    assert_eq!(listing.host_url_qr, None);
    assert_eq!(listing.file_list, vec![record("http://h:1", "f")]);
}

#[test]
fn listing_of_unreadable_directory_fails() {
    assert_eq!(
        listing_for("http://h:1".to_string(), &DirectoryScan::Unreadable, Ok("x".to_string())),
        Err(ShareError::DirectoryUnreadable)
    );
    let config = MyConfig::from_env(None, None, None, "/tmp".to_string()).unwrap();
    assert_eq!(list_files(&config, &DirectoryScan::Unreadable), Err(ShareError::DirectoryUnreadable));
}

#[test]
fn list_files_resolves_once_and_encodes_the_base_url() {
    let config = MyConfig::from_env(None, None, Some("8123".to_string()), "/tmp".to_string()).unwrap();
    let listing = list_files(&config, &DirectoryScan::Entries(mixed_directory())).unwrap();
    assert!(listing.host_url.starts_with("http://"));
    assert!(listing.host_url.ends_with(":8123"));
    assert_eq!(
        listing.file_list,
        vec![
            record(&listing.host_url, "notes.txt"),
            record(&listing.host_url, "a.bin"),
            record(&listing.host_url, "z"),
        ]
    );
    assert_eq!(listing.host_url_qr, generate_qr_n64(listing.host_url.clone()).ok());
    assert!(listing.host_url_qr.is_some());
}

fn raw(name: Option<&str>, kind: EntryKind) -> RawEntry {
    RawEntry { name: name.map(|n| n.to_string()), kind }
}

#[test]
fn scan_of_named_entries_keeps_them_in_order() {
    let found = vec![
        raw(Some("b"), EntryKind::File),
        raw(Some("d"), EntryKind::Directory),
        raw(Some("a"), EntryKind::File),
    ];
    assert_eq!(
        scan_of(&found),
        DirectoryScan::Entries(vec![
            entry("b", EntryKind::File),
            entry("d", EntryKind::Directory),
            entry("a", EntryKind::File),
        ])
    );
    assert_eq!(scan_of(&Vec::new()), DirectoryScan::Entries(Vec::new()));
}

#[test]
fn file_without_a_name_makes_the_scan_unreadable() {
    let found = vec![raw(Some("a"), EntryKind::File), raw(None, EntryKind::File)];
    assert_eq!(scan_of(&found), DirectoryScan::Unreadable);
    assert_eq!(list("http://h:1", &scan_of(&found)), Err(ShareError::DirectoryUnreadable));
    let first = vec![raw(None, EntryKind::File), raw(Some("a"), EntryKind::File)];
    assert_eq!(scan_of(&first), DirectoryScan::Unreadable);
}

#[test]
fn other_entry_without_a_name_is_left_out() {
    let found = vec![
        raw(None, EntryKind::Directory),
        raw(Some("a"), EntryKind::File),
        raw(None, EntryKind::Symlink),
        raw(None, EntryKind::Other),
    ];
    assert_eq!(scan_of(&found), DirectoryScan::Entries(vec![entry("a", EntryKind::File)]));
    assert_eq!(list("http://h:1", &scan_of(&found)), Ok(vec![record("http://h:1", "a")]));
}
