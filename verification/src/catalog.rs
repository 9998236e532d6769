//! The catalog of the working directory: one record for each regular file,
//! in the order in which the directory gave its entries.

use crate::error::ShareError;
use crate::url::{build_file_url, spec_file_url};
use vstd::prelude::*;
use vstd::string::*;

verus! {

/// What kind of thing a directory entry is.
#[derive(Clone, Copy, Debug, PartialEq, Eq, Structural)]
pub enum EntryKind {
    File,
    Directory,
    Symlink,
    Other,
}

/// One entry of the working directory, as the scan found it.
#[derive(Debug, PartialEq, Eq)]
pub struct DirEntry {
    pub name: String,
    pub kind: EntryKind,
}

/// A directory entry with its name as a sequence of characters.
pub ghost struct EntryView {
    pub name: Seq<char>,
    pub kind: EntryKind,
}

impl View for DirEntry {
    type V = EntryView;

    open spec fn view(&self) -> EntryView {
        EntryView { name: self.name@, kind: self.kind }
    }
}

/// A file of the working directory and the URL under which it is shared.
#[derive(Debug, PartialEq, Eq)]
pub struct FileRecord {
    pub name: String,
    pub share_url: String,
}

/// A file record with its texts as sequences of characters.
pub ghost struct RecordView {
    pub name: Seq<char>,
    pub share_url: Seq<char>,
}

impl View for FileRecord {
    type V = RecordView;

    open spec fn view(&self) -> RecordView {
        RecordView { name: self.name@, share_url: self.share_url@ }
    }
}

/// What a scan of the working directory gave: its entries, or nothing where
/// the directory could not be opened.
#[derive(Debug, PartialEq, Eq)]
pub enum DirectoryScan {
    Unreadable,
    Entries(Vec<DirEntry>),
}

/// The entries of a vector, each by its view.
pub open spec fn entry_views(entries: Seq<DirEntry>) -> Seq<EntryView> {
    entries.map_values(|e: DirEntry| e@)
}

/// The records of a vector, each by its view.
pub open spec fn record_views(records: Seq<FileRecord>) -> Seq<RecordView> {
    records.map_values(|r: FileRecord| r@)
}

/// The test that picks the regular files.
pub open spec fn is_regular_file() -> spec_fn(EntryView) -> bool {
    |e: EntryView| e.kind == EntryKind::File
}

/// The record of the file `name` under the base URL `base`.
pub open spec fn record_of(base: Seq<char>, name: Seq<char>) -> RecordView {
    RecordView { name, share_url: spec_file_url(base, name) }
}

/// The step from an entry to its record under `base`.
pub open spec fn to_record(base: Seq<char>) -> spec_fn(EntryView) -> RecordView {
    |e: EntryView| record_of(base, e.name)
}

/// The catalog of a directory: the regular files among its entries, in their
/// order, each with its shareable URL.
pub open spec fn spec_records(base: Seq<char>, entries: Seq<EntryView>) -> Seq<RecordView> {
    entries.filter(is_regular_file()).map_values(to_record(base))
}

/// Adding an entry to a directory adds its record to the catalog if it is a
/// regular file, and leaves the catalog as it is otherwise.
pub proof fn lemma_records_push(base: Seq<char>, entries: Seq<EntryView>, entry: EntryView)
    ensures
        spec_records(base, entries.push(entry)) == if entry.kind == EntryKind::File {
            spec_records(base, entries).push(record_of(base, entry.name))
        } else {
            spec_records(base, entries)
        },
{
    entries.lemma_filter_push(entry, is_regular_file());
    if entry.kind == EntryKind::File {
        let files = entries.filter(is_regular_file());
        assert(files.push(entry).map_values(to_record(base)) =~= files.map_values(
            to_record(base),
        ).push(record_of(base, entry.name)));
    }
}

/// Lists the regular files among `entries`, one record each, in the order of
/// the entries. Directories, symlinks and special files get no record.
pub fn file_records(base_url: &str, entries: &Vec<DirEntry>) -> (records: Vec<FileRecord>)
    ensures
        record_views(records@) == spec_records(base_url@, entry_views(entries@)),
{
    let mut records: Vec<FileRecord> = Vec::new();
    let mut i: usize = 0;
    proof {
        assert(entry_views(entries@.take(0)) =~= Seq::<EntryView>::empty());
        reveal(Seq::filter);
        assert(record_views(records@) =~= spec_records(base_url@, Seq::<EntryView>::empty()));
    }
    while i < entries.len()
        invariant
            i <= entries.len(),
            record_views(records@) == spec_records(
                base_url@,
                entry_views(entries@.take(i as int)),
            ),
        decreases entries.len() - i,
    {
        let entry = &entries[i];
        proof {
            let before = entry_views(entries@.take(i as int));
            assert(entry_views(entries@.take(i + 1)) =~= before.push(entry@));
            lemma_records_push(base_url@, before, entry@);
        }
        match entry.kind {
            EntryKind::File => {
                let ghost old_records = records@;
                let record = FileRecord {
                    name: entry.name.clone(),
                    share_url: build_file_url(base_url, entry.name.as_str()),
                };
                records.push(record);
                proof {
                    assert(record_views(records@) =~= record_views(old_records).push(record@));
                }
            },
            _ => {},
        }
        i += 1;
    }
    proof {
        assert(entries@.take(i as int) =~= entries@);
    }
    records
}

/// The catalog for the outcome of a scan: the records of the regular files,
/// or `DirectoryUnreadable` where the directory could not be opened. There
/// are no partial results.
pub fn list(base_url: &str, scan: &DirectoryScan) -> (listing: Result<Vec<FileRecord>, ShareError>)
    ensures
        match *scan {
            DirectoryScan::Unreadable => listing == Err::<Vec<FileRecord>, ShareError>(
                ShareError::DirectoryUnreadable,
            ),
            DirectoryScan::Entries(entries) => listing is Ok && record_views(listing->Ok_0@)
                == spec_records(base_url@, entry_views(entries@)),
        },
{
    match scan {
        DirectoryScan::Unreadable => Err(ShareError::DirectoryUnreadable),
        DirectoryScan::Entries(entries) => Ok(file_records(base_url, entries)),
    }
}

/// One entry of the working directory as the file system gave it: its name,
/// where the name is valid text, and its kind.
#[derive(Debug, PartialEq, Eq)]
pub struct RawEntry {
    pub name: Option<String>,
    pub kind: EntryKind,
}

/// A raw entry with its name as a sequence of characters.
pub ghost struct RawView {
    pub name: Option<Seq<char>>,
    pub kind: EntryKind,
}

impl View for RawEntry {
    type V = RawView;

    open spec fn view(&self) -> RawView {
        RawView {
            name: match self.name {
                Some(text) => Some(text@),
                None => None,
            },
            kind: self.kind,
        }
    }
}

/// The raw entries of a vector, each by its view.
pub open spec fn raw_views(raw: Seq<RawEntry>) -> Seq<RawView> {
    raw.map_values(|r: RawEntry| r@)
}

/// Whether a regular file among `raw` has a name that is no valid text. Such
/// a file could not be shared under any URL.
pub open spec fn has_unnamed_file(raw: Seq<RawView>) -> bool {
    exists|i: int|
        0 <= i < raw.len() && (#[trigger] raw[i]).kind == EntryKind::File && raw[i].name is None
}

/// The test that picks the entries whose name is valid text.
pub open spec fn is_named() -> spec_fn(RawView) -> bool {
    |r: RawView| r.name is Some
}

/// The step from a named raw entry to a directory entry.
pub open spec fn to_entry() -> spec_fn(RawView) -> EntryView {
    |r: RawView| EntryView { name: r.name->Some_0, kind: r.kind }
}

/// The entries that a scan holds, or `None` for an unreadable directory.
pub open spec fn spec_scan_entries(scan: DirectoryScan) -> Option<Seq<EntryView>> {
    match scan {
        DirectoryScan::Unreadable => None,
        DirectoryScan::Entries(entries) => Some(entry_views(entries@)),
    }
}

/// The scan that raw entries make: unreadable where a regular file has no
/// name that is valid text, and else the named entries in their order.
/// An entry without such a name that is no regular file is left out: it
/// would get no record.
pub open spec fn spec_scan(raw: Seq<RawView>) -> Option<Seq<EntryView>> {
    if has_unnamed_file(raw) {
        None
    } else {
        Some(raw.filter(is_named()).map_values(to_entry()))
    }
}

/// Adding a raw entry adds its directory entry where it is named, and
/// nothing otherwise.
pub proof fn lemma_named_push(raw: Seq<RawView>, entry: RawView)
    ensures
        raw.push(entry).filter(is_named()).map_values(to_entry()) == if entry.name is Some {
            raw.filter(is_named()).map_values(to_entry()).push(
                EntryView { name: entry.name->Some_0, kind: entry.kind },
            )
        } else {
            raw.filter(is_named()).map_values(to_entry())
        },
{
    raw.lemma_filter_push(entry, is_named());
    if entry.name is Some {
        let named = raw.filter(is_named());
        assert(named.push(entry).map_values(to_entry()) =~= named.map_values(to_entry()).push(
            EntryView { name: entry.name->Some_0, kind: entry.kind },
        ));
    }
}

/// Makes the scan of a directory from its raw entries. A regular file whose
/// name is no valid text makes the directory unreadable: it could not be
/// listed with a URL that leads to it, and a listing has no partial results.
pub fn scan_of(raw: &Vec<RawEntry>) -> (scan: DirectoryScan)
    ensures
        spec_scan_entries(scan) == spec_scan(raw_views(raw@)),
{
    let mut entries: Vec<DirEntry> = Vec::new();
    let mut i: usize = 0;
    proof {
        reveal(Seq::filter);
        assert(raw_views(raw@.take(0)) =~= Seq::<RawView>::empty());
        assert(entry_views(entries@) =~= Seq::<RawView>::empty().filter(is_named()).map_values(
            to_entry(),
        ));
    }
    while i < raw.len()
        invariant
            i <= raw.len(),
            !has_unnamed_file(raw_views(raw@.take(i as int))),
            entry_views(entries@) == raw_views(raw@.take(i as int)).filter(is_named()).map_values(
                to_entry(),
            ),
        decreases raw.len() - i,
    {
        let entry = &raw[i];
        let ghost before = raw_views(raw@.take(i as int));
        let ghost after = raw_views(raw@.take(i + 1));
        proof {
            assert(after =~= before.push(entry@));
            lemma_named_push(before, entry@);
        }
        match &entry.name {
            Some(text) => {
                let ghost old_entries = entries@;
                let named = DirEntry { name: text.clone(), kind: entry.kind };
                entries.push(named);
                proof {
                    assert(entry_views(entries@) =~= entry_views(old_entries).push(named@));
                }
            },
            None => {
                match entry.kind {
                    EntryKind::File => {
                        proof {
                            let all = raw_views(raw@);
                            assert(all[i as int] == entry@);
                            assert(has_unnamed_file(all));
                        }
                        return DirectoryScan::Unreadable;
                    },
                    _ => {},
                }
            },
        }
        proof {
            if has_unnamed_file(after) {
                let k = choose|k: int|
                    0 <= k < after.len() && (#[trigger] after[k]).kind == EntryKind::File
                        && after[k].name is None;
                if k < i {
                    assert(before[k] == after[k]);
                    assert(has_unnamed_file(before));
                }
            }
        }
        i += 1;
    }
    proof {
        assert(raw@.take(i as int) =~= raw@);
    }
    DirectoryScan::Entries(entries)
}

/// Whether `entry` is what a named entry of `raw` becomes.
pub open spec fn is_entry_of(raw: Seq<RawView>, entry: EntryView) -> bool {
    exists|i: int|
        0 <= i < raw.len() && (#[trigger] raw[i]).name == Some(entry.name) && raw[i].kind
            == entry.kind
}

/// The entries that are made of raw entries are the named ones among them.
pub proof fn lemma_named_entries(raw: Seq<RawView>)
    ensures
        forall|e: EntryView|
            raw.filter(is_named()).map_values(to_entry()).contains(e) <==> is_entry_of(raw, e),
    decreases raw.len(),
{
    let entries = raw.filter(is_named()).map_values(to_entry());
    if raw.len() == 0 {
        reveal(Seq::filter);
        assert(entries =~= Seq::<EntryView>::empty());
    } else {
        let init = raw.drop_last();
        let last = raw.last();
        let before = init.filter(is_named()).map_values(to_entry());
        assert(raw =~= init.push(last));
        lemma_named_push(init, last);
        lemma_named_entries(init);
        assert forall|e: EntryView| entries.contains(e) <==> is_entry_of(raw, e) by {
            if entries.contains(e) {
                let j = choose|j: int| 0 <= j < entries.len() && entries[j] == e;
                if j < before.len() {
                    assert(before[j] == e);
                    assert(before.contains(e));
                    assert(is_entry_of(init, e));
                    let i = choose|i: int|
                        0 <= i < init.len() && (#[trigger] init[i]).name == Some(e.name)
                            && init[i].kind == e.kind;
                    assert(raw[i] == init[i]);
                } else {
                    assert(raw[raw.len() - 1] == last);
                }
            }
            if is_entry_of(raw, e) {
                let i = choose|i: int|
                    0 <= i < raw.len() && (#[trigger] raw[i]).name == Some(e.name) && raw[i].kind
                        == e.kind;
                if i < init.len() {
                    assert(init[i] == raw[i]);
                    assert(is_entry_of(init, e));
                    assert(before.contains(e));
                    let j = choose|j: int| 0 <= j < before.len() && before[j] == e;
                    assert(entries[j] == e);
                } else {
                    assert(entries[entries.len() - 1] == e);
                }
            }
        }
    }
}

/// Whether `name` is the name of a regular file among `entries`.
pub open spec fn is_file_of(entries: Seq<EntryView>, name: Seq<char>) -> bool {
    exists|i: int|
        0 <= i < entries.len() && (#[trigger] entries[i]).kind == EntryKind::File && entries[i].name
            == name
}

/// Whether the catalog `records` has a record of the file `name`.
pub open spec fn has_record(records: Seq<RecordView>, name: Seq<char>) -> bool {
    exists|j: int| 0 <= j < records.len() && (#[trigger] records[j]).name == name
}

/// Whether no two entries have the same name.
pub open spec fn distinct_names(entries: Seq<EntryView>) -> bool {
    forall|i: int, k: int|
        0 <= i < k < entries.len() ==> (#[trigger] entries[i]).name != (#[trigger] entries[k]).name
}

/// Whether no two records have the same name.
pub open spec fn distinct_records(records: Seq<RecordView>) -> bool {
    forall|j: int, l: int|
        0 <= j < l < records.len() ==> (#[trigger] records[j]).name != (#[trigger] records[l]).name
}

/// The catalog has a record of a name exactly if the name is that of a
/// regular file of the directory: every regular file is listed, and
/// directories, symlinks and special files are not. Each record carries the
/// shareable URL of its name.
pub proof fn lemma_records_are_the_files(base: Seq<char>, entries: Seq<EntryView>)
    ensures
        forall|name: Seq<char>|
            has_record(spec_records(base, entries), name) <==> is_file_of(entries, name),
        forall|j: int|
            0 <= j < spec_records(base, entries).len() ==> (#[trigger] spec_records(
                base,
                entries,
            )[j]).share_url == spec_file_url(base, spec_records(base, entries)[j].name),
        spec_records(base, entries).len() == entries.filter(is_regular_file()).len(),
        spec_records(base, entries).len() <= entries.len(),
    decreases entries.len(),
{
    let records = spec_records(base, entries);
    entries.lemma_filter_len(is_regular_file());
    if entries.len() == 0 {
        reveal(Seq::filter);
        assert(records =~= Seq::<RecordView>::empty());
    } else {
        let init = entries.drop_last();
        let last = entries.last();
        let before = spec_records(base, init);
        assert(entries =~= init.push(last));
        lemma_records_push(base, init, last);
        lemma_records_are_the_files(base, init);
        assert forall|name: Seq<char>| has_record(records, name) <==> is_file_of(
            entries,
            name,
        ) by {
            if has_record(records, name) {
                let j = choose|j: int| 0 <= j < records.len() && (#[trigger] records[j]).name == name;
                if j < before.len() {
                    assert(before[j].name == name);
                    assert(has_record(before, name));
                    assert(is_file_of(init, name));
                    let i = choose|i: int|
                        0 <= i < init.len() && (#[trigger] init[i]).kind == EntryKind::File
                            && init[i].name == name;
                    assert(entries[i] == init[i]);
                } else {
                    assert(entries[entries.len() - 1] == last);
                }
            }
            if is_file_of(entries, name) {
                let i = choose|i: int|
                    0 <= i < entries.len() && (#[trigger] entries[i]).kind == EntryKind::File
                        && entries[i].name == name;
                if i < init.len() {
                    assert(init[i] == entries[i]);
                    assert(is_file_of(init, name));
                    assert(has_record(before, name));
                    let j = choose|j: int|
                        0 <= j < before.len() && (#[trigger] before[j]).name == name;
                    assert(records[j] == before[j]);
                } else {
                    assert(records[records.len() - 1].name == name);
                }
            }
        }
    }
}

/// Where no two entries of the directory have the same name, no two records
/// have: each regular file has exactly one record.
pub proof fn lemma_one_record_per_file(base: Seq<char>, entries: Seq<EntryView>)
    requires
        distinct_names(entries),
    ensures
        distinct_records(spec_records(base, entries)),
    decreases entries.len(),
{
    let records = spec_records(base, entries);
    if entries.len() == 0 {
        reveal(Seq::filter);
        assert(records =~= Seq::<RecordView>::empty());
    } else {
        let init = entries.drop_last();
        let last = entries.last();
        let before = spec_records(base, init);
        assert(entries =~= init.push(last));
        assert(distinct_names(init)) by {
            assert forall|i: int, k: int| 0 <= i < k < init.len() implies (#[trigger] init[i]).name
                != (#[trigger] init[k]).name by {
                assert(init[i] == entries[i]);
                assert(init[k] == entries[k]);
            }
        }
        lemma_records_push(base, init, last);
        lemma_one_record_per_file(base, init);
        lemma_records_are_the_files(base, init);
        if last.kind == EntryKind::File {
            assert forall|j: int, l: int| 0 <= j < l < records.len() implies (
            #[trigger] records[j]).name != (#[trigger] records[l]).name by {
                if l < before.len() {
                    assert(records[j] == before[j]);
                    assert(records[l] == before[l]);
                } else {
                    assert(records[j] == before[j]);
                    if before[j].name == last.name {
                        assert(has_record(before, last.name));
                        assert(is_file_of(init, last.name));
                        let i = choose|i: int|
                            0 <= i < init.len() && (#[trigger] init[i]).kind == EntryKind::File
                                && init[i].name == last.name;
                        assert(entries[i] == init[i]);
                        assert(entries[entries.len() - 1] == last);
                    }
                }
            }
        }
    }
}

/// What a scan lists is what the raw entries hold: a regular file with a
/// name is listed under that name, and nothing else is.
pub proof fn lemma_scan_keeps_files(base: Seq<char>, raw: Seq<RawView>, name: Seq<char>)
    requires
        !has_unnamed_file(raw),
    ensures
        has_record(spec_records(base, spec_scan(raw)->Some_0), name) <==> exists|i: int|
            0 <= i < raw.len() && (#[trigger] raw[i]).kind == EntryKind::File && raw[i].name
                == Some(name),
{
    let entries = spec_scan(raw)->Some_0;
    lemma_records_are_the_files(base, entries);
    lemma_named_entries(raw);
    if is_file_of(entries, name) {
        let j = choose|j: int|
            0 <= j < entries.len() && (#[trigger] entries[j]).kind == EntryKind::File
                && entries[j].name == name;
        assert(is_entry_of(raw, entries[j]));
    }
    if exists|i: int|
        0 <= i < raw.len() && (#[trigger] raw[i]).kind == EntryKind::File && raw[i].name == Some(
            name,
        ) {
        let i = choose|i: int|
            0 <= i < raw.len() && (#[trigger] raw[i]).kind == EntryKind::File && raw[i].name
                == Some(name);
        let e = EntryView { name, kind: EntryKind::File };
        assert(is_entry_of(raw, e));
        assert(entries.contains(e));
        let j = choose|j: int| 0 <= j < entries.len() && entries[j] == e;
        assert(entries[j].kind == EntryKind::File);
        assert(is_file_of(entries, name));
    }
}

} // verus!
