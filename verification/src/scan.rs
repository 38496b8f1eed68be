use vstd::prelude::*;

use crate::data::{FileInfo, FileInfoV, ScanResult, ScanResultV};
use crate::jsonfmt::{json_of, to_json};

verus! {

/// What one directory child looks like to the scanner: plain values
/// read from the filesystem. A child that is neither a directory nor a
/// regular file (a symlink, a device) has both flags false.
pub struct RawEntry {
    pub name: String,
    pub is_dir: bool,
    pub is_file: bool,
    /// Size in bytes; meaningful for regular files.
    pub size: u64,
    /// Modification time as seconds and nanoseconds since the Unix
    /// epoch, if the filesystem gave one.
    pub mtime: Option<(u64, u32)>,
}

/// The largest number of seconds since the Unix epoch that chrono can
/// still place on its calendar (the end of year 262142).
pub const MAX_UTC_SECS: u64 = 8210266876799;

/// Whether chrono renders a timestamp with these seconds and
/// nanoseconds since the Unix epoch.
pub open spec fn ts_renderable(secs: u64, nanos: u32) -> bool {
    secs <= MAX_UTC_SECS && (nanos < 1_000_000_000 || (nanos < 2_000_000_000 && secs % 60 == 59))
}

/// The UTC rendering that chrono gives a modification time; the result
/// depends on the seconds and nanoseconds alone.
pub uninterp spec fn utc_string_of(secs: u64, nanos: u32) -> Seq<char>;

/// Relies on `chrono::DateTime::<Utc>::from_timestamp`, which accepts
/// exactly the timestamps within chrono's calendar range (a nanosecond
/// part beyond one second stands for a leap second and is accepted only
/// on a second that can be one), and on the `Display` rendering of the
/// resulting UTC datetime, which is a nonempty function of the
/// timestamp alone.
#[verifier::external_body]
fn format_utc(secs: u64, nanos: u32) -> (r: Option<String>)
    ensures
        r is Some <==> ts_renderable(secs, nanos),
        r matches Some(s) ==> s@ == utc_string_of(secs, nanos) && s@.len() > 0,
{
    match i64::try_from(secs) {
        Err(_) => None,
        Ok(s) => match chrono::DateTime::<chrono::Utc>::from_timestamp(s, nanos) {
            None => None,
            Some(dt) => Some(format!("{}", dt)),
        },
    }
}

/// Whether a scan keeps a child as a subdirectory.
pub open spec fn keeps_dir(e: RawEntry) -> bool {
    e.is_dir
}

/// Whether a scan keeps a child as a file entry: a regular file whose
/// modification time was readable and renderable.
pub open spec fn keeps_file(e: RawEntry) -> bool {
    &&& !e.is_dir
    &&& e.is_file
    &&& e.mtime matches Some((secs, nanos)) && ts_renderable(secs, nanos)
}

/// The file entry a kept child turns into.
pub open spec fn file_entry_of(e: RawEntry) -> FileInfoV
    recommends
        keeps_file(e),
{
    FileInfoV {
        name: e.name@,
        size: e.size,
        last_modification: utc_string_of((e.mtime->Some_0).0, (e.mtime->Some_0).1),
    }
}

/// The subdirectory names of a child list, in enumeration order.
pub open spec fn dir_names(es: Seq<RawEntry>) -> Seq<Seq<char>>
    decreases es.len(),
{
    if es.len() == 0 {
        Seq::empty()
    } else {
        dir_names(es.drop_last()) + (if keeps_dir(es.last()) {
            seq![es.last().name@]
        } else {
            Seq::<Seq<char>>::empty()
        })
    }
}

/// The file entries of a child list, in enumeration order.
pub open spec fn file_entries(es: Seq<RawEntry>) -> Seq<FileInfoV>
    decreases es.len(),
{
    if es.len() == 0 {
        Seq::empty()
    } else {
        file_entries(es.drop_last()) + (if keeps_file(es.last()) {
            seq![file_entry_of(es.last())]
        } else {
            Seq::<FileInfoV>::empty()
        })
    }
}

/// Turns one directory child into a file entry: `Some` exactly for a
/// regular file whose modification time is present and renderable.
pub fn file_info_from_entry(e: &RawEntry) -> (r: Option<FileInfo>)
    ensures
        r is Some <==> keeps_file(*e),
        r matches Some(fi) ==> fi@ == file_entry_of(*e),
{
    if e.is_dir || !e.is_file {
        return None;
    }
    match e.mtime {
        None => None,
        Some((secs, nanos)) => match format_utc(secs, nanos) {
            None => None,
            Some(ts) => Some(
                FileInfo { name: e.name.clone(), size: e.size, last_modification: ts },
            ),
        },
    }
}

/// Classifies an enumerated child list: subdirectory names go to
/// `dir`, regular files (with a readable, renderable modification
/// time) go to `files`, everything else is silently skipped, and the
/// requested path is echoed verbatim.
pub fn scan_from_entries(path: &str, entries: &Vec<RawEntry>) -> (r: ScanResult)
    ensures
        r@.path == path@,
        r@.dir == dir_names(entries@),
        r@.files == file_entries(entries@),
{
    let mut dir: Vec<String> = Vec::new();
    let mut files: Vec<FileInfo> = Vec::new();
    let mut i: usize = 0;
    proof {
        assert(entries@.take(0) =~= Seq::<RawEntry>::empty());
        assert(dir@.map_values(|s: String| s@) =~= dir_names(entries@.take(0)));
        assert(files@.map_values(|f: FileInfo| f@) =~= file_entries(entries@.take(0)));
    }
    while i < entries.len()
        invariant
            i <= entries.len(),
            dir@.map_values(|s: String| s@) == dir_names(entries@.take(i as int)),
            files@.map_values(|f: FileInfo| f@) == file_entries(entries@.take(i as int)),
        decreases entries.len() - i,
    {
        let e = &entries[i];
        if e.is_dir {
            dir.push(e.name.clone());
        } else {
            match file_info_from_entry(e) {
                Some(fi) => files.push(fi),
                None => {},
            }
        }
        proof {
            assert(entries@.take(i + 1) =~= entries@.take(i as int).push(entries@[i as int]));
            assert(entries@.take(i + 1).drop_last() =~= entries@.take(i as int));
            assert(dir@.map_values(|s: String| s@) =~= dir_names(entries@.take(i + 1)));
            assert(files@.map_values(|f: FileInfo| f@) =~= file_entries(entries@.take(i + 1)));
        }
        i = i + 1;
    }
    proof {
        assert(entries@.take(entries@.len() as int) =~= entries@);
    }
    ScanResult { path: path.to_owned(), dir, files }
}

/// Relies on `walkdir::WalkDir`: enumerates the direct children of
/// `path` (depth exactly one, no recursion, symlinks not followed) and
/// converts each readable child's name, kind, size and modification
/// time to plain values. Children whose metadata cannot be read are
/// left out; a path that does not exist or cannot be enumerated gives
/// an empty list.
#[verifier::external_body]
fn list_children(path: &str) -> (r: Vec<RawEntry>) {
    let mut v = Vec::new();
    let walk = walkdir::WalkDir::new(path).min_depth(1).max_depth(1);
    for e in walk.into_iter().filter_map(|x| x.ok()) {
        if let Ok(m) = e.metadata() {
            let mt = m.modified().ok().and_then(|t| t.duration_since(std::time::UNIX_EPOCH).ok());
            v.push(RawEntry {
                name: e.file_name().to_string_lossy().into_owned(),
                is_dir: m.is_dir(), is_file: m.is_file(), size: m.len(),
                mtime: mt.map(|d| (d.as_secs(), d.subsec_nanos())),
            });
        }
    }
    v
}

/// Scans one directory: enumerates its direct children and classifies
/// them. Whatever the filesystem answers, the result echoes the path
/// and classifies exactly the children that were enumerated; a path
/// that cannot be enumerated gives empty lists.
pub fn scan(path: &str) -> (r: ScanResult)
    ensures
        r@.path == path@,
        exists|es: Seq<RawEntry>|
            r@.dir == #[trigger] dir_names(es) && r@.files == file_entries(es),
{
    let entries = list_children(path);
    let r = scan_from_entries(path, &entries);
    proof {
        assert(r@.dir == dir_names(entries@) && r@.files == file_entries(entries@));
    }
    r
}

/// Scans one directory and renders the outcome as the JSON response
/// body.
pub fn scan_path_to_json(path: &str) -> (out: String)
    ensures
        exists|es: Seq<RawEntry>|
            out@ == #[trigger] json_of(
                ScanResultV { path: path@, dir: dir_names(es), files: file_entries(es) },
            ),
{
    let r = scan(path);
    let out = to_json(&r);
    proof {
        let es = choose|es: Seq<RawEntry>|
            r@.dir == #[trigger] dir_names(es) && r@.files == file_entries(es);
        assert(r@ == ScanResultV { path: path@, dir: dir_names(es), files: file_entries(es) });
        assert(out@ == json_of(ScanResultV { path: path@, dir: dir_names(es), files: file_entries(es) }));
    }
    out
}

} // verus!
