use vstd::prelude::*;

verus! {

/// Metadata of one regular file found by a scan.
pub struct FileInfo {
    pub name: String,
    pub size: u64,
    pub last_modification: String,
}

/// The mathematical value of a [`FileInfo`].
pub ghost struct FileInfoV {
    pub name: Seq<char>,
    pub size: u64,
    pub last_modification: Seq<char>,
}

impl View for FileInfo {
    type V = FileInfoV;

    open spec fn view(&self) -> FileInfoV {
        FileInfoV {
            name: self.name@,
            size: self.size,
            last_modification: self.last_modification@,
        }
    }
}

/// The outcome of scanning one directory: the requested path echoed
/// verbatim, the names of the direct subdirectories, and the metadata
/// of the direct regular files.
pub struct ScanResult {
    pub path: String,
    pub dir: Vec<String>,
    pub files: Vec<FileInfo>,
}

/// The mathematical value of a [`ScanResult`].
pub ghost struct ScanResultV {
    pub path: Seq<char>,
    pub dir: Seq<Seq<char>>,
    pub files: Seq<FileInfoV>,
}

impl View for ScanResult {
    type V = ScanResultV;

    open spec fn view(&self) -> ScanResultV {
        ScanResultV {
            path: self.path@,
            dir: self.dir@.map_values(|s: String| s@),
            files: self.files@.map_values(|f: FileInfo| f@),
        }
    }
}

} // verus!
