use vstd::prelude::*;

verus! {

/// What kind of filesystem object an entry is.
#[derive(Debug, Clone, Copy, PartialEq, Eq, Structural)]
pub enum FileKind {
    Regular,
    Directory,
    Symlink,
    BlockDevice,
    CharDevice,
    Fifo,
    Socket,
    Unknown,
}

/// A modification instant: whole seconds since the Unix epoch (negative
/// before it) and the nanoseconds within that second.
#[derive(Debug, Clone, Copy, PartialEq, Eq, Structural)]
pub struct Timestamp {
    pub secs: i64,
    pub nanos: u32,
}

/// A snapshot of one directory member, taken when the directory was read.
#[derive(Debug, Clone)]
pub struct FileInfo {
    pub name: String,
    pub path: String,
    pub kind: FileKind,
    pub size: u64,
    /// `None` where the filesystem could not report the time.
    pub modified: Option<Timestamp>,
    /// Permission bits, setuid/setgid/sticky included.
    pub mode: u32,
    pub nlink: u64,
    pub uid: u32,
    pub gid: u32,
    pub inode: u64,
    /// Where a symbolic link points, when it could be read.
    pub link_target: Option<String>,
    /// The raw security context text, when one was looked up.
    pub security_context: Option<String>,
}

/// The one-character tag of a kind, as in the first column of a long listing.
pub open spec fn kind_char(k: FileKind) -> char {
    match k {
        FileKind::Directory => 'd',
        FileKind::Symlink => 'l',
        FileKind::BlockDevice => 'b',
        FileKind::CharDevice => 'c',
        FileKind::Fifo => 'p',
        FileKind::Socket => 's',
        FileKind::Regular | FileKind::Unknown => '-',
    }
}

/// Returns the one-character tag of a kind: `d`, `l`, `b`, `c`, `p`, `s`, or `-`
/// for regular files and anything else.
pub fn get_file_type_char(k: FileKind) -> (r: char)
    ensures
        r == kind_char(k),
{
    match k {
        FileKind::Directory => 'd',
        FileKind::Symlink => 'l',
        FileKind::BlockDevice => 'b',
        FileKind::CharDevice => 'c',
        FileKind::Fifo => 'p',
        FileKind::Socket => 's',
        FileKind::Regular | FileKind::Unknown => '-',
    }
}

impl FileInfo {
    pub fn is_dir(&self) -> (r: bool)
        ensures
            r == (self.kind == FileKind::Directory),
    {
        self.kind == FileKind::Directory
    }
}

} // verus!
