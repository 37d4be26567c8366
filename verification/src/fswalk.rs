//! The data side of a directory walker: the handles that callbacks
//! receive, with their opt-in flags. Traversal itself is I/O and lives
//! with the caller; these types carry its decisions.

use vstd::prelude::*;

verus! {

/// A directory the walker met; a callback calls `descend` to walk into it.
pub struct DirHandle {
    path: String,
    descend: bool,
}

impl DirHandle {
    /// The directory's path.
    pub closed spec fn spec_path(&self) -> Seq<char> {
        self.path@
    }

    /// Whether some callback asked to walk into it.
    pub closed spec fn marked(&self) -> bool {
        self.descend
    }

    /// A fresh handle, not yet marked.
    pub fn new(path: String) -> (h: DirHandle)
        ensures
            h.spec_path() == path@,
            !h.marked(),
    {
        DirHandle { path, descend: false }
    }

    /// Ask to walk into this directory.
    pub fn descend(&mut self)
        ensures
            final(self).spec_path() == old(self).spec_path(),
            final(self).marked(),
    {
        self.descend = true;
    }

    pub fn path(&self) -> (p: &String)
        ensures
            p@ == self.spec_path(),
    {
        &self.path
    }
}

/// A file the walker met; a callback calls `read` to get its contents.
pub struct FileHandle {
    path: String,
    read: bool,
}

impl FileHandle {
    /// The file's path.
    pub closed spec fn spec_path(&self) -> Seq<char> {
        self.path@
    }

    /// Whether some callback asked for the contents.
    pub closed spec fn marked(&self) -> bool {
        self.read
    }

    /// A fresh handle, not yet marked.
    pub fn new(path: String) -> (h: FileHandle)
        ensures
            h.spec_path() == path@,
            !h.marked(),
    {
        FileHandle { path, read: false }
    }

    /// Ask for this file's contents.
    pub fn read(&mut self)
        ensures
            final(self).spec_path() == old(self).spec_path(),
            final(self).marked(),
    {
        self.read = true;
    }

    pub fn path(&self) -> (p: &String)
        ensures
            p@ == self.spec_path(),
    {
        &self.path
    }
}

/// What a callback is handed: a directory, a file, or the contents of a
/// file it asked to read.
pub enum Handle {
    Dir(DirHandle),
    File(FileHandle),
    Content { file_path: String, content: Vec<u8> },
}

impl Handle {
    /// Take the handle's opt-in flag: report whether the callback asked
    /// for more, and reset the flag for the next callback. Content
    /// handles carry no flag.
    pub fn take_checked(&mut self) -> (fl: bool)
        ensures
            (*old(self)) matches Handle::Dir(d) ==> (fl == d.marked() && (*final(self) matches
            Handle::Dir(d2) && d2.spec_path() == d.spec_path() && !d2.marked())),
            (*old(self)) matches Handle::File(f) ==> (fl == f.marked() && (*final(self) matches
            Handle::File(f2) && f2.spec_path() == f.spec_path() && !f2.marked())),
            (*old(self)) matches Handle::Content { .. } ==> (!fl && *final(self) == *old(self)),
    {
        match self {
            Handle::Dir(dir) => {
                let fl = dir.descend;
                dir.descend = false;
                fl
            },
            Handle::File(file) => {
                let fl = file.read;
                file.read = false;
                fl
            },
            Handle::Content { .. } => false,
        }
    }
}

} // verus!
