//! Files app: a browser over a fixed listing.

use vstd::prelude::*;

verus! {

/// What kind of thing a listed file is.
#[derive(Clone, Copy, PartialEq, Eq, Structural, Debug)]
pub enum FileKind {
    Folder,
    Doc,
    Image,
    Audio,
    Code,
}

/// One line of the listing: name, kind and a printed size (empty for folders).
#[derive(Clone, Copy)]
pub struct FileEntry {
    pub name: &'static str,
    pub kind: FileKind,
    pub size: &'static str,
}

/// Number of entries in the listing.
pub const FILE_COUNT: usize = 10;

/// Name, kind and printed size of entry `i` of the listing.
pub open spec fn file_spec(i: int) -> (Seq<char>, FileKind, Seq<char>) {
    if i == 0 {
        ("Documents"@, FileKind::Folder, ""@)
    } else if i == 1 {
        ("Pictures"@, FileKind::Folder, ""@)
    } else if i == 2 {
        ("Music"@, FileKind::Folder, ""@)
    } else if i == 3 {
        ("Code"@, FileKind::Folder, ""@)
    } else if i == 4 {
        ("README.md"@, FileKind::Doc, "2.4 KB"@)
    } else if i == 5 {
        ("boot.S"@, FileKind::Code, "1.8 KB"@)
    } else if i == 6 {
        ("kernel.elf"@, FileKind::Code, "162 KB"@)
    } else if i == 7 {
        ("wallpaper.png"@, FileKind::Image, "412 KB"@)
    } else if i == 8 {
        ("song.mp3"@, FileKind::Audio, "3.7 MB"@)
    } else {
        ("notes.txt"@, FileKind::Doc, "0.8 KB"@)
    }
}

/// The listing.
pub fn files() -> (fs: [FileEntry; 10])
    ensures
        forall|i: int|
            0 <= i < 10 ==> (fs@[i].name@, fs@[i].kind, fs@[i].size@) == #[trigger] file_spec(i),
{
    [
        FileEntry { name: "Documents", kind: FileKind::Folder, size: "" },
        FileEntry { name: "Pictures", kind: FileKind::Folder, size: "" },
        FileEntry { name: "Music", kind: FileKind::Folder, size: "" },
        FileEntry { name: "Code", kind: FileKind::Folder, size: "" },
        FileEntry { name: "README.md", kind: FileKind::Doc, size: "2.4 KB" },
        FileEntry { name: "boot.S", kind: FileKind::Code, size: "1.8 KB" },
        FileEntry { name: "kernel.elf", kind: FileKind::Code, size: "162 KB" },
        FileEntry { name: "wallpaper.png", kind: FileKind::Image, size: "412 KB" },
        FileEntry { name: "song.mp3", kind: FileKind::Audio, size: "3.7 MB" },
        FileEntry { name: "notes.txt", kind: FileKind::Doc, size: "0.8 KB" },
    ]
}

/// Which entry of the listing is selected.
pub struct FilesState {
    pub selected: usize,
}

/// The selection after key `code` and whether the key was used: `j` moves down and `k`
/// moves up, both stopping at the ends of the listing.
pub open spec fn files_key(selected: usize, code: u16) -> (usize, bool) {
    if code == 36 {
        (if selected + 1 < FILE_COUNT { (selected + 1) as usize } else { selected }, true)
    } else if code == 37 {
        (if selected > 0 { (selected - 1) as usize } else { selected }, true)
    } else {
        (selected, false)
    }
}

impl FilesState {
    /// The first entry selected.
    pub fn new() -> (s: Self)
        ensures
            s.selected == 0,
    {
        Self { selected: 0 }
    }

    /// Handles key `code`; returns whether the key was used.
    pub fn handle_key(&mut self, code: u16) -> (used: bool)
        requires
            code == 36 ==> old(self).selected < usize::MAX,
        ensures
            (final(self).selected, used) == files_key(old(self).selected, code),
    {
        if code == 36 {
            if self.selected + 1 < FILE_COUNT {
                self.selected += 1;
            }
            return true;
        }
        if code == 37 {
            if self.selected > 0 {
                self.selected -= 1;
            }
            return true;
        }
        false
    }
}

/// A selection inside the listing stays inside it whatever key is pressed.
pub proof fn law_files_selection_stays(selected: usize, code: u16)
    requires
        selected < FILE_COUNT,
    ensures
        files_key(selected, code).0 < FILE_COUNT,
{
}

} // verus!
