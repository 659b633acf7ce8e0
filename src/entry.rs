use vstd::prelude::*;

verus! {

/// The three kinds of entry that a type filter can ask for.
#[derive(Debug, Clone, Copy, PartialEq, Eq, Structural)]
pub enum EntryType {
    Dir,
    File,
    Link,
}

/// One entry met while walking a tree, as plain values.
///
/// `is_symlink` comes from the entry's own status (the link itself, not its
/// target); `is_dir` and `is_file` from its file type.
#[derive(Debug)]
pub struct TraversalEntry {
    pub path: String,
    pub name: String,
    pub is_symlink: bool,
    pub is_dir: bool,
    pub is_file: bool,
}

/// The kind of an entry: a symbolic link first, then a directory, then a
/// regular file; anything else (a device, a socket, a FIFO) has no kind.
pub open spec fn kind_of(e: TraversalEntry) -> Option<EntryType> {
    if e.is_symlink {
        Some(EntryType::Link)
    } else if e.is_dir {
        Some(EntryType::Dir)
    } else if e.is_file {
        Some(EntryType::File)
    } else {
        None
    }
}

/// Classifies an entry; a symbolic link is a link whatever it points to.
pub fn classify(e: &TraversalEntry) -> (r: Option<EntryType>)
    ensures
        r == kind_of(*e),
        e.is_symlink ==> r == Some(EntryType::Link),
{
    if e.is_symlink {
        Some(EntryType::Link)
    } else if e.is_dir {
        Some(EntryType::Dir)
    } else if e.is_file {
        Some(EntryType::File)
    } else {
        None
    }
}

} // verus!
