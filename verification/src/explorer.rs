use vstd::prelude::*;

verus! {

/// A directory entry as shown to the front end: its name and whether it is a
/// directory or a plain file.
pub struct Entry {
    pub name: String,
    pub entry_type: String,
}

impl Entry {
    /// Builds an entry whose `entry_type` is `"dir"` for a directory and
    /// `"file"` otherwise.
    pub fn new(name: String, is_dir: bool) -> (r: Entry)
        ensures
            r.name@ == name@,
            r.entry_type@ == (if is_dir { "dir"@ } else { "file"@ }),
    {
        if is_dir {
            Entry { name, entry_type: "dir".to_owned() }
        } else {
            Entry { name, entry_type: "file".to_owned() }
        }
    }
}

} // verus!
