//! The library's model of what a directory traversal hands the archive
//! builder: one record per filesystem entry, as plain values.

use vstd::prelude::*;

verus! {

/// What kind of filesystem object an entry is.  Only regular files ever
/// become archive members; everything else is skipped.
#[derive(Clone, Copy, Debug, PartialEq, Eq, Structural)]
pub enum EntryKind {
    File,
    Directory,
    Symlink,
    Other,
}

/// One entry discovered under the source directory: its absolute path as
/// a sequence of components, its kind, and (for regular files) its
/// content.
#[derive(Debug)]
pub struct RawEntry {
    pub path: Vec<String>,
    pub kind: EntryKind,
    pub data: Vec<u8>,
}

/// The mathematical shadow of a `RawEntry`.
#[verifier::ext_equal]
pub ghost struct EntryView {
    pub path: Seq<Seq<char>>,
    pub kind: EntryKind,
    pub data: Seq<u8>,
}

impl View for RawEntry {
    type V = EntryView;

    open spec fn view(&self) -> EntryView {
        EntryView {
            path: self.path@.map_values(|s: String| s@),
            kind: self.kind,
            data: self.data@,
        }
    }
}

/// The views of a sequence of entries.
pub open spec fn entries_view(es: Seq<RawEntry>) -> Seq<EntryView> {
    es.map_values(|e: RawEntry| e@)
}

/// The view of a component list.
pub open spec fn comps_view(cs: Seq<String>) -> Seq<Seq<char>> {
    cs.map_values(|s: String| s@)
}

} // verus!
