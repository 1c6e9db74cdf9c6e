//! A model of the editor state the dispatcher mutates: the open documents,
//! the status line, the known language servers and the close flag. Opening
//! a path that is already open focuses it instead of opening it twice.

use vstd::prelude::*;
use crate::diagnostics::{DiagnosticRecord, DocumentText};
use crate::text::{push_str, push_decimal, spec_decimal};

verus! {

/// One open document: its normalized path, the language server bound to it,
/// its text shape and its current diagnostics.
pub struct Doc {
    pub path: String,
    pub server_id: Option<u64>,
    pub text: DocumentText,
    pub diagnostics: Vec<DiagnosticRecord>,
}

/// The editor state the dispatcher owns exclusively.
pub struct EditorModel {
    pub docs: Vec<Doc>,
    pub servers: Vec<u64>,
    pub scratch_buffers: u64,
    pub status: Option<String>,
    pub close_requested: bool,
}

/// The paths of a document sequence, in order.
pub open spec fn doc_paths(docs: Seq<Doc>) -> Seq<Seq<char>> {
    docs.map_values(|d: Doc| d.path@)
}

/// Whether some path in `paths` reads `p`.
pub open spec fn spec_has_path(paths: Seq<Seq<char>>, p: Seq<char>) -> bool {
    exists|i: int| 0 <= i < paths.len() && paths[i] == p
}

/// Opening one path: already present, nothing changes; else it is appended.
pub open spec fn spec_open_step(paths: Seq<Seq<char>>, p: Seq<char>) -> Seq<Seq<char>> {
    if spec_has_path(paths, p) {
        paths
    } else {
        paths.push(p)
    }
}

/// Opening many paths, left to right.
pub open spec fn spec_open_paths(paths: Seq<Seq<char>>, new: Seq<Seq<char>>) -> Seq<Seq<char>>
    decreases new.len(),
{
    if new.len() == 0 {
        paths
    } else {
        spec_open_paths(spec_open_step(paths, new[0]), new.drop_first())
    }
}

/// Folding one more path at the end is one more step.
proof fn lemma_open_paths_snoc(paths: Seq<Seq<char>>, new: Seq<Seq<char>>, p: Seq<char>)
    ensures
        spec_open_paths(paths, new.push(p)) == spec_open_step(spec_open_paths(paths, new), p),
    decreases new.len(),
{
    if new.len() == 0 {
        assert(new.push(p)[0] == p);
        let d = new.push(p).drop_first();
        assert(d =~= Seq::<Seq<char>>::empty());
        assert(spec_open_paths(paths, new.push(p)) == spec_open_paths(
            spec_open_step(paths, p),
            d,
        ));
        assert(spec_open_paths(spec_open_step(paths, p), d) == spec_open_step(paths, p));
        assert(spec_open_paths(paths, new) == paths);
    } else {
        assert(new.push(p)[0] == new[0]);
        let d = new.push(p).drop_first();
        assert(d =~= new.drop_first().push(p));
        assert(spec_open_paths(paths, new.push(p)) == spec_open_paths(
            spec_open_step(paths, new[0]),
            d,
        ));
        lemma_open_paths_snoc(spec_open_step(paths, new[0]), new.drop_first(), p);
        assert(spec_open_paths(paths, new) == spec_open_paths(
            spec_open_step(paths, new[0]),
            new.drop_first(),
        ));
    }
}

/// A document just opened: nothing bound, shown or reported yet.
pub open spec fn spec_fresh_doc(d: Doc) -> bool {
    d.server_id is None && d.text.line_lengths@.len() == 0 && d.diagnostics@.len() == 0
}

/// The paths of the entries of a file list, in order.
pub open spec fn entry_paths(entries: Seq<FileSpec>) -> Seq<Seq<char>> {
    entries.map_values(|e: FileSpec| e.path@)
}

/// One path to open, and whether the file system says it is a directory.
pub struct FileSpec {
    pub path: String,
    pub is_dir: bool,
}

/// What opening the startup files came to.
#[derive(PartialEq, Eq, Structural, Clone, Copy, Debug)]
pub enum OpenOutcome {
    /// No file named: one scratch buffer.
    Scratch,
    /// The first entry is a directory: one scratch buffer and a picker there.
    Picker,
    /// Every entry opened.
    Loaded,
    /// A later entry is a directory: everything before it stays open.
    DirectoryError,
}

/// The status line after a successful load of `n` files.
pub open spec fn spec_loaded_status(n: int) -> Seq<char> {
    "Loaded "@ + spec_decimal(n) + " files."@
}

impl EditorModel {
    /// A fresh editor: nothing open, nothing reported.
    pub fn new() -> (r: EditorModel)
        ensures
            r.docs@.len() == 0,
            r.servers@.len() == 0,
            r.scratch_buffers == 0,
            r.status is None,
            !r.close_requested,
    {
        EditorModel {
            docs: Vec::new(),
            servers: Vec::new(),
            scratch_buffers: 0,
            status: None,
            close_requested: false,
        }
    }

    /// Sets the status line.
    pub fn set_status(&mut self, s: String)
        ensures
            *final(self) == (EditorModel { status: Some(s), ..*old(self) }),
    {
        self.status = Some(s);
    }

    /// Clears the status line.
    pub fn clear_status(&mut self)
        ensures
            *final(self) == (EditorModel { status: None, ..*old(self) }),
    {
        self.status = None;
    }

    /// The index of the first open document whose path reads `path`.
    pub fn find_doc_by_path(&self, path: &str) -> (r: Option<usize>)
        ensures
            match r {
                Some(i) => i < self.docs@.len() && self.docs@[i as int].path@ == path@ && (
                forall|j: int| 0 <= j < i ==> self.docs@[j].path@ != path@),
                None => forall|j: int| 0 <= j < self.docs@.len() ==> self.docs@[j].path@ != path@,
            },
    {
        let mut i: usize = 0;
        while i < self.docs.len()
            invariant
                i <= self.docs@.len(),
                forall|j: int| 0 <= j < i ==> self.docs@[j].path@ != path@,
            decreases self.docs@.len() - i,
        {
            if crate::text::str_eq(self.docs[i].path.as_str(), path) {
                return Some(i);
            }
            i = i + 1;
        }
        None
    }

    /// The index of the first open document bound to server `sid`.
    pub fn find_doc_for_server(&self, sid: u64) -> (r: Option<usize>)
        ensures
            match r {
                Some(i) => i < self.docs@.len() && self.docs@[i as int].server_id == Some(sid),
                None => forall|j: int|
                    0 <= j < self.docs@.len() ==> self.docs@[j].server_id != Some(sid),
            },
    {
        let mut i: usize = 0;
        while i < self.docs.len()
            invariant
                i <= self.docs@.len(),
                forall|j: int| 0 <= j < i ==> self.docs@[j].server_id != Some(sid),
            decreases self.docs@.len() - i,
        {
            match self.docs[i].server_id {
                Some(s) => {
                    if s == sid {
                        return Some(i);
                    }
                },
                None => {},
            }
            i = i + 1;
        }
        None
    }

    /// Whether server `sid` is known to the editor.
    pub fn knows_server(&self, sid: u64) -> (r: bool)
        ensures
            r == self.servers@.contains(sid),
    {
        let mut i: usize = 0;
        while i < self.servers.len()
            invariant
                i <= self.servers@.len(),
                forall|j: int| 0 <= j < i ==> self.servers@[j] != sid,
            decreases self.servers@.len() - i,
        {
            if self.servers[i] == sid {
                proof {
                    assert(self.servers@[i as int] == sid);
                }
                return true;
            }
            i = i + 1;
        }
        proof {
            if self.servers@.contains(sid) {
                let j = choose|j: int| 0 <= j < self.servers@.len() && self.servers@[j] == sid;
                assert(false);
            }
        }
        false
    }

    /// Opens a path: focuses the document when it is already open, else
    /// appends a fresh document for it. Nothing else changes.
    pub fn open_doc(&mut self, path: String)
        ensures
            doc_paths(final(self).docs@) == spec_open_step(doc_paths(old(self).docs@), path@),
            old(self).docs@.len() <= final(self).docs@.len() <= old(self).docs@.len() + 1,
            forall|j: int| 0 <= j < old(self).docs@.len() ==> final(self).docs@[j] == old(self).docs@[j],
            forall|j: int|
                old(self).docs@.len() <= j < final(self).docs@.len() ==> spec_fresh_doc(
                    final(self).docs@[j],
                ) && final(self).docs@[j].path@ == path@,
            final(self).servers == old(self).servers,
            final(self).scratch_buffers == old(self).scratch_buffers,
            final(self).status == old(self).status,
            final(self).close_requested == old(self).close_requested,
    {
        let found = self.find_doc_by_path(path.as_str());
        match found {
            Some(i) => {
                proof {
                    let paths = doc_paths(self.docs@);
                    assert(paths[i as int] == path@);
                    assert(spec_has_path(paths, path@));
                }
            },
            None => {
                let ghost prev = self.docs@;
                self.docs.push(
                    Doc {
                        path,
                        server_id: None,
                        text: DocumentText { line_lengths: Vec::new() },
                        diagnostics: Vec::new(),
                    },
                );
                proof {
                    let paths = doc_paths(prev);
                    if spec_has_path(paths, path@) {
                        let i = choose|i: int| 0 <= i < paths.len() && paths[i] == path@;
                        assert(prev[i].path@ == path@);
                        assert(false);
                    }
                    assert(doc_paths(self.docs@) =~= doc_paths(prev).push(path@));
                }
            },
        }
    }

    /// Opens one scratch buffer.
    pub fn new_scratch(&mut self)
        requires
            old(self).scratch_buffers < 0xFFFF_FFFF_FFFF_FFFF,
        ensures
            *final(self) == (EditorModel {
                scratch_buffers: (old(self).scratch_buffers + 1) as u64,
                ..*old(self)
            }),
    {
        self.scratch_buffers = self.scratch_buffers + 1;
    }

    /// Opens the files named at startup, in order. No entry: one scratch
    /// buffer. A directory first: one scratch buffer, and a picker rooted
    /// there is asked for. Otherwise every entry up to the first directory
    /// is opened; a directory among them stops the load with an error and
    /// leaves everything already opened open; with none, all entries are
    /// open and the status line reports their number.
    pub fn open_files(&mut self, entries: &Vec<FileSpec>) -> (r: OpenOutcome)
        requires
            old(self).scratch_buffers < 0xFFFF_FFFF_FFFF_FFFF,
        ensures
            final(self).servers == old(self).servers,
            final(self).close_requested == old(self).close_requested,
            entries@.len() == 0 ==> r == OpenOutcome::Scratch && final(self).docs == old(self).docs && final(self).scratch_buffers == old(self).scratch_buffers + 1 && final(self).status == old(self).status,
            entries@.len() > 0 && entries@[0].is_dir ==> r == OpenOutcome::Picker && final(self).docs == old(self).docs && final(self).scratch_buffers == old(self).scratch_buffers
                + 1 && final(self).status == old(self).status,
            entries@.len() > 0 && !entries@[0].is_dir ==> final(self).scratch_buffers == old(self).scratch_buffers && (r == OpenOutcome::DirectoryError <==> exists|k: int|
                0 <= k < entries@.len() && entries@[k].is_dir),
            entries@.len() > 0 && !entries@[0].is_dir && (forall|k: int|
                0 <= k < entries@.len() ==> !entries@[k].is_dir) ==> r == OpenOutcome::Loaded
                && doc_paths(final(self).docs@) == spec_open_paths(
                doc_paths(old(self).docs@),
                entry_paths(entries@),
            ) && (match final(self).status {
                Some(s) => s@ == spec_loaded_status(entries@.len() as int),
                None => false,
            }),
            entries@.len() > 0 && !entries@[0].is_dir && (exists|k: int|
                0 <= k < entries@.len() && entries@[k].is_dir) ==> exists|k: int|
                {
                    &&& 0 <= k < entries@.len()
                    &&& entries@[k].is_dir
                    &&& forall|j: int| 0 <= j < k ==> !entries@[j].is_dir
                    &&& doc_paths(final(self).docs@) == spec_open_paths(
                        doc_paths(old(self).docs@),
                        entry_paths(entries@.subrange(0, k)),
                    )
                    &&& final(self).status == old(self).status
                },
            forall|j: int| 0 <= j < old(self).docs@.len() ==> final(self).docs@[j] == old(self).docs@[j],
            forall|j: int|
                old(self).docs@.len() <= j < final(self).docs@.len() ==> spec_fresh_doc(
                    final(self).docs@[j],
                ),
    {
        if entries.len() == 0 {
            self.new_scratch();
            return OpenOutcome::Scratch;
        }
        if entries[0].is_dir {
            self.new_scratch();
            return OpenOutcome::Picker;
        }
        let ghost base = doc_paths(self.docs@);
        let ghost docs0 = self.docs@;
        let mut i: usize = 0;
        while i < entries.len()
            invariant
                i <= entries@.len(),
                entries@.len() > 0,
                !entries@[0].is_dir,
                old(self).scratch_buffers < 0xFFFF_FFFF_FFFF_FFFF,
                docs0 == old(self).docs@,
                base == doc_paths(docs0),
                forall|j: int| 0 <= j < i ==> !entries@[j].is_dir,
                doc_paths(self.docs@) == spec_open_paths(
                    base,
                    entry_paths(entries@.subrange(0, i as int)),
                ),
                docs0.len() <= self.docs@.len(),
                forall|j: int| 0 <= j < docs0.len() ==> self.docs@[j] == docs0[j],
                forall|j: int|
                    docs0.len() <= j < self.docs@.len() ==> spec_fresh_doc(self.docs@[j]),
                self.servers == old(self).servers,
                self.scratch_buffers == old(self).scratch_buffers,
                self.status == old(self).status,
                self.close_requested == old(self).close_requested,
            decreases entries@.len() - i,
        {
            if entries[i].is_dir {
                proof {
                    assert(entries@[i as int].is_dir);
                }
                return OpenOutcome::DirectoryError;
            }
            let ghost before = doc_paths(self.docs@);
            self.open_doc(entries[i].path.clone());
            proof {
                let sub1 = entry_paths(entries@.subrange(0, i as int + 1));
                let sub0 = entry_paths(entries@.subrange(0, i as int));
                assert(sub1 =~= sub0.push(entries@[i as int].path@));
                lemma_open_paths_snoc(base, sub0, entries@[i as int].path@);
            }
            i = i + 1;
        }
        let n = entries.len();
        let mut status = String::new();
        push_str(&mut status, "Loaded ");
        push_decimal(&mut status, n as u64);
        push_str(&mut status, " files.");
        proof {
            assert(status@ =~= spec_loaded_status(entries@.len() as int));
            assert(entries@.subrange(0, entries@.len() as int) =~= entries@);
        }
        self.set_status(status);
        OpenOutcome::Loaded
    }
}

/// The error reported when a later startup entry is a directory.
pub fn directory_error_message() -> (r: String)
    ensures
        r@
            == "expected a path to file, found a directory. (to open a directory pass it as first argument)"@,
{
    "expected a path to file, found a directory. (to open a directory pass it as first argument)".to_owned()
}

} // verus!
