//! The interpreter context: the injected collaborators a lowering pass may
//! call, fixed for the duration of the pass.
use vstd::prelude::*;

verus! {

/// One file the injected loader can serve: a path and its contents, both as
/// raw bytes.
pub struct FileEntry {
    pub path: Vec<u8>,
    pub contents: Vec<u8>,
}

/// Read-only collaborators for one lowering pass. When no file loader is
/// injected, `file:` values fail with `Unsupported`.
pub struct InterpreterContext {
    pub files: Option<Vec<FileEntry>>,
}

/// The mathematical view of a context: the loader as a sequence of
/// path/contents pairs, or nothing.
pub struct CtxView {
    pub files: Option<Seq<(Seq<u8>, Seq<u8>)>>,
}

impl View for InterpreterContext {
    type V = CtxView;

    open spec fn view(&self) -> CtxView {
        CtxView {
            files: match self.files {
                Option::None => Option::None,
                Option::Some(v) => Option::Some(
                    v@.map_values(|e: FileEntry| (e.path@, e.contents@)),
                ),
            },
        }
    }
}

impl Default for InterpreterContext {
    /// The default context injects no collaborators.
    fn default() -> (r: Self)
        ensures
            r@.files is None,
    {
        InterpreterContext { files: Option::None }
    }
}

/// What the injected loader returns for a path: the contents of the first
/// entry whose path matches, if any.
pub open spec fn lookup_file(files: Seq<(Seq<u8>, Seq<u8>)>, path: Seq<u8>) -> Option<Seq<u8>>
    decreases files.len(),
{
    if files.len() == 0 {
        Option::None
    } else if files[0].0 == path {
        Option::Some(files[0].1)
    } else {
        lookup_file(files.drop_first(), path)
    }
}

} // verus!
