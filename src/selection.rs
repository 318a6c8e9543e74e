//! Choosing the files of one run: those of a directory (narrowed to an
//! extension when one is given), an explicitly named file, or, when nothing
//! is asked for, the files of the working directory with the default
//! extension.
use crate::candidates::{filter_extension, views, with_extension};
use crate::path::DOT;
use vstd::prelude::*;
use vstd::string::StringSliceAdditionalSpecFns;

verus! {

/// The extension used when no argument selects any file.
pub const DEFAULT_EXTENSION: &'static str = "m3u";

/// What was found at an explicitly named path.
pub enum ExplicitFile {
    /// Nothing could be read there: it does not exist, or its metadata
    /// cannot be read.
    Missing,
    /// A regular file, with its path.
    Regular(Vec<u8>),
    /// Something that is not a regular file, such as a directory.
    NotRegular,
}

/// The outcome of choosing the files of a run.
pub enum Selection {
    /// Rewrite these files, in this order.
    Rewrite(Vec<Vec<u8>>),
    /// A directory was narrowed to an extension and no file matched.
    /// `leading_dot` says whether the extension began with `.`, which no
    /// extension ever does.
    NoMatch { leading_dot: bool },
    /// The explicitly named file could not be found.
    MissingFile,
}

/// Whether an extension begins with `.`.
pub open spec fn starts_with_dot(ext: Seq<u8>) -> bool {
    ext.len() > 0 && ext[0] == DOT
}

/// Reports whether an extension begins with `.`.
pub fn has_leading_dot(ext: &str) -> (r: bool)
    ensures
        r == starts_with_dot(ext.spec_bytes()),
{
    let b = ext.as_bytes();
    b.len() > 0 && b[0] == DOT
}

/// The files a directory contributes: all of them, or those with the
/// extension when one is given.
pub open spec fn from_directory(dir_files: Option<Seq<Seq<u8>>>, ext: Option<Seq<u8>>) -> Seq<
    Seq<u8>,
> {
    match dir_files {
        None => Seq::empty(),
        Some(files) => match ext {
            None => files,
            Some(e) => with_extension(files, e),
        },
    }
}

/// The file an explicit path contributes: itself, if it is a regular file.
pub open spec fn from_explicit(file: Option<ExplicitFile>) -> Seq<Seq<u8>> {
    match file {
        Some(ExplicitFile::Regular(p)) => seq![p@],
        _ => Seq::empty(),
    }
}

/// The files the default contributes: those with the default extension.
pub open spec fn from_default(default_files: Option<Seq<Seq<u8>>>) -> Seq<Seq<u8>> {
    match default_files {
        None => Seq::empty(),
        Some(files) => with_extension(files, DEFAULT_EXTENSION.spec_bytes()),
    }
}

/// Whether a directory was narrowed to an extension and nothing matched.
pub open spec fn nothing_matched(dir_files: Option<Seq<Seq<u8>>>, ext: Option<Seq<u8>>) -> bool {
    dir_files is Some && ext is Some && from_directory(dir_files, ext).len() == 0
}

/// The view of an optional list of paths.
pub open spec fn opt_views(v: Option<Vec<Vec<u8>>>) -> Option<Seq<Seq<u8>>> {
    match v {
        None => None,
        Some(files) => Some(views(files@)),
    }
}

/// The view of an optional extension.
pub open spec fn opt_bytes(ext: Option<&str>) -> Option<Seq<u8>> {
    match ext {
        None => None,
        Some(e) => Some(e.spec_bytes()),
    }
}

/// Chooses the files of a run.
///
/// `dir_files` is the listing of the requested directory (empty if it could
/// not be listed), `ext` the requested extension, `file` what was found at
/// the explicitly named path, and `default_files` the listing of the working
/// directory, present only when no argument was given at all. An extension
/// narrows the directory's files only; it is ignored without a directory.
///
/// A directory narrowed to an extension with no match ends the run first,
/// then a missing explicit file. Otherwise the files are the directory's,
/// then the explicit one, then the default ones.
pub fn select_files(
    dir_files: Option<Vec<Vec<u8>>>,
    ext: Option<&str>,
    file: Option<ExplicitFile>,
    default_files: Option<Vec<Vec<u8>>>,
) -> (r: Selection)
    ensures
        (r is NoMatch) == nothing_matched(opt_views(dir_files), opt_bytes(ext)),
        r is NoMatch ==> r->leading_dot == starts_with_dot(opt_bytes(ext)->Some_0),
        (r is MissingFile) == (!nothing_matched(opt_views(dir_files), opt_bytes(ext))
            && file matches Some(ExplicitFile::Missing)),
        r is Rewrite ==> views(r->Rewrite_0@) == from_directory(opt_views(dir_files), opt_bytes(ext))
            + from_explicit(file) + from_default(opt_views(default_files)),
{
    let mut files: Vec<Vec<u8>> = Vec::new();
    if let Some(listed) = dir_files {
        match ext {
            Some(e) => {
                files = filter_extension(listed, e);
                if files.len() == 0 {
                    return Selection::NoMatch { leading_dot: has_leading_dot(e) };
                }
            },
            None => {
                files = listed;
            },
        }
    }
    match file {
        Some(ExplicitFile::Missing) => {
            return Selection::MissingFile;
        },
        Some(ExplicitFile::Regular(p)) => {
            files.push(p);
        },
        _ => {},
    }
    if let Some(listed) = default_files {
        let mut kept = filter_extension(listed, DEFAULT_EXTENSION);
        files.append(&mut kept);
    }
    assert(views(files@) =~= from_directory(opt_views(dir_files), opt_bytes(ext)) + from_explicit(
        file,
    ) + from_default(opt_views(default_files)));
    Selection::Rewrite(files)
}

} // verus!
