//! Building the candidate set: the regular files of a directory listing,
//! narrowed to one extension.
use crate::path::{
    dotless, extension, file_name, has_extension, lemma_dotless_name_has_no_extension,
    lemma_extension_is_name_suffix, DOT,
};
use vstd::prelude::*;
use vstd::string::StringSliceAdditionalSpecFns;

verus! {

/// The byte strings that a list of paths holds.
pub open spec fn views(s: Seq<Vec<u8>>) -> Seq<Seq<u8>> {
    s.map_values(|v: Vec<u8>| v@)
}

/// One entry of a directory listing, as the listing reported it.
pub enum ListedEntry {
    /// An entry whose kind could not be read.
    Unreadable,
    /// A regular file, with its path.
    RegularFile(Vec<u8>),
    /// A directory, a symbolic link or a special file.
    Other,
}

/// The paths of the regular files of a listing, in listing order.
pub open spec fn regular_paths(entries: Seq<ListedEntry>) -> Seq<Seq<u8>>
    decreases entries.len(),
{
    if entries.len() == 0 {
        Seq::empty()
    } else {
        let rest = regular_paths(entries.drop_last());
        match entries.last() {
            ListedEntry::RegularFile(p) => rest.push(p@),
            _ => rest,
        }
    }
}

/// Whether `p` is the path of a regular-file entry of the listing.
pub open spec fn listed_as_regular(entries: Seq<ListedEntry>, p: Seq<u8>) -> bool {
    exists|j: int|
        0 <= j < entries.len() && (#[trigger] entries[j]) is RegularFile
            && entries[j]->RegularFile_0@ == p
}

/// How many entries of a listing are regular files.
pub open spec fn count_regular(entries: Seq<ListedEntry>) -> nat {
    entries.filter(|e: ListedEntry| e is RegularFile).len()
}

/// Keeps the paths of the regular files of a directory listing, in listing
/// order. Entries that could not be read are skipped, as are directories,
/// symbolic links and special files.
pub fn regular_files(entries: Vec<ListedEntry>) -> (r: Vec<Vec<u8>>)
    ensures
        views(r@) == regular_paths(entries@),
        r@.len() == count_regular(entries@),
        forall|i: int|
            0 <= i < r@.len() ==> listed_as_regular(entries@, #[trigger] r@[i]@),
{
    let mut out: Vec<Vec<u8>> = Vec::new();
    let mut i: usize = 0;
    while i < entries.len()
        invariant
            i <= entries@.len(),
            views(out@) == regular_paths(entries@.subrange(0, i as int)),
        decreases entries@.len() - i,
    {
        let ghost after = entries@.subrange(0, i + 1);
        assert(after.drop_last() =~= entries@.subrange(0, i as int));
        match &entries[i] {
            ListedEntry::RegularFile(p) => {
                let f = p.clone();
                assert(f@ =~= p@);
                out.push(f);
                assert(views(out@) =~= regular_paths(after));
            },
            _ => {},
        }
        i += 1;
    }
    assert(entries@.subrange(0, entries@.len() as int) =~= entries@);
    proof {
        lemma_regular_paths_count(entries@);
        assert forall|i: int| 0 <= i < out@.len() implies listed_as_regular(
            entries@,
            #[trigger] out@[i]@,
        ) by {
            assert(views(out@)[i] == out@[i]@);
            lemma_regular_paths_origin(entries@, i);
        }
    }
    out
}

/// The listing's regular files are exactly as many as its regular entries.
pub proof fn lemma_regular_paths_count(entries: Seq<ListedEntry>)
    ensures
        regular_paths(entries).len() == count_regular(entries),
    decreases entries.len(),
{
    reveal(Seq::filter);
    if entries.len() > 0 {
        lemma_regular_paths_count(entries.drop_last());
    }
}

/// Each path kept from a listing is that of one of its regular-file entries.
pub proof fn lemma_regular_paths_origin(entries: Seq<ListedEntry>, i: int)
    requires
        0 <= i < regular_paths(entries).len(),
    ensures
        listed_as_regular(entries, regular_paths(entries)[i]),
    decreases entries.len(),
{
    let rest = entries.drop_last();
    if i < regular_paths(rest).len() {
        lemma_regular_paths_origin(rest, i);
        let j = choose|j: int|
            0 <= j < rest.len() && (#[trigger] rest[j]) is RegularFile
                && rest[j]->RegularFile_0@ == regular_paths(rest)[i];
        assert(entries[j] == rest[j]);
        assert(regular_paths(entries)[i] == regular_paths(rest)[i]);
    } else {
        assert(entries[entries.len() - 1] == entries.last());
        assert(entries.last() is RegularFile);
    }
}

/// Whether a path's extension is exactly `ext`.
pub open spec fn extension_is(p: Seq<u8>, ext: Seq<u8>) -> bool {
    extension(p) == Some(ext)
}

/// The paths of `files` whose extension is exactly `ext`, in their order.
pub open spec fn with_extension(files: Seq<Seq<u8>>, ext: Seq<u8>) -> Seq<Seq<u8>> {
    files.filter(|p: Seq<u8>| extension_is(p, ext))
}

/// Keeps the paths whose extension equals `ext` (case-sensitive, with no
/// leading `.`), in their order. A path with no extension is dropped.
pub fn filter_extension(files: Vec<Vec<u8>>, ext: &str) -> (r: Vec<Vec<u8>>)
    ensures
        views(r@) == with_extension(views(files@), ext.spec_bytes()),
{
    let ext_bytes = ext.as_bytes();
    let ghost pred = |p: Seq<u8>| extension_is(p, ext.spec_bytes());
    let mut out: Vec<Vec<u8>> = Vec::new();
    let mut i: usize = 0;
    while i < files.len()
        invariant
            i <= files@.len(),
            ext_bytes@ == ext.spec_bytes(),
            pred == (|p: Seq<u8>| extension_is(p, ext.spec_bytes())),
            views(out@) == views(files@.subrange(0, i as int)).filter(pred),
        decreases files@.len() - i,
    {
        let ghost before = views(files@.subrange(0, i as int));
        let ghost after = views(files@.subrange(0, i + 1));
        assert(after.drop_last() =~= before);
        assert(after.last() == files@[i as int]@);
        reveal(Seq::filter);
        if has_extension(files[i].as_slice(), ext_bytes) {
            let f = files[i].clone();
            assert(f@ =~= files@[i as int]@);
            out.push(f);
            assert(views(out@) =~= after.filter(pred));
        } else {
            assert(views(out@) =~= after.filter(pred));
        }
        i += 1;
    }
    assert(files@.subrange(0, files@.len() as int) =~= files@);
    out
}

/// Every path kept by the extension filter has a file name that ends in `.`
/// followed by the extension.
pub proof fn lemma_kept_names_end_with_extension(files: Seq<Seq<u8>>, ext: Seq<u8>, i: int)
    requires
        0 <= i < with_extension(files, ext).len(),
    ensures
        file_name(with_extension(files, ext)[i]) is Some,
        ({
            let n = file_name(with_extension(files, ext)[i])->Some_0;
            &&& n.len() >= ext.len() + 1
            &&& n.subrange(n.len() - ext.len() - 1, n.len() as int) == seq![DOT] + ext
        }),
{
    let pred = |p: Seq<u8>| extension_is(p, ext);
    files.lemma_filter_pred(pred, i);
    lemma_extension_is_name_suffix(with_extension(files, ext)[i]);
}

/// A path whose file name holds no `.` is never kept, whatever the extension.
pub proof fn lemma_dotless_names_never_kept(files: Seq<Seq<u8>>, ext: Seq<u8>, p: Seq<u8>)
    requires
        file_name(p) is Some,
        dotless(file_name(p)->Some_0),
    ensures
        !with_extension(files, ext).contains(p),
{
    let pred = |q: Seq<u8>| extension_is(q, ext);
    lemma_dotless_name_has_no_extension(p);
    if with_extension(files, ext).contains(p) {
        let i = choose|i: int|
            0 <= i < with_extension(files, ext).len() && with_extension(files, ext)[i] == p;
        files.lemma_filter_pred(pred, i);
    }
}

/// An extension that starts with `.` matches no path: the filter keeps nothing.
pub proof fn lemma_dotted_extension_keeps_nothing(files: Seq<Seq<u8>>, ext: Seq<u8>)
    requires
        ext.len() > 0,
        ext[0] == DOT,
    ensures
        with_extension(files, ext).len() == 0,
{
    let pred = |p: Seq<u8>| extension_is(p, ext);
    if with_extension(files, ext).len() > 0 {
        files.lemma_filter_pred(pred, 0);
        lemma_extension_is_name_suffix(with_extension(files, ext)[0]);
        assert(!dotless(ext));
    }
}

} // verus!
