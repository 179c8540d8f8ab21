//! Turning a module path such as `a::b` into the file that should hold it:
//! the segments are joined, in order, onto the directory of the importing
//! file, and the source extension is appended to the result.
use std::path::Path;
use vstd::prelude::*;
use vstd::string::StringExecFns;

verus! {

/// Extension of the compiler's source files.
pub const SOURCE_EXTENSION: &'static str = "ny";

/// The parent directory of a path, as `std::path::Path::parent` gives it.
pub uninterp spec fn parent_of(p: Seq<char>) -> Option<Seq<char>>;

/// A path with one more component, as `std::path::Path::join` gives it.
pub uninterp spec fn joined(base: Seq<char>, segment: Seq<char>) -> Seq<char>;

/// Relies on `Path::parent`: the directory that holds `p`, or `None` for a
/// root or an empty path.
#[verifier::external_body]
fn parent_dir(p: &String) -> (r: Option<String>)
    ensures
        match r {
            Some(d) => parent_of(p@) == Some(d@),
            None => parent_of(p@) is None,
        },
{
    match Path::new(p.as_str()).parent() {
        Some(d) => Some(d.to_string_lossy().into_owned()),
        None => None,
    }
}

/// Relies on `Path::join`: `base` with `segment` pushed onto it.
#[verifier::external_body]
fn join_segment(base: &String, segment: &String) -> (r: String)
    ensures
        r@ == joined(base@, segment@),
{
    Path::new(base.as_str()).join(segment.as_str()).to_string_lossy().into_owned()
}

/// `base` with every segment joined onto it, first to last.
pub open spec fn joined_all(base: Seq<char>, segments: Seq<Seq<char>>) -> Seq<char>
    decreases segments.len(),
{
    if segments.len() == 0 {
        base
    } else {
        joined(joined_all(base, segments.drop_last()), segments.last())
    }
}

/// `p` followed by a dot and the source extension.
pub open spec fn with_source_extension(p: Seq<char>) -> Seq<char> {
    p + "."@ + SOURCE_EXTENSION@
}

/// The file that the module path `segments`, written in the file at
/// `anchor`, names: nothing where `anchor` has no parent directory.
pub open spec fn candidate_path(anchor: Seq<char>, segments: Seq<Seq<char>>) -> Option<Seq<char>> {
    match parent_of(anchor) {
        Some(dir) => Some(with_source_extension(joined_all(dir, segments))),
        None => None,
    }
}

/// Builds the path of the source file that the module path `segments` names,
/// relative to the directory of the file at `anchor`.
pub fn module_candidate(anchor: &String, segments: &Vec<String>) -> (r: Option<String>)
    ensures
        match r {
            Some(p) => candidate_path(anchor@, segments@.map_values(|s: String| s@)) == Some(p@),
            None => candidate_path(anchor@, segments@.map_values(|s: String| s@)) is None,
        },
{
    let ghost segs = segments@.map_values(|s: String| s@);
    match parent_dir(anchor) {
        Some(dir) => {
            let mut path = dir;
            let mut i: usize = 0;
            while i < segments.len()
                invariant
                    i <= segments@.len(),
                    segs == segments@.map_values(|s: String| s@),
                    parent_of(anchor@) is Some,
                    path@ == joined_all(parent_of(anchor@)->Some_0, segs.take(i as int)),
                decreases segments@.len() - i,
            {
                path = join_segment(&path, &segments[i]);
                proof {
                    assert(segs.take(i + 1).drop_last() =~= segs.take(i as int));
                }
                i = i + 1;
            }
            proof {
                assert(segs.take(i as int) =~= segs);
            }
            path.append(".");
            path.append(SOURCE_EXTENSION);
            Some(path)
        },
        None => None,
    }
}

} // verus!
