use vstd::prelude::*;

verus! {

/// The path that `Path::with_extension` makes of a path and an extension.
pub uninterp spec fn with_extension_of(path: Seq<char>, ext: Seq<char>) -> Seq<char>;

/// The text holds no path separator, on any platform.
pub open spec fn no_separator(s: Seq<char>) -> bool {
    forall|i: int| 0 <= i < s.len() ==> s[i] != '/' && s[i] != '\\'
}

/// Relies on `std::path::Path::with_extension`: the path with its file
/// extension replaced by `ext` (or added, or removed when `ext` is empty),
/// computed from the two texts alone. It panics on an extension that holds a
/// path separator, which the precondition rules out.
#[verifier::external_body]
fn path_with_extension(path: &str, ext: &str) -> (r: String)
    requires
        no_separator(ext@),
    ensures
        r@ == with_extension_of(path@, ext@),
{
    std::path::Path::new(path).with_extension(ext).to_string_lossy().into_owned()
}

/// The path with its extension changed to `ext`, as used to name the output
/// file and the files that the assembler and linker make from it.
pub fn change_ext(path: &str, ext: &str) -> (r: String)
    requires
        no_separator(ext@),
    ensures
        r@ == with_extension_of(path@, ext@),
{
    path_with_extension(path, ext)
}

} // verus!
