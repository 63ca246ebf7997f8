use vstd::prelude::*;

verus! {

/// The path that `Path::join` makes of a base and a further path.
pub uninterp spec fn path_joined(base: Seq<char>, rest: Seq<char>) -> Seq<char>;

/// The last component of a path, as `Path::file_name` reads it.
pub uninterp spec fn path_file_name(p: Seq<char>) -> Option<Seq<char>>;

/// `rest` appended to `base` as a path.
///
/// Relies on `std::path::Path::join`; both arguments are strings, so the
/// result is one too and converts back without loss.
#[verifier::external_body]
pub(crate) fn join_path(base: &String, rest: &String) -> (r: String)
    ensures
        r@ == path_joined(base@, rest@),
{
    std::path::Path::new(base.as_str()).join(rest.as_str()).to_string_lossy().into_owned()
}

/// The last component of a path, where it has one.
///
/// Relies on `std::path::Path::file_name`, which gives `None` for a path
/// that ends in `..` or is a root.
#[verifier::external_body]
pub(crate) fn file_name_of(p: &String) -> (r: Option<String>)
    ensures
        r matches Some(n) ==> path_file_name(p@) == Some(n@),
        r is None ==> path_file_name(p@) is None,
{
    std::path::Path::new(p.as_str()).file_name().map(|n| n.to_string_lossy().into_owned())
}

} // verus!
