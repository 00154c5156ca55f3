//! Patches between the contents of a file.
//!
//! A change says that the content under a path differs and names the two
//! contents. How they differ line by line is worked out only where someone
//! asks for it, from the two contents, by the library that the object store
//! is built on.

use vstd::prelude::*;

verus! {

/// The failure that the store's library reports.
#[verifier::external_type_specification]
#[verifier::external_body]
pub struct ExStoreError(git2::Error);

/// The patch from `before` to `after` that the store's library makes: the
/// header of the file and the hunks, each with its lines of context, as
/// text. It is nothing where the library makes no patch of these contents.
pub uninterp spec fn patch_of(before: Seq<u8>, after: Seq<u8>) -> Option<Seq<u8>>;

/// Calls `git2::Patch::from_buffers` on the two contents, without paths and
/// with the options it has of itself, and then `git2::Patch::to_buf`.
///
/// Taken on trust: that the two contents alone decide whether the call fails,
/// and the text that comes back where it does not. The library fails on
/// contents that it cannot hash or that are too large for it; that it may
/// also fail where memory runs out is left aside. The call stops the program
/// where the library under it cannot be started.
#[verifier::external_body]
fn make_patch(before: &[u8], after: &[u8]) -> (made: Result<Vec<u8>, git2::Error>)
    ensures
        match made {
            Ok(text) => patch_of(before@, after@) == Some(text@),
            Err(_) => patch_of(before@, after@) is None,
        },
{
    let mut patch = git2::Patch::from_buffers(before, None, after, None, None)?;
    Ok(patch.to_buf()?.to_vec())
}

/// What an attempt at a patch comes to: the text where it was made, and
/// nothing where the library failed.
pub fn patch_text(made: Result<Vec<u8>, git2::Error>) -> (text: Option<Vec<u8>>)
    ensures
        text == match made {
            Ok(made) => Some(made),
            Err(_) => None::<Vec<u8>>,
        },
{
    match made {
        Ok(made) => Some(made),
        Err(_) => None,
    }
}

/// The patch that turns the content `before` into the content `after`, and
/// nothing where the library makes none of them. For a path that was added
/// `before` is empty, and for one that was removed `after` is.
pub fn patch(before: &[u8], after: &[u8]) -> (text: Option<Vec<u8>>)
    ensures
        match text {
            Some(made) => patch_of(before@, after@) == Some(made@),
            None => patch_of(before@, after@) is None,
        },
{
    patch_text(make_patch(before, after))
}

} // verus!
