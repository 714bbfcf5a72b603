//! The two calls this engine makes into outside crates, each behind a
//! trusted contract.

use vstd::prelude::*;
use crate::paths::{abs_base, abs_path_of, clean_path, is_game_path};
use crate::strutil::contains_char;

verus! {

/// Relies on `unreal_helpers::game_to_absolute`: rebases a `/Game/` path
/// onto `<game>/Content/`, appending `.uasset` when the file name carries no
/// extension, and answers `None` exactly on paths that do not begin with
/// `/Game/`. The result is pinned down here only for game names without a
/// `$` — the game name passes through a regex replacement string, where `$`
/// starts a capture reference — and for paths whose rebased form has only
/// ordinary slash-separated segments; on other inputs only the `Some`/`None`
/// split is claimed.
#[verifier::external_body]
pub(crate) fn to_absolute(game_name: &str, path: &str) -> (r: Option<String>)
    ensures
        (r is Some) == is_game_path(path@),
        match r {
            Some(a) => (!contains_char(game_name@, '$') && clean_path(
                abs_base(game_name@, path@),
            )) ==> a@ == abs_path_of(game_name@, path@),
            None => !is_game_path(path@),
        },
{
    unreal_helpers::game_to_absolute(game_name, path)
}

/// Relies on `uuid::Uuid::new_v4`: a freshly drawn random 128-bit
/// identifier. Nothing is promised of the bytes that come back.
#[verifier::external_body]
pub(crate) fn fresh_guid() -> (r: [u8; 16]) {
    uuid::Uuid::new_v4().into_bytes()
}

} // verus!
