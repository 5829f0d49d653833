//! The authorization pipeline: from a board lookup and a presented key to a
//! board id and an authority level, and the checks made against it.
use crate::error::{ErrorView, RequestError};
use crate::keys::{authority_for, authority_of_option, ApiKey, AuthorityLevel, BoardKeys, KeySet};
use crate::text::{blank, trim, trim_of};
use vstd::prelude::*;

verus! {

/// The store's identifier of a board.
pub type Id = i32;

/// The presented key, as text.
pub open spec fn presented_view(k: Option<ApiKey>) -> Option<Seq<char>> {
    match k {
        Some(key) => Some(key.0@),
        None => None,
    }
}

/// The outcome of requiring `required` of a caller holding `auth`: no
/// authority at all is `Unauthorized`, too little is `Forbidden`.
pub open spec fn check_auth_spec(auth: AuthorityLevel, required: AuthorityLevel) -> Result<
    (),
    ErrorView,
> {
    if auth == AuthorityLevel::Unauthorized {
        Err(ErrorView::Unauthorized)
    } else if auth.rank() < required.rank() {
        Err(ErrorView::Forbidden)
    } else {
        Ok(())
    }
}

/// Requires at least `required` of a caller holding `auth`.
pub fn check_auth(auth: AuthorityLevel, required: AuthorityLevel) -> (r: Result<(), RequestError>)
    ensures
        match r {
            Ok(()) => check_auth_spec(auth, required) == Ok::<(), ErrorView>(()),
            Err(e) => check_auth_spec(auth, required) == Err::<(), ErrorView>(e@),
        },
{
    if auth == AuthorityLevel::Unauthorized {
        Err(RequestError::Unauthorized)
    } else if !auth.at_least(required) {
        Err(RequestError::Forbidden)
    } else {
        Ok(())
    }
}

/// The name a board is stored under: `name` trimmed, which must not be empty.
pub fn validate_board_name(name: String) -> (r: Result<String, RequestError>)
    ensures
        match r {
            Ok(t) => t@ == trim_of(name@) && t@.len() > 0,
            Err(e) => e@ == ErrorView::InvalidBoardName(trim_of(name@)) && trim_of(name@).len()
                == 0,
        },
        r is Err <==> blank(name@),
{
    let t = trim(name.as_str());
    if t.as_str().is_empty() {
        Err(RequestError::InvalidBoardName(t))
    } else {
        Ok(t)
    }
}

/// The outcome of resolving a board named `name`: `found` is what the lookup
/// by name gave (the board's id and keys), `presented` the key sent along.
pub open spec fn resolve_spec(
    name: Seq<char>,
    found: Option<(int, KeySet)>,
    presented: Option<Seq<char>>,
) -> Result<(int, AuthorityLevel), ErrorView> {
    match found {
        None => Err(ErrorView::NoSuchBoard(name)),
        Some((id, keys)) => Ok((id, authority_of_option(keys, presented))),
    }
}

/// Views the result of a resolution.
pub open spec fn resolved_view(r: Result<(Id, AuthorityLevel), RequestError>) -> Result<
    (int, AuthorityLevel),
    ErrorView,
> {
    match r {
        Ok((id, auth)) => Ok((id as int, auth)),
        Err(e) => Err(e@),
    }
}

/// Views the outcome of a lookup by name.
pub open spec fn found_view(found: Option<(Id, &BoardKeys)>) -> Option<(int, KeySet)> {
    match found {
        Some((id, keys)) => Some((id as int, keys@)),
        None => None,
    }
}

/// Resolves a board to its id and the authority of `presented`, given what
/// the lookup of `name` found. It changes nothing.
pub fn resolve_board(name: &String, found: Option<(Id, &BoardKeys)>, presented: &Option<ApiKey>) -> (r:
    Result<(Id, AuthorityLevel), RequestError>)
    ensures
        resolved_view(r) == resolve_spec(name@, found_view(found), presented_view(*presented)),
{
    match found {
        None => Err(RequestError::NoSuchBoard(name.clone())),
        Some((id, keys)) => Ok((id, authority_for(keys, presented))),
    }
}

} // verus!
