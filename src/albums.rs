//! The account's albums: finding one by name and reading the service's answers about them.
use vstd::prelude::*;
use crate::error::EngineError;
use crate::outcome::{is_success, is_success_status};
use crate::text::same_text;

verus! {

/// An album of the account.
#[derive(Debug, Clone)]
pub struct Album {
    pub id: i64,
    pub name: String,
}

/// The lower-case form of a text, as Unicode defines it.
pub uninterp spec fn lowercase_of(s: Seq<char>) -> Seq<char>;

/// Relies on `str::to_lowercase`: the lower-case mapping of each character, which depends on
/// the text alone.
#[verifier::external_body]
fn lowercase(s: &str) -> (r: String)
    ensures
        r@ == lowercase_of(s@),
{
    s.to_lowercase()
}

/// Whether an album's name matches `name`, case aside.
pub open spec fn name_matches(album: Album, name: Seq<char>) -> bool {
    lowercase_of(album.name@) == lowercase_of(name)
}

/// The number of the first album whose folded name equals `folded`, given the albums'
/// names already folded, one for each album in order.
pub fn first_album_with_folded_name(albums: &Vec<Album>, folded_names: &Vec<String>, folded: &str) -> (r:
    Option<i64>)
    requires
        folded_names.len() == albums.len(),
    ensures
        match r {
            Some(id) => exists|i: int|
                0 <= i < albums.len() && #[trigger] folded_names@[i]@ == folded@ && albums@[i].id == id
                    && forall|j: int| 0 <= j < i ==> #[trigger] folded_names@[j]@ != folded@,
            None => forall|i: int| 0 <= i < albums.len() ==> #[trigger] folded_names@[i]@ != folded@,
        },
{
    let mut i: usize = 0;
    while i < albums.len()
        invariant
            i <= albums.len() == folded_names.len(),
            forall|j: int| 0 <= j < i ==> #[trigger] folded_names@[j]@ != folded@,
        decreases albums.len() - i,
    {
        if same_text(folded_names[i].as_str(), folded) {
            return Some(albums[i].id);
        }
        i = i + 1;
    }
    None
}

/// The number of the first album whose name matches `name` regardless of case.
pub fn find_album_id(albums: &Vec<Album>, name: &str) -> (r: Option<i64>)
    ensures
        match r {
            Some(id) => exists|i: int|
                0 <= i < albums.len() && name_matches(#[trigger] albums@[i], name@) && albums@[i].id
                    == id && forall|j: int| 0 <= j < i ==> !name_matches(#[trigger] albums@[j], name@),
            None => forall|i: int| 0 <= i < albums.len() ==> !name_matches(#[trigger] albums@[i], name@),
        },
{
    let wanted = lowercase(name);
    let mut folded: Vec<String> = Vec::new();
    let mut i: usize = 0;
    while i < albums.len()
        invariant
            i <= albums.len(),
            folded.len() == i,
            forall|j: int| 0 <= j < i ==> #[trigger] folded@[j]@ == lowercase_of(albums@[j].name@),
        decreases albums.len() - i,
    {
        folded.push(lowercase(albums[i].name.as_str()));
        i = i + 1;
    }
    let r = first_album_with_folded_name(albums, &folded, wanted.as_str());
    proof {
        assert forall|j: int| 0 <= j < albums.len() implies (#[trigger] folded@[j]@ == wanted@)
            == name_matches(albums@[j], name@) by {}
        if let Some(id) = r {
            let k = choose|k: int|
                0 <= k < albums.len() && #[trigger] folded@[k]@ == wanted@ && albums@[k].id == id
                    && forall|j: int| 0 <= j < k ==> #[trigger] folded@[j]@ != wanted@;
            assert(name_matches(albums@[k], name@));
            assert forall|j: int| 0 <= j < k implies !name_matches(#[trigger] albums@[j], name@) by {
                assert(folded@[j]@ != wanted@);
            }
            assert(0 <= k < albums.len() && name_matches(albums@[k], name@) && albums@[k].id == id
                && forall|j: int| 0 <= j < k ==> !name_matches(#[trigger] albums@[j], name@));
        } else {
            assert forall|j: int| 0 <= j < albums.len() implies !name_matches(
                #[trigger] albums@[j],
                name@,
            ) by {
                assert(folded@[j]@ != wanted@);
            }
        }
    }
    r
}

/// Reads the answer to the album listing: a non-success status is a `Server` error, a body
/// that did not parse a `Parse` error.
pub fn albums_from_answer(status: u16, parsed: Result<Vec<Album>, String>) -> (r: Result<
    Vec<Album>,
    EngineError,
>)
    ensures
        !is_success_status(status) ==> (r matches Err(EngineError::Server { status: s }) && s == status),
        is_success_status(status) ==> match parsed {
            Err(_) => r matches Err(EngineError::Parse),
            Ok(v) => (r matches Ok(w) && w@ == v@),
        },
{
    if !is_success(status) {
        return Err(EngineError::Server { status });
    }
    match parsed {
        Err(_) => Err(EngineError::Parse),
        Ok(v) => Ok(v),
    }
}

/// The fields of the answer to an album creation that the engine reads.
#[derive(Debug, Clone, Copy, PartialEq, Eq, Structural)]
pub struct AlbumCreated {
    /// Whether the answer's `success` is the boolean `true`.
    pub success: bool,
    /// The answer's `id`, where it is an integer.
    pub id: Option<i64>,
}

/// Reads the answer to an album creation: a non-success status is a `Server` error, a body that
/// did not parse or names no number a `Parse` error, and a refusal an `UnexpectedResponse`.
pub fn created_album_id(status: u16, parsed: Result<AlbumCreated, String>) -> (r: Result<
    i64,
    EngineError,
>)
    ensures
        !is_success_status(status) ==> r == Err::<i64, EngineError>(EngineError::Server { status }),
        is_success_status(status) ==> r == match parsed {
            Err(_) => Err(EngineError::Parse),
            Ok(a) => if !a.success {
                Err(EngineError::UnexpectedResponse)
            } else {
                match a.id {
                    Some(id) => Ok(id),
                    None => Err(EngineError::Parse),
                }
            },
        },
{
    if !is_success(status) {
        return Err(EngineError::Server { status });
    }
    match parsed {
        Err(_) => Err(EngineError::Parse),
        Ok(a) => if !a.success {
            Err(EngineError::UnexpectedResponse)
        } else {
            match a.id {
                Some(id) => Ok(id),
                None => Err(EngineError::Parse),
            }
        },
    }
}

} // verus!
