use vstd::prelude::*;

use crate::error::StoreError;

verus! {

/// The format in which search results are written.
#[derive(Clone, Copy, Debug, PartialEq, Eq, Structural)]
pub enum Output {
    Ldif,
    Csv,
}

/// A search to run under the active profile's search base.
#[derive(Debug)]
pub struct SearchRequest {
    pub filter: String,
    /// The attributes to return; all of them where empty.
    pub attributes: Vec<String>,
}

/// The pieces joined again, with `sep` between each two.
pub open spec fn join_with(pieces: Seq<Seq<char>>, sep: char) -> Seq<char>
    decreases pieces.len(),
{
    if pieces.len() == 0 {
        Seq::empty()
    } else if pieces.len() == 1 {
        pieces[0]
    } else {
        join_with(pieces.drop_last(), sep) + seq![sep] + pieces.last()
    }
}

/// Whether `pieces` is `s` cut at every `sep`: they join back to `s`, and
/// none holds a `sep`.
pub open spec fn split_at_sep(s: Seq<char>, sep: char, pieces: Seq<Seq<char>>) -> bool {
    &&& pieces.len() > 0
    &&& join_with(pieces, sep) == s
    &&& forall|i: int| 0 <= i < pieces.len() ==> !(#[trigger] pieces[i]).contains(sep)
}

/// The characters of each string.
pub open spec fn views(v: Seq<String>) -> Seq<Seq<char>> {
    v.map_values(|p: String| p@)
}

/// Relies on `str::split` with a `char` pattern: the substrings between
/// the occurrences of `sep` in `s`, in order, one more than there are
/// occurrences.
#[verifier::external_body]
fn split_on(s: &str, sep: char) -> (r: Vec<String>)
    ensures
        split_at_sep(s@, sep, views(r@)),
{
    s.split(sep).map(|p| p.to_owned()).collect()
}

/// A search from its arguments: `MissingFilter` without a filter; the
/// attribute list, where given, is cut at its commas.
pub fn search_request(filter: Option<String>, attributes: Option<String>) -> (r: Result<
    SearchRequest,
    StoreError,
>)
    ensures
        filter is None ==> r == Err::<SearchRequest, StoreError>(StoreError::MissingFilter),
        filter matches Some(f) ==> r matches Ok(q) && q.filter == f && (attributes is None
            ==> q.attributes@.len() == 0) && (attributes matches Some(a) ==> split_at_sep(
            a@,
            ',',
            views(q.attributes@),
        )),
{
    let filter = match filter {
        Some(f) => f,
        None => return Err(StoreError::MissingFilter),
    };
    let attributes = match attributes {
        Some(list) => split_on(list.as_str(), ','),
        None => Vec::new(),
    };
    Ok(SearchRequest { filter, attributes })
}

} // verus!
