//! JSON documents, told apart by what they hold rather than how they are written.
use vstd::prelude::*;

verus! {

/// What comparing two JSON documents with `serde_json` gives: whether they hold
/// the same value, or the sentence that says why one cannot be read.
pub uninterp spec fn json_comparison(expected: Seq<u8>, actual: Seq<u8>) -> Result<
    bool,
    Seq<char>,
>;

/// The view of a comparison's result.
pub open spec fn comparison_view(r: Result<bool, String>) -> Result<bool, Seq<char>> {
    match r {
        Ok(same) => Ok(same),
        Err(e) => Err(e@),
    }
}

/// Calls `serde_json::from_slice` on two documents and compares the values. The
/// result has a name; a document that can be read holds the same value as itself.
#[verifier::external_body]
pub(crate) fn compare_json(expected: &[u8], actual: &[u8]) -> (r: Result<bool, String>)
    ensures
        comparison_view(r) == json_comparison(expected@, actual@),
        expected@ == actual@ ==> (r matches Ok(same) ==> same),
{
    let a: serde_json::Value = serde_json::from_slice(expected).map_err(|e| e.to_string())?;
    let b: serde_json::Value = serde_json::from_slice(actual).map_err(|e| e.to_string())?;
    Ok(a == b)
}

} // verus!
