use vstd::prelude::*;
use crate::errors::ScanError;
use crate::json::{Json, JsonV, jview, jview_arr, lemma_jview_arr, print_json, to_text};
use crate::parse::{parse_doc, parse_text};
use crate::text::chars_to_string;

verus! {

/// The newline-delimited text of the first `n` items: each item's compact
/// printed form, in order, every record terminated by one newline.
pub open spec fn ndjson_of(items: Seq<JsonV>, n: int) -> Seq<char>
    decreases n,
{
    if n <= 0 || items.len() < n {
        Seq::empty()
    } else {
        ndjson_of(items, n - 1) + print_json(items[n - 1]) + seq!['\n']
    }
}

/// What normalizing under the `Array` result shape yields: the array items of
/// the document, one JSON object per line, in the array's order; a text that
/// is not a single well-formed JSON array is refused.
pub open spec fn normalize_array_spec(s: Seq<char>) -> Result<Seq<char>, ScanError> {
    match parse_doc(s) {
        Some(JsonV::Arr(items)) => Ok(ndjson_of(items, items.len() as int)),
        _ => Err(ScanError::ParseFailure),
    }
}

/// Rewrites a single JSON-array document as newline-delimited JSON records,
/// preserving the array order.
pub fn json_to_ndjson(json: &str) -> (r: Result<String, ScanError>)
    ensures
        match (r, normalize_array_spec(json@)) {
            (Ok(out), Ok(sp)) => out@ == sp,
            (Err(e), Err(se)) => e == se,
            _ => false,
        },
{
    match parse_text(json) {
        Some(doc) => match doc {
            Json::Arr(v) => {
                let ghost items = jview_arr(v@, v@.len() as int);
                proof {
                    lemma_jview_arr(v@, v@.len() as int);
                }
                let mut out: Vec<char> = Vec::new();
                let mut k: usize = 0;
                while k < v.len()
                    invariant
                        0 <= k <= v@.len(),
                        items == jview_arr(v@, v@.len() as int),
                        items.len() == v@.len(),
                        forall|i: int| 0 <= i < v@.len() ==> items[i] == jview(v@[i]),
                        out@ == ndjson_of(items, k as int),
                    decreases v@.len() - k,
                {
                    let mut piece = to_text(&v[k]);
                    out.append(&mut piece);
                    out.push('\n');
                    assert(out@ =~= ndjson_of(items, k + 1 as int));
                    k = k + 1;
                }
                Ok(chars_to_string(&out))
            },
            _ => Err(ScanError::ParseFailure),
        },
        None => Err(ScanError::ParseFailure),
    }
}

/// Normalizes the output parser's text into the uniform line-oriented record
/// stream: under the `Array` shape the array is flattened to one record per
/// line; under the `Single` shape the text passes through unchanged.
pub fn normalize(text: &str, is_result_array: bool) -> (r: Result<String, ScanError>)
    ensures
        !is_result_array ==> (r matches Ok(out) && out@ == text@),
        is_result_array ==> match (r, normalize_array_spec(text@)) {
            (Ok(out), Ok(sp)) => out@ == sp,
            (Err(e), Err(se)) => e == se,
            _ => false,
        },
{
    if is_result_array {
        json_to_ndjson(text)
    } else {
        Ok(text.to_owned())
    }
}

} // verus!
