//! Reading the result that the SGX guest prints on its standard output: the
//! first line that holds a JSON value carries the proof and the quote.
use vstd::prelude::*;

verus! {

/// The proof and quote produced by the SGX guest.
#[derive(Clone, Debug)]
pub struct SgxResponse {
    pub proof: String,
    pub quote: String,
}

/// serde_json::Value, carried opaquely from parsing a line to reading its fields.
#[verifier::external_type_specification]
#[verifier::external_body]
pub struct ExJsonValue(serde_json::Value);

/// The text that a byte string decodes to as UTF-8, if it is valid UTF-8.
pub uninterp spec fn utf8_decode_of(b: Seq<u8>) -> Option<Seq<char>>;

/// The lines of a text, without their line endings.
pub uninterp spec fn lines_of(s: Seq<char>) -> Seq<Seq<char>>;

/// A text without leading and trailing white space.
pub uninterp spec fn trim_of(s: Seq<char>) -> Seq<char>;

/// Whether a text is a JSON document.
pub uninterp spec fn json_valid(s: Seq<char>) -> bool;

/// Relies on String::from_utf8: it succeeds exactly on valid UTF-8, with the
/// decoded text, which depends on the bytes alone.
#[verifier::external_body]
fn decode_utf8(bytes: Vec<u8>) -> (r: Result<String, String>)
    ensures
        r is Ok <==> utf8_decode_of(bytes@) is Some,
        r matches Ok(s) ==> utf8_decode_of(bytes@) == Some(s@),
{
    String::from_utf8(bytes).map_err(|e| e.to_string())
}

/// Relies on str::lines: the lines of the text, in order.
#[verifier::external_body]
fn text_lines(s: &str) -> (r: Vec<String>)
    ensures
        r@.len() == lines_of(s@).len(),
        forall|i: int| 0 <= i < r@.len() ==> r@[i]@ == lines_of(s@)[i],
{
    s.lines().map(|l| l.to_string()).collect()
}

/// Relies on str::trim: the text without leading and trailing white space.
#[verifier::external_body]
fn trimmed(s: &str) -> (r: String)
    ensures
        r@ == trim_of(s@),
{
    s.trim().to_string()
}

/// Relies on serde_json::from_str: it yields a value exactly when the text is
/// a JSON document.
#[verifier::external_body]
fn parse_json(s: &str) -> (r: Option<serde_json::Value>)
    ensures
        r is Some <==> json_valid(s@),
{
    serde_json::from_str::<serde_json::Value>(s).ok()
}

/// Relies on serde_json::Value::get: the string stored under `key` when the
/// value is an object that maps `key` to a string.
#[verifier::external_body]
fn string_field(v: &serde_json::Value, key: &str) -> (r: Option<String>) {
    match v.get(key) {
        Some(serde_json::Value::String(s)) => Some(s.clone()),
        _ => None,
    }
}

/// No line, once trimmed, is a JSON document.
pub open spec fn no_json_line(lines: Seq<Seq<char>>) -> bool {
    forall|i: int| 0 <= i < lines.len() ==> !json_valid(#[trigger] trim_of(lines[i]))
}

/// The first line that is a JSON document once trimmed, with its index.
fn first_json_line(lines: &Vec<String>) -> (r: Option<(usize, serde_json::Value)>)
    ensures
        r is None <==> no_json_line(lines@.map_values(|l: String| l@)),
        r matches Some((i, _)) ==> {
            &&& i < lines@.len()
            &&& json_valid(trim_of(lines@[i as int]@))
            &&& forall|j: int| 0 <= j < i ==> !json_valid(#[trigger] trim_of(lines@[j]@))
        },
{
    let ghost ls = lines@.map_values(|l: String| l@);
    let mut i: usize = 0;
    while i < lines.len()
        invariant
            i <= lines@.len(),
            ls == lines@.map_values(|l: String| l@),
            forall|j: int| 0 <= j < i ==> !json_valid(#[trigger] trim_of(lines@[j]@)),
        decreases lines@.len() - i,
    {
        let t = trimmed(lines[i].as_str());
        if let Some(v) = parse_json(t.as_str()) {
            proof {
                assert(ls[i as int] == lines@[i as int]@);
            }
            return Some((i, v));
        }
        i = i + 1;
    }
    proof {
        assert forall|j: int| 0 <= j < ls.len() implies !json_valid(#[trigger] trim_of(ls[j])) by {
            assert(ls[j] == lines@[j]@);
        }
    }
    None
}

/// Reads the guest's standard output. Fails only when it is not UTF-8; when
/// no line holds a JSON value, proof and quote are empty.
pub fn parse_sgx_result(output: Vec<u8>) -> (r: Result<SgxResponse, String>)
    ensures
        r is Ok <==> utf8_decode_of(output@) is Some,
        r matches Ok(resp) ==> (no_json_line(lines_of(utf8_decode_of(output@).unwrap()))
            ==> resp.proof@ == Seq::<char>::empty() && resp.quote@ == Seq::<char>::empty()),
{
    let text = match decode_utf8(output) {
        Ok(t) => t,
        Err(e) => return Err(e),
    };
    let lines = text_lines(text.as_str());
    proof {
        assert(lines@.map_values(|l: String| l@) =~= lines_of(text@));
    }
    match first_json_line(&lines) {
        Some((_, v)) => {
            let proof = match string_field(&v, "proof") {
                Some(s) => s,
                None => String::new(),
            };
            let quote = match string_field(&v, "quote") {
                Some(s) => s,
                None => String::new(),
            };
            Ok(SgxResponse { proof, quote })
        },
        None => Ok(SgxResponse { proof: String::new(), quote: String::new() }),
    }
}

} // verus!
