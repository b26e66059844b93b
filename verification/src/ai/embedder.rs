//! The embedding request for a batch of texts.
use vstd::prelude::*;
use vstd::string::*;

verus! {

/// Embedding endpoint.
pub const API_URL: &'static str = "https://api.voyageai.com/v1/embeddings";

/// Embedding model.
pub const MODEL: &'static str = "voyage-3-lite";

/// An embedding request.
pub struct Request {
    pub model: &'static str,
    pub input: Vec<String>,
}

/// The views of a sequence of string slices.
pub open spec fn str_views(v: Seq<&str>) -> Seq<Seq<char>> {
    v.map_values(|x: &str| x@)
}

/// The views of a sequence of strings.
pub open spec fn string_views(v: Seq<String>) -> Seq<Seq<char>> {
    v.map_values(|x: String| x@)
}

/// The request embedding `texts`, in order.
pub fn build_request(texts: &[&str]) -> (r: Request)
    ensures
        r.model@ == MODEL@,
        string_views(r.input@) == str_views(texts@),
{
    let mut input: Vec<String> = Vec::new();
    for i in 0..texts.len()
        invariant
            string_views(input@) == str_views(texts@.take(i as int)),
    {
        let ghost before = input@;
        let t: &str = texts[i];
        let owned = String::from_str(t);
        input.push(owned);
        assert(input@ == before.push(owned));
        assert(string_views(input@) =~= string_views(before).push(t@));
        assert(texts@.take(i + 1) =~= texts@.take(i as int).push(t));
        assert(str_views(texts@.take(i + 1)) =~= str_views(texts@.take(i as int)).push(t@));
        assert(string_views(input@) =~= str_views(texts@.take(i + 1)));
    }
    assert(texts@.take(texts@.len() as int) =~= texts@);
    Request { model: MODEL, input }
}

} // verus!
