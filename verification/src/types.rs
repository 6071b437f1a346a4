use vstd::prelude::*;

verus! {

/// One ranked search hit as the search operation returns it. A sequence of
/// these, in relevance order, forms the current result set.
pub struct Search {
    pub ns: i64,
    pub title: String,
    pub pageid: i64,
    pub size: i64,
    pub wordcount: i64,
    pub snippet: String,
    pub timestamp: String,
}

/// Mathematical image of a hit: plain integers and character sequences.
#[verifier::ext_equal]
pub ghost struct HitView {
    pub ns: int,
    pub title: Seq<char>,
    pub pageid: int,
    pub size: int,
    pub wordcount: int,
    pub snippet: Seq<char>,
    pub timestamp: Seq<char>,
}

impl View for Search {
    type V = HitView;

    open spec fn view(&self) -> HitView {
        HitView {
            ns: self.ns as int,
            title: self.title@,
            pageid: self.pageid as int,
            size: self.size as int,
            wordcount: self.wordcount as int,
            snippet: self.snippet@,
            timestamp: self.timestamp@,
        }
    }
}

impl Clone for Search {
    fn clone(&self) -> (r: Self)
        ensures
            r@ == self@,
    {
        Search {
            ns: self.ns,
            title: self.title.clone(),
            pageid: self.pageid,
            size: self.size,
            wordcount: self.wordcount,
            snippet: self.snippet.clone(),
            timestamp: self.timestamp.clone(),
        }
    }
}

/// The sequence of hit views behind a vector of hits.
pub open spec fn hits_view(hits: Seq<Search>) -> Seq<HitView> {
    hits.map_values(|h: Search| h@)
}

/// Summary counters that accompany a completed search.
pub struct Searchinfo {
    pub totalhits: i64,
    pub suggestion: Option<String>,
    pub suggestionsnippet: Option<String>,
}

/// Continuation token for the next page of results; the client reads only
/// the first page, so this is carried but never followed.
pub struct Continue {
    pub sroffset: i64,
    pub continue_continue: String,
}

/// The ranked hits of one completed search together with its counters.
pub struct Query {
    pub searchinfo: Searchinfo,
    pub search: Vec<Search>,
}

/// Everything the search operation hands back for one query.
pub struct SearchResponse {
    pub batchcomplete: String,
    pub search_response_continue: Option<Continue>,
    pub query: Query,
}

/// The raw hypertext body of one page, as the article fetch returns it.
pub struct Parse {
    pub title: String,
    pub pageid: i64,
    pub text: String,
}

/// Envelope around the fetched page body.
pub struct HtmlPageResult {
    pub parse: Parse,
}

/// Failure of one of the two remote operations: the request itself failed,
/// or its reply could not be decoded into the expected records.
#[derive(Clone, Copy, PartialEq, Eq, Structural, Debug)]
pub enum FetchError {
    Network,
    Decode,
}

impl FetchError {
    /// The transient message the client surfaces inline for this failure.
    pub fn message(&self) -> (m: String)
        ensures
            *self == FetchError::Network ==> m@ == "the encyclopedia could not be reached"@,
            *self == FetchError::Decode ==> m@ == "the reply could not be decoded"@,
    {
        match self {
            FetchError::Network => "the encyclopedia could not be reached".to_owned(),
            FetchError::Decode => "the reply could not be decoded".to_owned(),
        }
    }
}

} // verus!
