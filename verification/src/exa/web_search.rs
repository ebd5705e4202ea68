//! A web search tool backed by the Exa `/search` endpoint.

use vstd::prelude::*;
use vstd::string::*;

use crate::exa::ExaConfig;
use crate::failure::Failure;
use crate::json::{document, string_member, Json};
use crate::text::{
    decimal, numeral, trim, trim_end, trim_end_matches, trimmed, trimmed_end, without_trailing,
};
use crate::tool::{Policy, Tool, ToolDefinitionView, ToolOutput, ToolOutputView};
use crate::tool_search::query_of;

verus! {

/// What a search asks for besides the hits.
#[derive(Debug, Clone, Copy, PartialEq, Eq, Structural)]
pub struct Contents {
    pub highlights: bool,
    pub summary: bool,
}

/// A search request.
#[derive(Debug)]
pub struct SearchRequest {
    pub query: String,
    pub contents: Contents,
}

/// A hit.
#[derive(Debug)]
pub struct SearchResult {
    pub title: String,
    pub url: String,
    pub highlights: Option<Vec<String>>,
    pub summary: Option<String>,
}

#[verifier::ext_equal]
pub struct SearchResultView {
    pub title: Seq<char>,
    pub url: Seq<char>,
    pub highlights: Option<Seq<Seq<char>>>,
    pub summary: Option<Seq<char>>,
}

impl View for SearchResult {
    type V = SearchResultView;

    open spec fn view(&self) -> SearchResultView {
        SearchResultView {
            title: self.title@,
            url: self.url@,
            highlights: self.highlights.deep_view(),
            summary: self.summary.deep_view(),
        }
    }
}

impl DeepView for SearchResult {
    type V = SearchResultView;

    open spec fn deep_view(&self) -> SearchResultView {
        self@
    }
}

/// What is shown of a hit: its first highlight, else its summary, else
/// nothing.
pub open spec fn snippet_of(r: SearchResultView) -> Seq<char> {
    let summary = match r.summary {
        Some(text) => text,
        None => Seq::empty(),
    };
    match r.highlights {
        Some(highlights) => if highlights.len() > 0 {
            highlights[0]
        } else {
            summary
        },
        None => summary,
    }
}

/// A hit as a numbered block.
pub open spec fn result_block(number: nat, r: SearchResultView) -> Seq<char> {
    numeral(number) + ". "@ + r.title + "\n   "@ + r.url + "\n   "@ + trimmed(snippet_of(r))
        + "\n\n"@
}

/// The hits as blocks, numbered from one.
pub open spec fn result_blocks(results: Seq<SearchResultView>) -> Seq<char>
    decreases results.len(),
{
    if results.len() == 0 {
        Seq::empty()
    } else {
        result_blocks(results.drop_last()) + result_block(results.len(), results.last())
    }
}

/// A list of hits as text. An empty list says so.
pub open spec fn results_text(results: Seq<SearchResultView>) -> Seq<char> {
    if results.len() == 0 {
        "No results."@
    } else {
        trimmed_end(result_blocks(results))
    }
}

fn snippet(r: &SearchResult) -> (text: String)
    ensures
        text@ == snippet_of(r@),
{
    let summary = match &r.summary {
        Some(text) => text.clone(),
        None => String::new(),
    };
    match &r.highlights {
        Some(highlights) => {
            assert(r@.highlights == Some(highlights.deep_view()));
            if highlights.len() > 0 {
                assert(highlights.deep_view()[0] == highlights@[0]@);
                highlights[0].clone()
            } else {
                summary
            }
        },
        None => summary,
    }
}

/// Renders the hits as a compact block for the model: number, title, address
/// and snippet of each.
pub fn render_results(results: &Vec<SearchResult>) -> (r: String)
    ensures
        r@ == results_text(results.deep_view()),
{
    if results.len() == 0 {
        return "No results.".to_owned();
    }
    let ghost all = results.deep_view();
    let mut out = String::new();
    let mut i: usize = 0;
    assert(out@ =~= result_blocks(all.take(0)));
    while i < results.len()
        invariant
            i <= results@.len(),
            all == results.deep_view(),
            out@ == result_blocks(all.take(i as int)),
        decreases results@.len() - i,
    {
        proof {
            let next = all.take(i + 1);
            assert(next.drop_last() =~= all.take(i as int));
            assert(next.last() == results@[i as int]@);
            assert(next.len() == i + 1);
        }
        let number: usize = i + 1;
        let label = decimal(number as u64);
        let text = snippet(&results[i]);
        let shown = trim(text.as_str());
        let ghost before = out@;
        out.append(label.as_str());
        out.append(". ");
        out.append(results[i].title.as_str());
        out.append("\n   ");
        out.append(results[i].url.as_str());
        out.append("\n   ");
        out.append(shown.as_str());
        out.append("\n\n");
        assert(out@ =~= before + result_block((i + 1) as nat, results@[i as int]@));
        i += 1;
    }
    assert(all.take(i as int) =~= all);
    trim_end(out.as_str())
}

/// What a reply of the service comes to. A refused search is an answer for
/// the model; a reply that cannot be read is a failure.
pub open spec fn reply_outcome(
    success: bool,
    status: Seq<char>,
    body: Seq<char>,
    parsed: Option<Seq<SearchResultView>>,
) -> Result<ToolOutputView, Seq<char>> {
    if !success {
        Ok(
            ToolOutputView {
                text: "Exa search failed (HTTP "@ + status + "): "@ + body,
                is_error: true,
            },
        )
    } else {
        match parsed {
            Some(results) => Ok(ToolOutputView { text: results_text(results), is_error: false }),
            None => Err("failed to parse exa response: "@ + body),
        }
    }
}

/// The tool output of a reply, given its hits as far as they could be read.
pub fn read_reply(success: bool, status: &str, body: &str, parsed: Option<Vec<SearchResult>>) -> (r:
    Result<ToolOutput, Failure>)
    ensures
        match r {
            Ok(output) => reply_outcome(success, status@, body@, parsed.deep_view()) == Ok::<
                ToolOutputView,
                Seq<char>,
            >(output@),
            Err(failure) => reply_outcome(success, status@, body@, parsed.deep_view()) == Err::<
                ToolOutputView,
                Seq<char>,
            >(failure@),
        },
{
    if !success {
        let mut text = "Exa search failed (HTTP ".to_owned();
        text.append(status);
        text.append("): ");
        text.append(body);
        return Ok(ToolOutput { text, is_error: true });
    }
    match parsed {
        Some(results) => Ok(ToolOutput { text: render_results(&results), is_error: false }),
        None => {
            let mut message = "failed to parse exa response: ".to_owned();
            message.append(body);
            Err(Failure { message })
        },
    }
}

/// The web search tool. It only reads, so no confirmation is needed.
#[derive(Debug)]
pub struct ExaWebSearch {
    pub config: ExaConfig,
}

impl ExaWebSearch {
    pub fn new(config: ExaConfig) -> (r: Self)
        ensures
            r.config == config,
    {
        ExaWebSearch { config }
    }

    /// The address of the search.
    pub fn endpoint(&self) -> (r: String)
        ensures
            r@ == without_trailing(self.config.base_url@, '/') + "/search"@,
    {
        let mut r = trim_end_matches(self.config.base_url.as_str(), '/');
        r.append("/search");
        r
    }

    /// The request for a query.
    pub fn request_for(query: String) -> (r: SearchRequest)
        ensures
            r.query == query,
            r.contents == (Contents { highlights: true, summary: true }),
    {
        SearchRequest { query, contents: Contents { highlights: true, summary: true } }
    }

    /// The request of a call. It fails where the input has no query.
    pub fn request(&self, input: &Json) -> (r: Result<SearchRequest, Failure>)
        ensures
            match string_member(input@, "query"@) {
                Some(query) => r matches Ok(request) && request.query@ == query
                    && request.contents == (Contents { highlights: true, summary: true }),
                None => r matches Err(failure) && failure@
                    == "input must contain a `query` string"@,
            },
    {
        match query_of(input.get_str("query")) {
            Ok(query) => Ok(ExaWebSearch::request_for(query)),
            Err(failure) => Err(failure),
        }
    }
}

impl Tool for ExaWebSearch {
    open spec fn described(&self) -> ToolDefinitionView {
        ToolDefinitionView {
            name: "web_search"@,
            description: "Search the web for current events, recent information, or anything you don't know. Use this when the user's question requires up-to-date facts that are not in your training data."@,
            input_schema: document(
                "{\"properties\":{\"query\":{\"description\":\"The search query.\",\"type\":\"string\"}},\"required\":[\"query\"],\"type\":\"object\"}"@,
            ),
        }
    }

    fn name(&self) -> (r: &str) {
        "web_search"
    }

    fn description(&self) -> (r: &str) {
        "Search the web for current events, recent information, or anything you don't know. Use this when the user's question requires up-to-date facts that are not in your training data."
    }

    fn input_schema(&self) -> (r: Json) {
        Json::parse_or_null(
            "{\"properties\":{\"query\":{\"description\":\"The search query.\",\"type\":\"string\"}},\"required\":[\"query\"],\"type\":\"object\"}",
        )
    }

    fn policy(&self) -> (r: Policy)
        ensures
            r == Policy::Auto,
    {
        Policy::Auto
    }
}

} // verus!
