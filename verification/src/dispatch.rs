//! Serving the registered pages: which page a request is for, and the
//! response that goes back once the page instance has been constructed.
//!
//! Nothing here waits or performs input or output. `handle` says what is to
//! be done for a request; where that is the construction of a page instance,
//! the caller constructs it and hands the outcome to `complete`.

use crate::error::Error;
use crate::json::{
    json_object_text, json_string, lemma_json_object_member, lemma_json_plain, needs_escape,
};
use crate::outside::json_object;
use crate::page::{PageDescriptor, PageDescriptorView};
use crate::seqs::{first_some, lemma_first_some, lemma_first_some_at, lemma_first_some_none, views};
use crate::text::{starts_with, strip_suffix};
use vstd::prelude::*;
use vstd::string::*;

verus! {

/// The two forms a page is asked for in: the document, or its data alone.
#[derive(Clone, Copy, Debug, PartialEq, Eq, Structural)]
pub enum Format {
    Html,
    Json,
}

/// A response: the status, the kind of content, and the body.
#[derive(Clone, Debug, PartialEq, Eq)]
pub struct Response {
    pub status: u16,
    pub content_type: Format,
    pub body: String,
}

/// What is to be done for a request.
#[derive(Clone, Debug, PartialEq, Eq)]
pub enum Decision {
    /// The request is for a static asset: pass it on unchanged.
    Forward,
    /// Construct the instance of the page with this index, then call
    /// `complete` with the outcome.
    Construct { page: usize, format: Format },
    /// No page is served at the path: answer with this response.
    Respond(Response),
}

/// The view of a `Response`.
pub struct ResponseView {
    pub status: u16,
    pub content_type: Format,
    pub body: Seq<char>,
}

/// The view of a `Decision`.
pub enum DecisionView {
    Forward,
    Construct { page: usize, format: Format },
    Respond(ResponseView),
}

impl View for Response {
    type V = ResponseView;

    open spec fn view(&self) -> ResponseView {
        ResponseView { status: self.status, content_type: self.content_type, body: self.body@ }
    }
}

impl View for Decision {
    type V = DecisionView;

    open spec fn view(&self) -> DecisionView {
        match self {
            Decision::Forward => DecisionView::Forward,
            Decision::Construct { page, format } => DecisionView::Construct {
                page: *page,
                format: *format,
            },
            Decision::Respond(response) => DecisionView::Respond(response@),
        }
    }
}

/// What stands before the body in every document.
pub open spec fn document_header() -> Seq<char> {
    "<!DOCTYPE html>\n<html>\n    <head>\n        <script type='text/javascript' src='https://cdnjs.cloudflare.com/ajax/libs/knockout/3.5.0/knockout-min.js'></script>\n        <script type='text/javascript' src='/static/script.js'></script>\n    </head>\n    <body>\n"@
}

/// What stands after the body in every document.
pub open spec fn document_footer() -> Seq<char> {
    "    </body>\n        </html>"@
}

/// A response that carries the document around `body`.
pub open spec fn html_response(status: u16, body: Seq<char>) -> ResponseView {
    ResponseView {
        status,
        content_type: Format::Html,
        body: document_header() + body + document_footer(),
    }
}

/// A response that carries `json` as it is.
pub open spec fn json_response(status: u16, json: Seq<char>) -> ResponseView {
    ResponseView { status, content_type: Format::Json, body: json }
}

/// The response to a request that no page is served for.
pub open spec fn not_found(format: Format) -> ResponseView {
    match format {
        Format::Html => html_response(404, "Not found"@),
        Format::Json => json_response(404, json_object_text("error"@, "not found"@)),
    }
}

/// For each page, its index where it is served at `route`.
pub open spec fn served_at(pages: Seq<PageDescriptorView>, route: Seq<char>) -> Seq<Option<int>> {
    Seq::new(
        pages.len(),
        |i: int|
            if pages[i].url == route {
                Some(i)
            } else {
                None
            },
    )
}

/// The first page served at exactly `route`.
pub open spec fn lookup(pages: Seq<PageDescriptorView>, route: Seq<char>) -> Option<int> {
    first_some(served_at(pages, route), 0)
}

/// The page that a path asks for, in the form it asks for.
pub open spec fn construct_or_miss(
    pages: Seq<PageDescriptorView>,
    route: Seq<char>,
    format: Format,
) -> DecisionView {
    match lookup(pages, route) {
        Some(i) => DecisionView::Construct { page: i as usize, format },
        None => DecisionView::Respond(not_found(format)),
    }
}

/// What is to be done for a request to `path`. A path under `/static` is
/// passed on. A path that ends in `.json` asks for the data of the page
/// served at the path without that ending; any other path asks for the
/// document of the page served at it.
pub open spec fn decision_of(pages: Seq<PageDescriptorView>, path: Seq<char>) -> DecisionView {
    if "/static"@.is_prefix_of(path) {
        DecisionView::Forward
    } else if ".json"@.is_suffix_of(path) {
        construct_or_miss(pages, path.take(path.len() - ".json"@.len()), Format::Json)
    } else {
        construct_or_miss(pages, path, Format::Html)
    }
}

/// The response for a page whose instance was constructed and serialised as
/// `json`, or whose construction failed with `detail`. A page index that
/// names no page is answered like a path that no page is served at.
pub open spec fn completion(
    pages: Seq<PageDescriptorView>,
    page: int,
    format: Format,
    outcome: Result<Seq<char>, Seq<char>>,
) -> ResponseView {
    if !(0 <= page < pages.len()) {
        not_found(format)
    } else {
        match (format, outcome) {
            (Format::Html, Ok(json)) => html_response(200, pages[page].html(json)),
            (Format::Html, Err(detail)) => html_response(
                500,
                "<h1>Internal server error</h1>"@ + detail,
            ),
            (Format::Json, Ok(json)) => json_response(200, json),
            (Format::Json, Err(detail)) => json_response(500, json_object_text("error"@, detail)),
        }
    }
}

/// Collects the pages of a server, together with the state that the
/// construction of their instances shares.
pub struct FrameworkBuilder<T> {
    pub state: T,
    pub pages: Vec<PageDescriptor>,
}

impl Default for FrameworkBuilder<()> {
    fn default() -> (r: Self)
        ensures
            r.pages@.len() == 0,
    {
        Self { state: (), pages: Vec::new() }
    }
}

impl<T> FrameworkBuilder<T> {
    /// A builder with this state and no page.
    pub fn with_state(state: T) -> (r: Self)
        ensures
            r.state == state,
            r.pages@.len() == 0,
    {
        Self { state, pages: Vec::new() }
    }

    /// Registers `page` after the pages registered so far.
    pub fn add_page(self, page: PageDescriptor) -> (r: Self)
        ensures
            r.state == self.state,
            r.pages@ == self.pages@.push(page),
    {
        let mut builder = self;
        builder.pages.push(page);
        builder
    }

    /// Parts the builder into the state and the middleware that serves the
    /// registered pages.
    pub fn into_middleware(self) -> (r: (T, FrameworkMiddleware))
        ensures
            r.0 == self.state,
            r.1.pages == self.pages,
    {
        (self.state, FrameworkMiddleware { pages: self.pages })
    }
}

/// Serves the registered pages.
pub struct FrameworkMiddleware {
    pub pages: Vec<PageDescriptor>,
}

impl FrameworkMiddleware {
    /// The response that carries the document around `body`.
    pub fn generate_html(&self, status: u16, body: &str) -> (r: Response)
        ensures
            r@ == html_response(status, body@),
    {
        let mut document = String::new();
        document.append(
            "<!DOCTYPE html>\n<html>\n    <head>\n        <script type='text/javascript' src='https://cdnjs.cloudflare.com/ajax/libs/knockout/3.5.0/knockout-min.js'></script>\n        <script type='text/javascript' src='/static/script.js'></script>\n    </head>\n    <body>\n",
        );
        document.append(body);
        document.append("    </body>\n        </html>");
        assert(document@ =~= document_header() + body@ + document_footer());
        Response { status, content_type: Format::Html, body: document }
    }

    /// The response that carries `json` as it is.
    pub fn generate_json(&self, status: u16, json: String) -> (r: Response)
        ensures
            r@ == json_response(status, json@),
    {
        Response { status, content_type: Format::Json, body: json }
    }

    /// The response to a request that no page is served for.
    fn miss(&self, format: Format) -> (r: Response)
        ensures
            r@ == not_found(format),
    {
        match format {
            Format::Html => self.generate_html(404, "Not found"),
            Format::Json => self.generate_json(404, json_object("error", "not found")),
        }
    }

    /// Looks for the first page served at exactly `route`.
    fn find(&self, route: &str, format: Format) -> (r: Decision)
        ensures
            r@ == construct_or_miss(views(self.pages@), route@, format),
    {
        let ghost pages = views(self.pages@);
        let n: usize = self.pages.len();
        let mut i: usize = 0;
        while i < n
            invariant
                0 <= i <= n,
                n == self.pages@.len(),
                pages == views(self.pages@),
                forall|j: int| 0 <= j < i ==> (#[trigger] pages[j]).url != route@,
            decreases n - i,
        {
            assert(pages[i as int] == self.pages@[i as int]@);
            if self.pages[i].url().eq(route) {
                proof {
                    lemma_first_some_at(served_at(pages, route@), 0, i as int);
                }
                return Decision::Construct { page: i, format };
            }
            i = i + 1;
        }
        proof {
            lemma_first_some_none(served_at(pages, route@), 0);
        }
        Decision::Respond(self.miss(format))
    }

    /// Decides what is to be done for a request to `path`.
    pub fn handle(&self, path: &str) -> (r: Decision)
        ensures
            r@ == decision_of(views(self.pages@), path@),
    {
        if starts_with(path, "/static") {
            return Decision::Forward;
        }
        if let Some(stripped) = strip_suffix(path, ".json") {
            self.find(stripped, Format::Json)
        } else {
            self.find(path, Format::Html)
        }
    }

    /// The response for the page with index `page`, asked for as `format`,
    /// once its construction has ended: with the serialised instance, or
    /// with the text that describes the failure.
    pub fn render(&self, page: usize, format: Format, outcome: Result<String, String>) -> (r:
        Response)
        ensures
            r@ == completion(
                views(self.pages@),
                page as int,
                format,
                match outcome {
                    Ok(json) => Ok(json@),
                    Err(detail) => Err(detail@),
                },
            ),
    {
        if page >= self.pages.len() {
            return self.miss(format);
        }
        assert(views(self.pages@)[page as int] == self.pages@[page as int]@);
        match format {
            Format::Html => match outcome {
                Ok(json) => {
                    let body = self.pages[page].html(json.as_str());
                    self.generate_html(200, body.as_str())
                },
                Err(detail) => {
                    let mut body = String::new();
                    body.append("<h1>Internal server error</h1>");
                    body.append(detail.as_str());
                    assert(body@ =~= "<h1>Internal server error</h1>"@ + detail@);
                    self.generate_html(500, body.as_str())
                },
            },
            Format::Json => match outcome {
                Ok(json) => self.generate_json(200, json),
                Err(detail) => self.generate_json(500, json_object("error", detail.as_str())),
            },
        }
    }

    /// The response for the page with index `page`, asked for as `format`,
    /// once its construction has ended: with the serialised instance, or
    /// with the error it failed with. The error goes into the response as
    /// the text that describes it.
    pub fn complete(&self, page: usize, format: Format, outcome: Result<String, Error>) -> (r:
        Response)
        ensures
            match outcome {
                Ok(json) => r@ == completion(
                    views(self.pages@),
                    page as int,
                    format,
                    Ok(json@),
                ),
                Err(e) => exists|detail: Seq<char>|
                    e.described_by(detail) && r@ == completion(
                        views(self.pages@),
                        page as int,
                        format,
                        Err(detail),
                    ),
            },
    {
        match outcome {
            Ok(json) => self.render(page, format, Ok(json)),
            Err(e) => {
                let detail = e.detail();
                let ghost text = detail@;
                let r = self.render(page, format, Err(detail));
                proof {
                    assert(e.described_by(text) && r@ == completion(
                        views(self.pages@),
                        page as int,
                        format,
                        Err(text),
                    ));
                }
                r
            },
        }
    }
}

/// Routes are matched exactly: the page that is looked up is served at the
/// very route asked for, and is the first such page; nothing is found only
/// where no page is served at that route.
pub proof fn lemma_lookup(pages: Seq<PageDescriptorView>, route: Seq<char>)
    ensures
        match lookup(pages, route) {
            Some(i) => 0 <= i < pages.len() && pages[i].url == route && forall|j: int|
                0 <= j < i ==> (#[trigger] pages[j]).url != route,
            None => forall|j: int| 0 <= j < pages.len() ==> (#[trigger] pages[j]).url != route,
        },
{
    let found = served_at(pages, route);
    lemma_first_some(found, 0);
    match lookup(pages, route) {
        Some(i) => {
            assert forall|j: int| 0 <= j < i implies (#[trigger] pages[j]).url != route by {
                assert(found[j] is None);
            }
        },
        None => {
            assert forall|j: int| 0 <= j < pages.len() implies (#[trigger] pages[j]).url
                != route by {
                assert(found[j] is None);
            }
        },
    }
}

/// A request outside the static assets that no page is served for is
/// answered with status 404, in the form it asked for.
pub proof fn lemma_miss_is_not_found(pages: Seq<PageDescriptorView>, path: Seq<char>)
    requires
        !"/static"@.is_prefix_of(path),
        forall|j: int| 0 <= j < pages.len() ==> (#[trigger] pages[j]).url != path,
        ".json"@.is_suffix_of(path) ==> forall|j: int|
            0 <= j < pages.len() ==> (#[trigger] pages[j]).url != path.take(
                path.len() - ".json"@.len(),
            ),
    ensures
        decision_of(pages, path) matches DecisionView::Respond(response) && response.status == 404
            && response.content_type == if ".json"@.is_suffix_of(path) {
            Format::Json
        } else {
            Format::Html
        },
{
    lemma_lookup(pages, path);
    lemma_lookup(pages, path.take(path.len() - ".json"@.len()));
}

/// The key `error` stands in a JSON string as it is.
proof fn lemma_error_key()
    ensures
        forall|i: int| 0 <= i < "error"@.len() ==> !needs_escape(#[trigger] "error"@[i]),
        json_string("error"@) == "\"error\""@,
{
    reveal_strlit("error");
    reveal_strlit("\"error\"");
    lemma_json_plain("error"@);
    assert(seq!['"'] + "error"@ + seq!['"'] =~= "\"error\""@);
}

/// In the form of data, a request that no page is served for is answered
/// with status 404 and the object whose member `error` says so.
pub proof fn lemma_not_found_json()
    ensures
        not_found(Format::Json).status == 404,
        not_found(Format::Json).content_type == Format::Json,
        not_found(Format::Json).body == "{\"error\":\"not found\"}"@,
{
    reveal_strlit("error");
    reveal_strlit("not found");
    reveal_strlit("{\"error\":\"not found\"}");
    lemma_json_plain("error"@);
    lemma_json_plain("not found"@);
    assert(json_object_text("error"@, "not found"@) =~= "{\"error\":\"not found\"}"@);
}

/// A failed construction is answered with status 500 and a body that holds
/// the text of the failure: in a document after the heading, as it is; in
/// the form of data as the value of the member `error`, as a JSON string.
pub proof fn lemma_failure_is_reported(
    pages: Seq<PageDescriptorView>,
    page: int,
    detail: Seq<char>,
)
    requires
        0 <= page < pages.len(),
    ensures
        completion(pages, page, Format::Html, Err(detail)) == html_response(
            500,
            "<h1>Internal server error</h1>"@ + detail,
        ),
        completion(pages, page, Format::Json, Err(detail)).status == 500,
        completion(pages, page, Format::Json, Err(detail)).content_type == Format::Json,
        completion(pages, page, Format::Json, Err(detail)).body == "{\"error\":"@ + json_string(
            detail,
        ) + "}"@,
{
    lemma_error_key();
    lemma_json_object_member("error"@, detail);
    reveal_strlit("error");
    reveal_strlit("{\"error\":");
    reveal_strlit("}");
    assert(json_object_text("error"@, detail) =~= "{\"error\":"@ + json_string(detail) + "}"@);
}

} // verus!
