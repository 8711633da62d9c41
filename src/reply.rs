//! Replies: their payloads, and how each query's outcome is shaped into one.

use vstd::prelude::*;
use crate::resolve::{Span, Location, Position, Range, file_scheme};

verus! {

/// The code of every handler-side failure.
pub const METHOD_NOT_FOUND: i64 = -32601;

/// The value of `textDocumentSync`: incremental updates.
pub const SYNC_INCREMENTAL: usize = 2;

/// A piece of hover text with the language it is written in.
#[derive(Debug, PartialEq, Eq)]
pub struct MarkedString {
    pub language: String,
    pub value: String,
}

/// What the server advertises in reply to `initialize`.
#[derive(Debug)]
pub struct ServerCapabilities {
    pub text_document_sync: usize,
    pub hover_provider: bool,
    pub completion_resolve_provider: bool,
    pub completion_trigger_characters: Vec<String>,
    pub signature_help_trigger_characters: Vec<String>,
    pub definition_provider: bool,
    pub references_provider: bool,
    pub document_highlight_provider: bool,
    pub document_symbol_provider: bool,
    pub workshop_symbol_provider: bool,
    pub code_action_provider: bool,
    pub code_lens_provider: bool,
    pub document_formatting_provider: bool,
    pub document_range_formatting_provider: bool,
    pub rename_provider: bool,
}

/// The `result` of a successful reply.
#[derive(Debug)]
pub enum Reply {
    Capabilities(ServerCapabilities),
    Hover(Vec<MarkedString>),
    Locations(Vec<Location>),
}

/// The `error` of a failed reply.
#[derive(Debug, PartialEq, Eq)]
pub struct ResponseError {
    pub code: i64,
    pub message: String,
}

/// The reply to the request `id`.
#[derive(Debug)]
pub struct Response {
    pub id: u64,
    pub body: Result<Reply, ResponseError>,
}

/// How a backend query ended.
#[derive(Debug)]
pub enum QueryOutcome<T> {
    /// The position could not be turned into a span: the file overlay has no such line.
    Unresolved,
    /// The worker did not finish within the deadline, or it panicked.
    Late,
    /// The worker finished with this result.
    Finished(T),
}

/// What the analysis store said of a hovered span; each part is empty where
/// its query failed.
#[derive(Debug)]
pub struct HoverInfo {
    pub ty: String,
    pub docs: String,
    pub doc_url: String,
}

pub open spec fn is_dot_only(v: Seq<String>) -> bool {
    v.len() == 1 && v[0]@ == seq!['.']
}

/// The capabilities record, field by field.
pub open spec fn is_advertised(c: ServerCapabilities) -> bool {
    &&& c.text_document_sync == SYNC_INCREMENTAL
    &&& c.hover_provider
    &&& c.completion_resolve_provider
    &&& is_dot_only(c.completion_trigger_characters@)
    &&& is_dot_only(c.signature_help_trigger_characters@)
    &&& c.definition_provider
    &&& c.references_provider
    &&& c.document_highlight_provider
    &&& c.document_symbol_provider
    &&& c.workshop_symbol_provider
    &&& !c.code_action_provider
    &&& !c.code_lens_provider
    &&& c.document_formatting_provider
    &&& c.document_range_formatting_provider
    &&& c.rename_provider
}

fn dot_only() -> (r: Vec<String>)
    ensures
        is_dot_only(r@),
{
    let mut v: Vec<String> = Vec::new();
    let dot = String::from_str(".");
    proof {
        reveal_strlit(".");
    }
    assert(dot@ =~= seq!['.']);
    v.push(dot);
    v
}

/// The fixed capabilities record.
pub fn server_capabilities() -> (r: ServerCapabilities)
    ensures
        is_advertised(r),
{
    ServerCapabilities {
        text_document_sync: SYNC_INCREMENTAL,
        hover_provider: true,
        completion_resolve_provider: true,
        completion_trigger_characters: dot_only(),
        signature_help_trigger_characters: dot_only(),
        definition_provider: true,
        references_provider: true,
        document_highlight_provider: true,
        document_symbol_provider: true,
        workshop_symbol_provider: true,
        code_action_provider: false,
        code_lens_provider: false,
        document_formatting_provider: true,
        document_range_formatting_provider: true,
        rename_provider: true,
    }
}

/// The reply to `initialize`.
pub fn initialize_reply(id: u64) -> (r: Response)
    ensures
        r.id == id,
        r.body matches Ok(Reply::Capabilities(c)) && is_advertised(c),
{
    Response { id, body: Ok(Reply::Capabilities(server_capabilities())) }
}

/// The hover contents for `info`: docs, then the doc URL, then the type, each
/// where it is not empty.
pub open spec fn hover_contents(info: HoverInfo) -> Seq<(Seq<char>, Seq<char>)> {
    let docs = if info.docs@.len() > 0 {
        seq![("markdown"@, info.docs@)]
    } else {
        Seq::empty()
    };
    let url = if info.doc_url@.len() > 0 {
        seq![("url"@, info.doc_url@)]
    } else {
        Seq::empty()
    };
    let ty = if info.ty@.len() > 0 {
        seq![("rust"@, info.ty@)]
    } else {
        Seq::empty()
    };
    docs + url + ty
}

pub open spec fn marked_view(v: Seq<MarkedString>) -> Seq<(Seq<char>, Seq<char>)> {
    v.map_values(|m: MarkedString| (m.language@, m.value@))
}

pub open spec fn failure(r: Response, id: u64, message: Seq<char>) -> bool {
    r.id == id && (r.body matches Err(e) && e.code == METHOD_NOT_FOUND && e.message@ == message)
}

fn push_marked(v: &mut Vec<MarkedString>, language: &str, value: String)
    ensures
        marked_view(final(v)@) == marked_view(old(v)@).push((language@, value@)),
{
    v.push(MarkedString { language: String::from_str(language), value });
    assert(marked_view(final(v)@) =~= marked_view(old(v)@).push((language@, value@)));
}

/// The reply to a hover request, from how its query ended.
pub fn hover_reply(id: u64, outcome: QueryOutcome<HoverInfo>) -> (r: Response)
    ensures
        r.id == id,
        match outcome {
            QueryOutcome::Unresolved => r.body matches Ok(Reply::Hover(v)) && v@.len() == 0,
            QueryOutcome::Late => failure(r, id, "Hover failed to complete successfully"@),
            QueryOutcome::Finished(info) => r.body matches Ok(Reply::Hover(v)) && marked_view(v@)
                == hover_contents(info),
        },
{
    match outcome {
        QueryOutcome::Unresolved => Response { id, body: Ok(Reply::Hover(Vec::new())) },
        QueryOutcome::Late => Response {
            id,
            body: Err(
                ResponseError {
                    code: METHOD_NOT_FOUND,
                    message: String::from_str("Hover failed to complete successfully"),
                },
            ),
        },
        QueryOutcome::Finished(info) => {
            let ghost g = info;
            let mut v: Vec<MarkedString> = Vec::new();
            assert(marked_view(v@) =~= Seq::empty());
            let HoverInfo { ty, docs, doc_url } = info;
            if docs.unicode_len() > 0 {
                push_marked(&mut v, "markdown", docs);
            }
            if doc_url.unicode_len() > 0 {
                push_marked(&mut v, "url", doc_url);
            }
            if ty.unicode_len() > 0 {
                push_marked(&mut v, "rust", ty);
            }
            assert(marked_view(v@) =~= hover_contents(g));
            Response { id, body: Ok(Reply::Hover(v)) }
        },
    }
}

/// The URI of the file that a span lies in.
pub open spec fn span_uri(s: Span) -> Seq<char> {
    file_scheme() + s.file_name@
}

/// `l` is the location of the whole of `s`.
pub open spec fn locates(l: Location, s: Span) -> bool {
    &&& l.uri@ == span_uri(s)
    &&& l.range == Range {
        start: Position { line: s.line_start, character: s.column_start },
        end: Position { line: s.line_end, character: s.column_end },
    }
}

/// `l` is the empty location at the start of `s`.
pub open spec fn locates_start(l: Location, s: Span) -> bool {
    &&& l.uri@ == span_uri(s)
    &&& l.range == Range {
        start: Position { line: s.line_start, character: s.column_start },
        end: Position { line: s.line_start, character: s.column_start },
    }
}

fn uri_of_span(s: &Span) -> (r: String)
    ensures
        r@ == span_uri(*s),
{
    let r = String::from_str("file://").concat(s.file_name.as_str());
    proof {
        reveal_strlit("file://");
    }
    assert(r@ =~= span_uri(*s));
    r
}

/// The reply to a go-to-definition request, from how its query ended.
pub fn goto_def_reply(id: u64, outcome: QueryOutcome<Option<Span>>) -> (r: Response)
    ensures
        r.id == id,
        match outcome {
            QueryOutcome::Unresolved => r.body matches Ok(Reply::Locations(v)) && v@.len() == 0,
            QueryOutcome::Late => failure(r, id, "GotoDef failed to complete successfully"@),
            QueryOutcome::Finished(None) => r.body matches Ok(Reply::Locations(v)) && v@.len()
                == 0,
            QueryOutcome::Finished(Some(s)) => r.body matches Ok(Reply::Locations(v)) && v@.len()
                == 1 && locates_start(v@[0], s),
        },
{
    match outcome {
        QueryOutcome::Unresolved => Response { id, body: Ok(Reply::Locations(Vec::new())) },
        QueryOutcome::Late => Response {
            id,
            body: Err(
                ResponseError {
                    code: METHOD_NOT_FOUND,
                    message: String::from_str("GotoDef failed to complete successfully"),
                },
            ),
        },
        QueryOutcome::Finished(None) => Response { id, body: Ok(Reply::Locations(Vec::new())) },
        QueryOutcome::Finished(Some(s)) => {
            let start = Position { line: s.line_start, character: s.column_start };
            let l = Location { uri: uri_of_span(&s), range: Range { start, end: start } };
            let mut v: Vec<Location> = Vec::new();
            v.push(l);
            Response { id, body: Ok(Reply::Locations(v)) }
        },
    }
}

/// The reply to a find-references request, from how its query ended: a late
/// or unresolved query gives no references.
pub fn find_all_refs_reply(id: u64, outcome: QueryOutcome<Vec<Span>>) -> (r: Response)
    ensures
        r.id == id,
        r.body matches Ok(Reply::Locations(v)) && match outcome {
            QueryOutcome::Finished(spans) => v@.len() == spans@.len() && forall|i: int|
                0 <= i < v@.len() ==> locates(#[trigger] v@[i], spans@[i]),
            _ => v@.len() == 0,
        },
{
    match outcome {
        QueryOutcome::Finished(spans) => {
            let mut v: Vec<Location> = Vec::new();
            let mut i: usize = 0;
            while i < spans.len()
                invariant
                    i <= spans@.len(),
                    v@.len() == i,
                    forall|k: int| 0 <= k < i ==> locates(#[trigger] v@[k], spans@[k]),
                decreases spans@.len() - i,
            {
                let s = &spans[i];
                let l = Location {
                    uri: uri_of_span(s),
                    range: Range {
                        start: Position { line: s.line_start, character: s.column_start },
                        end: Position { line: s.line_end, character: s.column_end },
                    },
                };
                v.push(l);
                i = i + 1;
            }
            Response { id, body: Ok(Reply::Locations(v)) }
        },
        _ => Response { id, body: Ok(Reply::Locations(Vec::new())) },
    }
}

} // verus!
