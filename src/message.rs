//! Typed requests and notifications, and their decoding from a JSON envelope.

use vstd::prelude::*;
use crate::json::{Json, get, get_in, str_eq};
use crate::resolve::{Position, Range};

verus! {

/// Parameters of `initialize`.
#[derive(Debug, PartialEq, Eq)]
pub struct InitializeParams {
    pub process_id: u64,
    pub root_path: String,
}

/// A document, named by its URI.
#[derive(Debug, PartialEq, Eq)]
pub struct Document {
    pub uri: String,
}

/// A document with the version that the editor gave it.
#[derive(Debug, PartialEq, Eq)]
pub struct VersionedDocument {
    pub version: u64,
    pub uri: String,
}

/// One edit: the text in `range` is replaced by `text`.
#[derive(Debug, PartialEq, Eq)]
pub struct ChangeEvent {
    pub range: Range,
    pub range_length: Option<u32>,
    pub text: String,
}

/// Parameters of `textDocument/references`.
#[derive(Debug, PartialEq, Eq)]
pub struct ReferenceParams {
    pub text_document: Document,
    pub position: Position,
    pub include_declaration: bool,
}

/// A position in a document.
#[derive(Debug, PartialEq, Eq)]
pub struct PositionParams {
    pub text_document: Document,
    pub position: Position,
}

/// Parameters of `textDocument/didChange`.
#[derive(Debug)]
pub struct ChangeParams {
    pub text_document: VersionedDocument,
    pub content_changes: Vec<ChangeEvent>,
}

/// What a request asks for.
#[derive(Debug)]
pub enum Method {
    Shutdown,
    Initialize(InitializeParams),
    Hover(PositionParams),
    GotoDef(PositionParams),
    FindAllRef(ReferenceParams),
}

/// A message that is owed a reply.
#[derive(Debug)]
pub struct Request {
    pub id: u64,
    pub method: Method,
}

/// A message that is owed no reply.
#[derive(Debug)]
pub enum Notification {
    CancelRequest(u64),
    Change(ChangeParams),
}

#[derive(Debug)]
pub enum ServerMessage {
    Request(Request),
    Notification(Notification),
}

/// Why an envelope could not be decoded.
#[derive(Debug, Clone, Copy, PartialEq, Eq, Structural)]
pub enum ParseError {
    MissingMethod,
    MethodNotString,
    UnknownMethod,
    MissingId,
    BadParams,
}

pub open spec fn uint_of(j: Option<Json>) -> Option<u64> {
    match j {
        Some(Json::UInt(n)) => Some(n),
        _ => None,
    }
}

pub open spec fn usize_of(j: Option<Json>) -> Option<usize> {
    match j {
        Some(Json::UInt(n)) => if n <= usize::MAX {
            Some(n as usize)
        } else {
            None
        },
        _ => None,
    }
}

pub open spec fn str_of(j: Option<Json>) -> Option<String> {
    match j {
        Some(Json::Str(s)) => Some(s),
        _ => None,
    }
}

pub open spec fn bool_of(j: Option<Json>) -> Option<bool> {
    match j {
        Some(Json::Bool(b)) => Some(b),
        _ => None,
    }
}

pub open spec fn position_of(j: Option<Json>) -> Option<Position> {
    match (usize_of(get_in(j, "line"@)), usize_of(get_in(j, "character"@))) {
        (Some(line), Some(character)) => Some(Position { line, character }),
        _ => None,
    }
}

pub open spec fn range_of(j: Option<Json>) -> Option<Range> {
    match (position_of(get_in(j, "start"@)), position_of(get_in(j, "end"@))) {
        (Some(start), Some(end)) => Some(Range { start, end }),
        _ => None,
    }
}

pub open spec fn document_of(j: Option<Json>) -> Option<Document> {
    match str_of(get_in(j, "uri"@)) {
        Some(uri) => Some(Document { uri }),
        None => None,
    }
}

pub open spec fn versioned_document_of(j: Option<Json>) -> Option<VersionedDocument> {
    match (uint_of(get_in(j, "version"@)), str_of(get_in(j, "uri"@))) {
        (Some(version), Some(uri)) => Some(VersionedDocument { version, uri }),
        _ => None,
    }
}

/// An absent or null `rangeLength` is none; otherwise it must fit in `u32`.
pub open spec fn range_length_of(j: Option<Json>) -> Option<Option<u32>> {
    match j {
        None => Some(None),
        Some(Json::Null) => Some(None),
        Some(Json::UInt(n)) => if n <= u32::MAX {
            Some(Some(n as u32))
        } else {
            None
        },
        _ => None,
    }
}

pub open spec fn change_event_of(j: Json) -> Option<ChangeEvent> {
    let o = Some(j);
    match (range_of(get_in(o, "range"@)), range_length_of(get_in(o, "rangeLength"@)), str_of(
        get_in(o, "text"@),
    )) {
        (Some(range), Some(range_length), Some(text)) => Some(ChangeEvent { range, range_length, text }),
        _ => None,
    }
}

/// The events of a `contentChanges` array, where each of them decodes.
pub open spec fn change_events_of(items: Seq<Json>) -> Option<Seq<ChangeEvent>>
    decreases items.len(),
{
    if items.len() == 0 {
        Some(Seq::empty())
    } else {
        match (change_events_of(items.drop_last()), change_event_of(items.last())) {
            (Some(events), Some(e)) => Some(events.push(e)),
            _ => None,
        }
    }
}

pub open spec fn change_items_of(j: Option<Json>) -> Option<Seq<ChangeEvent>> {
    match get_in(j, "contentChanges"@) {
        Some(Json::Array(items)) => change_events_of(items@),
        _ => None,
    }
}

pub open spec fn initialize_params_of(j: Option<Json>) -> Option<InitializeParams> {
    match (uint_of(get_in(j, "processId"@)), str_of(get_in(j, "rootPath"@))) {
        (Some(process_id), Some(root_path)) => Some(InitializeParams { process_id, root_path }),
        _ => None,
    }
}

pub open spec fn position_params_of(j: Option<Json>) -> Option<PositionParams> {
    match (document_of(get_in(j, "textDocument"@)), position_of(get_in(j, "position"@))) {
        (Some(text_document), Some(position)) => Some(PositionParams { text_document, position }),
        _ => None,
    }
}

pub open spec fn reference_params_of(j: Option<Json>) -> Option<ReferenceParams> {
    match (
        document_of(get_in(j, "textDocument"@)),
        position_of(get_in(j, "position"@)),
        bool_of(get_in(get_in(j, "context"@), "includeDeclaration"@)),
    ) {
        (Some(text_document), Some(position), Some(include_declaration)) => Some(
            ReferenceParams { text_document, position, include_declaration },
        ),
        _ => None,
    }
}

pub open spec fn cancel_id_of(j: Option<Json>) -> Option<u64> {
    uint_of(get_in(j, "id"@))
}

/// A request with the id of `j` and method `m`: it needs both.
pub open spec fn request_gives(j: Json, m: Option<Method>, r: Result<ServerMessage, ParseError>) -> bool {
    match (uint_of(get(j, "id"@)), m) {
        (None, _) => r == Err::<ServerMessage, ParseError>(ParseError::MissingId),
        (Some(_), None) => r == Err::<ServerMessage, ParseError>(ParseError::BadParams),
        (Some(id), Some(method)) => r == Ok::<ServerMessage, ParseError>(
            ServerMessage::Request(Request { id, method }),
        ),
    }
}

/// What decoding the envelope `j` gives: each method of the table with its
/// id and parameters, or the error that stops it.
pub open spec fn decodes_to(j: Json, r: Result<ServerMessage, ParseError>) -> bool {
    let params = get(j, "params"@);
    match get(j, "method"@) {
        None => r == Err::<ServerMessage, ParseError>(ParseError::MissingMethod),
        Some(Json::Str(name)) => {
            if name@ == "shutdown"@ {
                request_gives(j, Some(Method::Shutdown), r)
            } else if name@ == "initialize"@ {
                request_gives(j, match initialize_params_of(params) { Some(p) => Some(Method::Initialize(p)), None => None }, r)
            } else if name@ == "textDocument/hover"@ {
                request_gives(j, match position_params_of(params) { Some(p) => Some(Method::Hover(p)), None => None }, r)
            } else if name@ == "textDocument/definition"@ {
                request_gives(j, match position_params_of(params) { Some(p) => Some(Method::GotoDef(p)), None => None }, r)
            } else if name@ == "textDocument/references"@ {
                request_gives(j, match reference_params_of(params) { Some(p) => Some(Method::FindAllRef(p)), None => None }, r)
            } else if name@ == "textDocument/didChange"@ {
                match (versioned_document_of(get_in(params, "textDocument"@)), change_items_of(params)) {
                    (Some(doc), Some(events)) => match r {
                        Ok(ServerMessage::Notification(Notification::Change(c))) => c.text_document
                            == doc && c.content_changes@ == events,
                        _ => false,
                    },
                    _ => r == Err::<ServerMessage, ParseError>(ParseError::BadParams),
                }
            } else if name@ == "$/cancelRequest"@ {
                match cancel_id_of(params) {
                    Some(id) => r == Ok::<ServerMessage, ParseError>(
                        ServerMessage::Notification(Notification::CancelRequest(id)),
                    ),
                    None => r == Err::<ServerMessage, ParseError>(ParseError::BadParams),
                }
            } else {
                r == Err::<ServerMessage, ParseError>(ParseError::UnknownMethod)
            }
        },
        Some(_) => r == Err::<ServerMessage, ParseError>(ParseError::MethodNotString),
    }
}

pub open spec fn own(j: Option<&Json>) -> Option<Json> {
    match j {
        Some(v) => Some(*v),
        None => None,
    }
}

fn get_at<'a>(j: Option<&'a Json>, key: &str) -> (r: Option<&'a Json>)
    ensures
        own(r) == get_in(own(j), key@),
{
    match j {
        Some(v) => v.field(key),
        None => None,
    }
}

fn uint_at(j: Option<&Json>) -> (r: Option<u64>)
    ensures
        r == uint_of(own(j)),
{
    match j {
        Some(Json::UInt(n)) => Some(*n),
        _ => None,
    }
}

fn usize_at(j: Option<&Json>) -> (r: Option<usize>)
    ensures
        r == usize_of(own(j)),
{
    match j {
        Some(Json::UInt(n)) => if *n <= usize::MAX as u64 {
            Some(*n as usize)
        } else {
            None
        },
        _ => None,
    }
}

fn str_at(j: Option<&Json>) -> (r: Option<String>)
    ensures
        r == str_of(own(j)),
{
    match j {
        Some(Json::Str(s)) => Some(s.clone()),
        _ => None,
    }
}

fn bool_at(j: Option<&Json>) -> (r: Option<bool>)
    ensures
        r == bool_of(own(j)),
{
    match j {
        Some(Json::Bool(b)) => Some(*b),
        _ => None,
    }
}

fn position_at(j: Option<&Json>) -> (r: Option<Position>)
    ensures
        r == position_of(own(j)),
{
    match (usize_at(get_at(j, "line")), usize_at(get_at(j, "character"))) {
        (Some(line), Some(character)) => Some(Position { line, character }),
        _ => None,
    }
}

fn range_at(j: Option<&Json>) -> (r: Option<Range>)
    ensures
        r == range_of(own(j)),
{
    match (position_at(get_at(j, "start")), position_at(get_at(j, "end"))) {
        (Some(start), Some(end)) => Some(Range { start, end }),
        _ => None,
    }
}

fn document_at(j: Option<&Json>) -> (r: Option<Document>)
    ensures
        r == document_of(own(j)),
{
    match str_at(get_at(j, "uri")) {
        Some(uri) => Some(Document { uri }),
        None => None,
    }
}

fn versioned_document_at(j: Option<&Json>) -> (r: Option<VersionedDocument>)
    ensures
        r == versioned_document_of(own(j)),
{
    match (uint_at(get_at(j, "version")), str_at(get_at(j, "uri"))) {
        (Some(version), Some(uri)) => Some(VersionedDocument { version, uri }),
        _ => None,
    }
}

fn range_length_at(j: Option<&Json>) -> (r: Option<Option<u32>>)
    ensures
        r == range_length_of(own(j)),
{
    match j {
        None => Some(None),
        Some(Json::Null) => Some(None),
        Some(Json::UInt(n)) => if *n <= u32::MAX as u64 {
            Some(Some(*n as u32))
        } else {
            None
        },
        _ => None,
    }
}

fn change_event_at(j: &Json) -> (r: Option<ChangeEvent>)
    ensures
        r == change_event_of(*j),
{
    let o = Some(j);
    match (range_at(get_at(o, "range")), range_length_at(get_at(o, "rangeLength")), str_at(
        get_at(o, "text"),
    )) {
        (Some(range), Some(range_length), Some(text)) => Some(ChangeEvent { range, range_length, text }),
        _ => None,
    }
}

fn change_items_at(j: Option<&Json>) -> (r: Option<Vec<ChangeEvent>>)
    ensures
        match r {
            Some(v) => change_items_of(own(j)) == Some(v@),
            None => change_items_of(own(j)).is_none(),
        },
{
    match get_at(j, "contentChanges") {
        Some(Json::Array(items)) => {
            let mut out: Vec<ChangeEvent> = Vec::new();
            let mut i: usize = 0;
            assert(items@.subrange(0, 0) =~= Seq::<Json>::empty());
            while i < items.len()
                invariant
                    i <= items@.len(),
                    change_items_of(own(j)) == change_events_of(items@),
                    change_events_of(items@.subrange(0, i as int)) == Some(out@),
                decreases items@.len() - i,
            {
                let ghost prev = items@.subrange(0, i as int);
                assert(items@.subrange(0, i + 1).drop_last() =~= prev);
                assert(items@.subrange(0, i + 1).last() == items@[i as int]);
                match change_event_at(&items[i]) {
                    Some(e) => {
                        out.push(e);
                    },
                    None => {
                        proof {
                            assert(change_events_of(items@.subrange(0, i + 1)).is_none());
                            lemma_change_events_prefix(items@, i as int + 1);
                        }
                        return None;
                    },
                }
                i = i + 1;
            }
            assert(items@.subrange(0, items@.len() as int) =~= items@);
            Some(out)
        },
        _ => None,
    }
}

/// Where a prefix of the events fails to decode, so does the whole array.
proof fn lemma_change_events_prefix(items: Seq<Json>, n: int)
    requires
        0 <= n <= items.len(),
        change_events_of(items.subrange(0, n)).is_none(),
    ensures
        change_events_of(items).is_none(),
    decreases items.len(),
{
    if n < items.len() {
        assert(items.drop_last().subrange(0, n) =~= items.subrange(0, n));
        lemma_change_events_prefix(items.drop_last(), n);
    } else {
        assert(items.subrange(0, n) =~= items);
    }
}

fn initialize_params_at(j: Option<&Json>) -> (r: Option<InitializeParams>)
    ensures
        r == initialize_params_of(own(j)),
{
    match (uint_at(get_at(j, "processId")), str_at(get_at(j, "rootPath"))) {
        (Some(process_id), Some(root_path)) => Some(InitializeParams { process_id, root_path }),
        _ => None,
    }
}

fn position_params_at(j: Option<&Json>) -> (r: Option<PositionParams>)
    ensures
        r == position_params_of(own(j)),
{
    match (document_at(get_at(j, "textDocument")), position_at(get_at(j, "position"))) {
        (Some(text_document), Some(position)) => Some(PositionParams { text_document, position }),
        _ => None,
    }
}

fn reference_params_at(j: Option<&Json>) -> (r: Option<ReferenceParams>)
    ensures
        r == reference_params_of(own(j)),
{
    match (
        document_at(get_at(j, "textDocument")),
        position_at(get_at(j, "position")),
        bool_at(get_at(get_at(j, "context"), "includeDeclaration")),
    ) {
        (Some(text_document), Some(position), Some(include_declaration)) => Some(
            ReferenceParams { text_document, position, include_declaration },
        ),
        _ => None,
    }
}

fn request_with(j: &Json, m: Option<Method>) -> (r: Result<ServerMessage, ParseError>)
    ensures
        request_gives(*j, m, r),
{
    match (uint_at(j.field("id")), m) {
        (None, _) => Err(ParseError::MissingId),
        (Some(_), None) => Err(ParseError::BadParams),
        (Some(id), Some(method)) => Ok(ServerMessage::Request(Request { id, method })),
    }
}

/// Decodes a JSON envelope into a request or a notification by its `method`.
pub fn parse_message(j: &Json) -> (r: Result<ServerMessage, ParseError>)
    ensures
        decodes_to(*j, r),
{
    let params = j.field("params");
    match j.field("method") {
        None => Err(ParseError::MissingMethod),
        Some(Json::Str(name)) => {
            let name = name.as_str();
            if str_eq(name, "shutdown") {
                request_with(j, Some(Method::Shutdown))
            } else if str_eq(name, "initialize") {
                let m = match initialize_params_at(params) {
                    Some(p) => Some(Method::Initialize(p)),
                    None => None,
                };
                request_with(j, m)
            } else if str_eq(name, "textDocument/hover") {
                let m = match position_params_at(params) {
                    Some(p) => Some(Method::Hover(p)),
                    None => None,
                };
                request_with(j, m)
            } else if str_eq(name, "textDocument/definition") {
                let m = match position_params_at(params) {
                    Some(p) => Some(Method::GotoDef(p)),
                    None => None,
                };
                request_with(j, m)
            } else if str_eq(name, "textDocument/references") {
                let m = match reference_params_at(params) {
                    Some(p) => Some(Method::FindAllRef(p)),
                    None => None,
                };
                request_with(j, m)
            } else if str_eq(name, "textDocument/didChange") {
                match (versioned_document_at(get_at(params, "textDocument")), change_items_at(params)) {
                    (Some(text_document), Some(content_changes)) => Ok(
                        ServerMessage::Notification(
                            Notification::Change(ChangeParams { text_document, content_changes }),
                        ),
                    ),
                    _ => Err(ParseError::BadParams),
                }
            } else if str_eq(name, "$/cancelRequest") {
                match uint_at(get_at(params, "id")) {
                    Some(id) => Ok(ServerMessage::Notification(Notification::CancelRequest(id))),
                    None => Err(ParseError::BadParams),
                }
            } else {
                Err(ParseError::UnknownMethod)
            }
        },
        Some(_) => Err(ParseError::MethodNotString),
    }
}

} // verus!
