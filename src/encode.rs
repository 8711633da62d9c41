//! The JSON envelopes of replies: `{jsonrpc, id, result}` or `{jsonrpc, id, error}`.

use vstd::prelude::*;
use crate::json::Json;
use crate::reply::{MarkedString, Reply, Response, ResponseError, ServerCapabilities};
use crate::resolve::{Location, Position, Range};

verus! {

pub open spec fn members(j: Json) -> Seq<(String, Json)> {
    match j {
        Json::Object(f) => f@,
        _ => Seq::empty(),
    }
}

/// `j` is an object whose members have exactly these keys, in this order.
pub open spec fn has_keys(j: Json, keys: Seq<Seq<char>>) -> bool {
    &&& j is Object
    &&& members(j).len() == keys.len()
    &&& forall|i: int| 0 <= i < keys.len() ==> (#[trigger] members(j)[i]).0@ == keys[i]
}

/// The value of member `i` of `j`.
pub open spec fn at(j: Json, i: int) -> Json {
    members(j)[i].1
}

pub open spec fn is_text(j: Json, s: Seq<char>) -> bool {
    j matches Json::Str(x) && x@ == s
}

/// `j` is the integer `n`.
pub open spec fn is_int(j: Json, n: int) -> bool {
    ||| (n >= 0 && (j matches Json::UInt(x) && x == n))
    ||| (n < 0 && (j matches Json::NegInt(x) && x == n))
}

pub open spec fn position_json(j: Json, p: Position) -> bool {
    &&& has_keys(j, seq!["line"@, "character"@])
    &&& is_int(at(j, 0), p.line as int)
    &&& is_int(at(j, 1), p.character as int)
}

pub open spec fn range_json(j: Json, r: Range) -> bool {
    &&& has_keys(j, seq!["start"@, "end"@])
    &&& position_json(at(j, 0), r.start)
    &&& position_json(at(j, 1), r.end)
}

pub open spec fn location_json(j: Json, l: Location) -> bool {
    &&& has_keys(j, seq!["uri"@, "range"@])
    &&& is_text(at(j, 0), l.uri@)
    &&& range_json(at(j, 1), l.range)
}

pub open spec fn marked_json(j: Json, m: MarkedString) -> bool {
    &&& has_keys(j, seq!["language"@, "value"@])
    &&& is_text(at(j, 0), m.language@)
    &&& is_text(at(j, 1), m.value@)
}

pub open spec fn texts_json(j: Json, v: Seq<String>) -> bool {
    j matches Json::Array(items) && items@.len() == v.len() && forall|i: int|
        0 <= i < v.len() ==> is_text(#[trigger] items@[i], v[i]@)
}

pub open spec fn capability_keys() -> Seq<Seq<char>> {
    seq![
        "textDocumentSync"@,
        "hoverProvider"@,
        "completionProvider"@,
        "signatureHelpProvider"@,
        "definitionProvider"@,
        "referencesProvider"@,
        "documentHighlightProvider"@,
        "documentSymbolProvider"@,
        "workshopSymbolProvider"@,
        "codeActionProvider"@,
        "codeLensProvider"@,
        "documentFormattingProvider"@,
        "documentRangeFormattingProvider"@,
        "renameProvider"@,
    ]
}

pub open spec fn capabilities_json(j: Json, c: ServerCapabilities) -> bool {
    &&& has_keys(j, capability_keys())
    &&& is_int(at(j, 0), c.text_document_sync as int)
    &&& at(j, 1) == Json::Bool(c.hover_provider)
    &&& has_keys(at(j, 2), seq!["resolveProvider"@, "triggerCharacters"@])
    &&& at(at(j, 2), 0) == Json::Bool(c.completion_resolve_provider)
    &&& texts_json(at(at(j, 2), 1), c.completion_trigger_characters@)
    &&& has_keys(at(j, 3), seq!["triggerCharacters"@])
    &&& texts_json(at(at(j, 3), 0), c.signature_help_trigger_characters@)
    &&& at(j, 4) == Json::Bool(c.definition_provider)
    &&& at(j, 5) == Json::Bool(c.references_provider)
    &&& at(j, 6) == Json::Bool(c.document_highlight_provider)
    &&& at(j, 7) == Json::Bool(c.document_symbol_provider)
    &&& at(j, 8) == Json::Bool(c.workshop_symbol_provider)
    &&& at(j, 9) == Json::Bool(c.code_action_provider)
    &&& at(j, 10) == Json::Bool(c.code_lens_provider)
    &&& at(j, 11) == Json::Bool(c.document_formatting_provider)
    &&& at(j, 12) == Json::Bool(c.document_range_formatting_provider)
    &&& at(j, 13) == Json::Bool(c.rename_provider)
}

/// The `result` member for a reply.
pub open spec fn reply_json(j: Json, r: Reply) -> bool {
    match r {
        Reply::Capabilities(c) => has_keys(j, seq!["capabilities"@]) && capabilities_json(
            at(j, 0),
            c,
        ),
        Reply::Hover(v) => has_keys(j, seq!["contents"@]) && (at(j, 0) matches Json::Array(
            items,
        ) && items@.len() == v@.len() && forall|i: int|
            0 <= i < v@.len() ==> marked_json(#[trigger] items@[i], v@[i])),
        Reply::Locations(v) => j matches Json::Array(items) && items@.len() == v@.len() && forall|
            i: int,
        |
            0 <= i < v@.len() ==> location_json(#[trigger] items@[i], v@[i]),
    }
}

pub open spec fn error_json(j: Json, e: ResponseError) -> bool {
    &&& has_keys(j, seq!["code"@, "message"@])
    &&& is_int(at(j, 0), e.code as int)
    &&& is_text(at(j, 1), e.message@)
}

/// The envelope of response `r`.
pub open spec fn response_json(j: Json, r: Response) -> bool {
    &&& is_text(at(j, 0), "2.0"@)
    &&& is_int(at(j, 1), r.id as int)
    &&& match r.body {
        Ok(reply) => has_keys(j, seq!["jsonrpc"@, "id"@, "result"@]) && reply_json(at(j, 2), reply),
        Err(e) => has_keys(j, seq!["jsonrpc"@, "id"@, "error"@]) && error_json(at(j, 2), e),
    }
}

fn text(s: &str) -> (r: String)
    ensures
        r@ == s@,
{
    String::from_str(s)
}

fn int_json(n: i64) -> (r: Json)
    ensures
        is_int(r, n as int),
{
    if n >= 0 {
        Json::UInt(n as u64)
    } else {
        Json::NegInt(n)
    }
}

fn uint_json(n: usize) -> (r: Json)
    ensures
        is_int(r, n as int),
{
    Json::UInt(n as u64)
}

fn object2(k0: &str, v0: Json, k1: &str, v1: Json) -> (r: Json)
    ensures
        has_keys(r, seq![k0@, k1@]),
        at(r, 0) == v0,
        at(r, 1) == v1,
{
    let mut f: Vec<(String, Json)> = Vec::new();
    f.push((text(k0), v0));
    f.push((text(k1), v1));
    Json::Object(f)
}

fn object1(k0: &str, v0: Json) -> (r: Json)
    ensures
        has_keys(r, seq![k0@]),
        at(r, 0) == v0,
{
    let mut f: Vec<(String, Json)> = Vec::new();
    f.push((text(k0), v0));
    Json::Object(f)
}

fn position_to_json(p: Position) -> (r: Json)
    ensures
        position_json(r, p),
{
    object2("line", uint_json(p.line), "character", uint_json(p.character))
}

fn location_to_json(l: &Location) -> (r: Json)
    ensures
        location_json(r, *l),
{
    let range = object2(
        "start",
        position_to_json(l.range.start),
        "end",
        position_to_json(l.range.end),
    );
    object2("uri", Json::Str(l.uri.clone()), "range", range)
}

fn marked_to_json(m: &MarkedString) -> (r: Json)
    ensures
        marked_json(r, *m),
{
    object2("language", Json::Str(m.language.clone()), "value", Json::Str(m.value.clone()))
}

fn texts_to_json(v: &Vec<String>) -> (r: Json)
    ensures
        texts_json(r, v@),
{
    let mut items: Vec<Json> = Vec::new();
    let mut i: usize = 0;
    while i < v.len()
        invariant
            i <= v@.len(),
            items@.len() == i,
            forall|k: int| 0 <= k < i ==> is_text(#[trigger] items@[k], v@[k]@),
        decreases v@.len() - i,
    {
        items.push(Json::Str(v[i].clone()));
        i = i + 1;
    }
    Json::Array(items)
}

fn capabilities_to_json(c: &ServerCapabilities) -> (r: Json)
    ensures
        capabilities_json(r, *c),
{
    let mut f: Vec<(String, Json)> = Vec::new();
    f.push((text("textDocumentSync"), uint_json(c.text_document_sync)));
    f.push((text("hoverProvider"), Json::Bool(c.hover_provider)));
    f.push(
        (
            text("completionProvider"),
            object2(
                "resolveProvider",
                Json::Bool(c.completion_resolve_provider),
                "triggerCharacters",
                texts_to_json(&c.completion_trigger_characters),
            ),
        ),
    );
    f.push(
        (
            text("signatureHelpProvider"),
            object1("triggerCharacters", texts_to_json(&c.signature_help_trigger_characters)),
        ),
    );
    f.push((text("definitionProvider"), Json::Bool(c.definition_provider)));
    f.push((text("referencesProvider"), Json::Bool(c.references_provider)));
    f.push((text("documentHighlightProvider"), Json::Bool(c.document_highlight_provider)));
    f.push((text("documentSymbolProvider"), Json::Bool(c.document_symbol_provider)));
    f.push((text("workshopSymbolProvider"), Json::Bool(c.workshop_symbol_provider)));
    f.push((text("codeActionProvider"), Json::Bool(c.code_action_provider)));
    f.push((text("codeLensProvider"), Json::Bool(c.code_lens_provider)));
    f.push((text("documentFormattingProvider"), Json::Bool(c.document_formatting_provider)));
    f.push(
        (
            text("documentRangeFormattingProvider"),
            Json::Bool(c.document_range_formatting_provider),
        ),
    );
    f.push((text("renameProvider"), Json::Bool(c.rename_provider)));
    let r = Json::Object(f);
    assert(has_keys(r, capability_keys()));
    r
}

fn reply_to_json(reply: &Reply) -> (r: Json)
    ensures
        reply_json(r, *reply),
{
    match reply {
        Reply::Capabilities(c) => object1("capabilities", capabilities_to_json(c)),
        Reply::Hover(v) => {
            let mut items: Vec<Json> = Vec::new();
            let mut i: usize = 0;
            while i < v.len()
                invariant
                    i <= v@.len(),
                    items@.len() == i,
                    forall|k: int| 0 <= k < i ==> marked_json(#[trigger] items@[k], v@[k]),
                decreases v@.len() - i,
            {
                items.push(marked_to_json(&v[i]));
                i = i + 1;
            }
            object1("contents", Json::Array(items))
        },
        Reply::Locations(v) => {
            let mut items: Vec<Json> = Vec::new();
            let mut i: usize = 0;
            while i < v.len()
                invariant
                    i <= v@.len(),
                    items@.len() == i,
                    forall|k: int| 0 <= k < i ==> location_json(#[trigger] items@[k], v@[k]),
                decreases v@.len() - i,
            {
                items.push(location_to_json(&v[i]));
                i = i + 1;
            }
            Json::Array(items)
        },
    }
}

impl Response {
    /// The JSON envelope of this reply.
    pub fn to_json(&self) -> (r: Json)
        ensures
            response_json(r, *self),
    {
        let mut f: Vec<(String, Json)> = Vec::new();
        f.push((text("jsonrpc"), Json::Str(text("2.0"))));
        f.push((text("id"), Json::UInt(self.id)));
        match &self.body {
            Ok(reply) => {
                f.push((text("result"), reply_to_json(reply)));
            },
            Err(e) => {
                f.push(
                    (
                        text("error"),
                        object2("code", int_json(e.code), "message", Json::Str(e.message.clone())),
                    ),
                );
            },
        }
        let r = Json::Object(f);
        assert(members(r).len() == 3);
        r
    }
}

} // verus!
