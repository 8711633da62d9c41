use lsproto::json::Json;
use lsproto::message::{parse_message, Method, Notification, ParseError, Request, ServerMessage};
use lsproto::reply::{
    find_all_refs_reply, goto_def_reply, hover_reply, HoverInfo, QueryOutcome, Reply, Response,
    METHOD_NOT_FOUND,
};
use lsproto::resolve::{resolve_position, Span};
use lsproto::session::{needs_reload, BuildOutcome, BuildPriority, Effect, Session};

fn s(x: &str) -> Json {
    Json::Str(x.to_string())
}

fn n(x: u64) -> Json {
    Json::UInt(x)
}

fn obj(fields: Vec<(&str, Json)>) -> Json {
    Json::Object(fields.into_iter().map(|(k, v)| (k.to_string(), v)).collect())
}

fn pos(line: u64, character: u64) -> Json {
    obj(vec![("line", n(line)), ("character", n(character))])
}

fn initialize_msg() -> Json {
    obj(vec![
        ("method", s("initialize")),
        ("id", n(1)),
        ("params", obj(vec![("processId", n(42)), ("rootPath", s("/tmp/p"))])),
    ])
}

fn hover_msg() -> Json {
    obj(vec![
        ("method", s("textDocument/hover")),
        ("id", n(3)),
        (
            "params",
            obj(vec![
                ("textDocument", obj(vec![("uri", s("file:///x.src"))])),
                ("position", pos(0, 2)),
            ]),
        ),
    ])
}

fn change_msg() -> Json {
    obj(vec![
        ("method", s("textDocument/didChange")),
        (
            "params",
            obj(vec![
                ("textDocument", obj(vec![("uri", s("file:///p/a.src")), ("version", n(1))])),
                (
                    "contentChanges",
                    Json::Array(vec![obj(vec![
                        ("range", obj(vec![("start", pos(0, 0)), ("end", pos(0, 3))])),
                        ("text", s("abc")),
                    ])]),
                ),
            ]),
        ),
    ])
}

fn handle(session: &mut Session, j: &Json) -> Vec<Effect> {
    session.handle(parse_message(j).unwrap())
}

fn span(file: &str, l: usize, c0: usize, c1: usize) -> Span {
    Span { file_name: file.to_string(), line_start: l, column_start: c0, line_end: l, column_end: c1 }
}

#[test]
fn initialize_then_shutdown() {
    let mut session = Session::new();
    let effects = handle(&mut session, &initialize_msg());
    assert_eq!(effects.len(), 2);
    match &effects[0] {
        Effect::Reply(Response { id, body: Ok(Reply::Capabilities(c)) }) => {
            assert_eq!(*id, 1);
            assert_eq!(c.text_document_sync, 2);
            assert!(c.hover_provider && c.definition_provider && c.references_provider);
            assert!(c.workshop_symbol_provider && c.rename_provider);
            assert!(!c.code_action_provider && !c.code_lens_provider);
            assert_eq!(c.completion_trigger_characters, vec![".".to_string()]);
            assert_eq!(c.signature_help_trigger_characters, vec![".".to_string()]);
        }
        other => panic!("unexpected {:?}", other),
    }
    match &effects[1] {
        Effect::Build(path, prio) => {
            assert_eq!(path, "/tmp/p");
            assert_eq!(*prio, BuildPriority::Immediate);
        }
        other => panic!("unexpected {:?}", other),
    }
    assert_eq!(session.current_project.as_deref(), Some("/tmp/p"));
    let shutdown = obj(vec![("method", s("shutdown")), ("id", n(2))]);
    let effects = handle(&mut session, &shutdown);
    assert_eq!(effects.len(), 1);
    assert!(matches!(effects[0], Effect::Exit));
}

#[test]
fn hover_with_fast_backend() {
    let mut session = Session::new();
    handle(&mut session, &initialize_msg());
    let effects = handle(&mut session, &hover_msg());
    assert_eq!(effects.len(), 1);
    let (id, params) = match &effects[0] {
        Effect::Hover(id, p) => (*id, p),
        other => panic!("unexpected {:?}", other),
    };
    assert_eq!(id, 3);
    let sp = resolve_position(&params.text_document.uri, params.position, Some("let x = 1;".to_string()));
    assert_eq!(sp, Some(span("/x.src", 0, 1, 4)));
    let info = HoverInfo { ty: "i32".to_string(), docs: String::new(), doc_url: String::new() };
    let r = hover_reply(id, QueryOutcome::Finished(info));
    assert_eq!(r.id, 3);
    match r.body {
        Ok(Reply::Hover(v)) => {
            assert_eq!(v.len(), 1);
            assert_eq!(v[0].language, "rust");
            assert_eq!(v[0].value, "i32");
        }
        other => panic!("unexpected {:?}", other),
    }
}

#[test]
fn hover_contents_in_order() {
    let info = HoverInfo { ty: "u8".to_string(), docs: "Docs".to_string(), doc_url: "http://d".to_string() };
    match hover_reply(7, QueryOutcome::Finished(info)).body {
        Ok(Reply::Hover(v)) => {
            let got: Vec<(&str, &str)> = v.iter().map(|m| (m.language.as_str(), m.value.as_str())).collect();
            assert_eq!(got, vec![("markdown", "Docs"), ("url", "http://d"), ("rust", "u8")]);
        }
        other => panic!("unexpected {:?}", other),
    }
}

#[test]
fn hover_with_slow_backend() {
    let r = hover_reply(3, QueryOutcome::Late);
    assert_eq!(r.id, 3);
    match r.body {
        Err(e) => {
            assert_eq!(e.code, -32601);
            assert_eq!(e.code, METHOD_NOT_FOUND);
            assert_eq!(e.message, "Hover failed to complete successfully");
        }
        other => panic!("unexpected {:?}", other),
    }
}

#[test]
fn hover_on_missing_line_is_empty() {
    match hover_reply(8, QueryOutcome::Unresolved).body {
        Ok(Reply::Hover(v)) => assert!(v.is_empty()),
        other => panic!("unexpected {:?}", other),
    }
}

#[test]
fn goto_def_miss() {
    let r = goto_def_reply(4, QueryOutcome::Finished(None));
    assert_eq!(r.id, 4);
    match r.body {
        Ok(Reply::Locations(v)) => assert!(v.is_empty()),
        other => panic!("unexpected {:?}", other),
    }
}

#[test]
fn goto_def_hit_is_zero_width() {
    let r = goto_def_reply(6, QueryOutcome::Finished(Some(span("/p/b.src", 4, 5, 9))));
    match r.body {
        Ok(Reply::Locations(v)) => {
            assert_eq!(v.len(), 1);
            assert_eq!(v[0].uri, "file:///p/b.src");
            assert_eq!((v[0].range.start.line, v[0].range.start.character), (4, 5));
            assert_eq!((v[0].range.end.line, v[0].range.end.character), (4, 5));
        }
        other => panic!("unexpected {:?}", other),
    }
    match goto_def_reply(6, QueryOutcome::Late).body {
        Err(e) => assert_eq!(e.message, "GotoDef failed to complete successfully"),
        other => panic!("unexpected {:?}", other),
    }
}

#[test]
fn change_triggers_build() {
    let mut session = Session::new();
    handle(&mut session, &initialize_msg());
    let effects = handle(&mut session, &change_msg());
    assert_eq!(effects.len(), 2);
    match &effects[0] {
        Effect::ApplyChanges(cs) => {
            assert_eq!(cs.len(), 1);
            assert_eq!(cs[0].span, span("/p/a.src", 0, 0, 3));
            assert_eq!(cs[0].text, "abc");
        }
        other => panic!("unexpected {:?}", other),
    }
    match &effects[1] {
        Effect::Build(path, prio) => {
            assert_eq!(path, "/tmp/p");
            assert_eq!(*prio, BuildPriority::Normal);
        }
        other => panic!("unexpected {:?}", other),
    }
}

#[test]
fn change_before_initialize_builds_empty_path() {
    let mut session = Session::new();
    let effects = handle(&mut session, &change_msg());
    match &effects[1] {
        Effect::Build(path, BuildPriority::Normal) => assert_eq!(path, ""),
        other => panic!("unexpected {:?}", other),
    }
}

#[test]
fn find_all_refs_timeout() {
    let r = find_all_refs_reply(5, QueryOutcome::Late);
    assert_eq!(r.id, 5);
    match r.body {
        Ok(Reply::Locations(v)) => assert!(v.is_empty()),
        other => panic!("unexpected {:?}", other),
    }
}

#[test]
fn find_all_refs_locations() {
    let spans = vec![span("/a", 1, 2, 5), span("/b", 3, 0, 4)];
    match find_all_refs_reply(9, QueryOutcome::Finished(spans)).body {
        Ok(Reply::Locations(v)) => {
            assert_eq!(v.len(), 2);
            assert_eq!(v[0].uri, "file:///a");
            assert_eq!((v[0].range.start.character, v[0].range.end.character), (2, 5));
            assert_eq!(v[1].uri, "file:///b");
            assert_eq!((v[1].range.end.line, v[1].range.end.character), (3, 4));
        }
        other => panic!("unexpected {:?}", other),
    }
}

#[test]
fn references_request_is_decoded() {
    let j = obj(vec![
        ("method", s("textDocument/references")),
        ("id", n(5)),
        (
            "params",
            obj(vec![
                ("textDocument", obj(vec![("uri", s("file:///x.src"))])),
                ("position", pos(2, 4)),
                ("context", obj(vec![("includeDeclaration", Json::Bool(true))])),
            ]),
        ),
    ]);
    match parse_message(&j) {
        Ok(ServerMessage::Request(Request { id: 5, method: Method::FindAllRef(p) })) => {
            assert!(p.include_declaration);
            assert_eq!((p.position.line, p.position.character), (2, 4));
            assert_eq!(p.text_document.uri, "file:///x.src");
        }
        other => panic!("unexpected {:?}", other),
    }
}

#[test]
fn cancel_is_a_silent_notification() {
    let j = obj(vec![("method", s("$/cancelRequest")), ("params", obj(vec![("id", n(3))]))]);
    let m = parse_message(&j).unwrap();
    assert!(matches!(m, ServerMessage::Notification(Notification::CancelRequest(3))));
    let mut session = Session::new();
    assert!(session.handle(m).is_empty());
}

#[test]
fn parse_errors() {
    assert_eq!(parse_message(&obj(vec![("id", n(1))])).unwrap_err(), ParseError::MissingMethod);
    assert_eq!(parse_message(&obj(vec![("method", n(1))])).unwrap_err(), ParseError::MethodNotString);
    assert_eq!(parse_message(&obj(vec![("method", s("workspace/symbol")), ("id", n(1))])).unwrap_err(), ParseError::UnknownMethod);
    assert_eq!(parse_message(&obj(vec![("method", s("shutdown"))])).unwrap_err(), ParseError::MissingId);
    let no_params = obj(vec![("method", s("textDocument/hover")), ("id", n(1))]);
    assert_eq!(parse_message(&no_params).unwrap_err(), ParseError::BadParams);
    assert_eq!(parse_message(&s("not an object")).unwrap_err(), ParseError::MissingMethod);
}

#[test]
fn reply_count_over_a_stream() {
    let mut session = Session::new();
    let msgs = vec![initialize_msg(), hover_msg(), change_msg(), hover_msg(), obj(vec![("method", s("shutdown")), ("id", n(9))])];
    let mut replies = 0;
    for m in &msgs {
        for e in handle(&mut session, m) {
            match e {
                Effect::Reply(_) | Effect::Hover(..) | Effect::GotoDef(..) | Effect::FindAllRef(..) => replies += 1,
                _ => {}
            }
        }
    }
    assert_eq!(replies, 3);
}

#[test]
fn build_outcomes_that_reload() {
    assert!(needs_reload(BuildOutcome::Success));
    assert!(needs_reload(BuildOutcome::Failure));
    assert!(!needs_reload(BuildOutcome::Squashed));
    assert!(!needs_reload(BuildOutcome::Error));
}
