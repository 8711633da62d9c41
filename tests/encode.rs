use lsproto::json::Json;
use lsproto::reply::{find_all_refs_reply, goto_def_reply, hover_reply, initialize_reply, HoverInfo, QueryOutcome};

fn members(j: &Json) -> Vec<(String, &Json)> {
    match j {
        Json::Object(f) => f.iter().map(|(k, v)| (k.clone(), v)).collect(),
        other => panic!("not an object: {:?}", other),
    }
}

fn text(j: &Json) -> &str {
    match j {
        Json::Str(s) => s.as_str(),
        other => panic!("not a string: {:?}", other),
    }
}

#[test]
fn success_envelope_for_hover() {
    let info = HoverInfo { ty: "i32".to_string(), docs: String::new(), doc_url: String::new() };
    let j = hover_reply(3, QueryOutcome::Finished(info)).to_json();
    let m = members(&j);
    let keys: Vec<&str> = m.iter().map(|(k, _)| k.as_str()).collect();
    assert_eq!(keys, vec!["jsonrpc", "id", "result"]);
    assert_eq!(text(m[0].1), "2.0");
    assert!(matches!(m[1].1, Json::UInt(3)));
    let result = members(m[2].1);
    assert_eq!(result[0].0, "contents");
    match result[0].1 {
        Json::Array(items) => {
            assert_eq!(items.len(), 1);
            let item = members(&items[0]);
            assert_eq!((item[0].0.as_str(), text(item[0].1)), ("language", "rust"));
            assert_eq!((item[1].0.as_str(), text(item[1].1)), ("value", "i32"));
        }
        other => panic!("unexpected {:?}", other),
    }
}

#[test]
fn failure_envelope_has_code() {
    let j = hover_reply(3, QueryOutcome::Late).to_json();
    let m = members(&j);
    assert_eq!(m[2].0, "error");
    let e = members(m[2].1);
    assert_eq!(e[0].0, "code");
    assert!(matches!(e[0].1, Json::NegInt(-32601)));
    assert_eq!(text(e[1].1), "Hover failed to complete successfully");
}

#[test]
fn empty_locations_envelope() {
    for j in [goto_def_reply(4, QueryOutcome::Finished(None)).to_json(), find_all_refs_reply(5, QueryOutcome::Late).to_json()] {
        let m = members(&j);
        assert_eq!(m[2].0, "result");
        assert!(matches!(m[2].1, Json::Array(v) if v.is_empty()));
    }
}

#[test]
fn capabilities_envelope() {
    let j = initialize_reply(1).to_json();
    let m = members(&j);
    assert!(matches!(m[1].1, Json::UInt(1)));
    let result = members(m[2].1);
    assert_eq!(result[0].0, "capabilities");
    let caps = members(result[0].1);
    assert_eq!(caps.len(), 14);
    assert_eq!(caps[0].0, "textDocumentSync");
    assert!(matches!(caps[0].1, Json::UInt(2)));
    assert_eq!(caps[8].0, "workshopSymbolProvider");
    assert!(matches!(caps[8].1, Json::Bool(true)));
    assert!(matches!(caps[9].1, Json::Bool(false)));
    let completion = members(caps[2].1);
    assert_eq!(completion[1].0, "triggerCharacters");
    match completion[1].1 {
        Json::Array(v) => assert_eq!(text(&v[0]), "."),
        other => panic!("unexpected {:?}", other),
    }
}
