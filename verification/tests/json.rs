use f1r3fly_client::data::data_at_name_request;
use f1r3fly_client::json::{parse, Json, JsonNode};

fn read(text: &str) -> Json {
    parse(text.as_bytes()).unwrap()
}

#[test]
fn documents_are_read() {
    let json = read("{ \"b\": [1, -2, 1.5, null], \"a\": {\"t\": true}, \"s\": \"x\\ny\" }");
    assert_eq!(json.text, "{\"a\":{\"t\":true},\"b\":[1,-2,1.5,null],\"s\":\"x\\ny\"}");
    assert_eq!(json.get_text("s"), Some("x\ny".to_string()));
    assert_eq!(json.get("a").unwrap().get_bool("t"), Some(true));
    let items = json.get_array("b").unwrap();
    assert_eq!(items.len(), 4);
    assert!(matches!(&items[0].node, JsonNode::Number(n) if n.natural == Some(1) && n.text == "1"));
    assert!(matches!(&items[1].node, JsonNode::Number(n) if n.natural == None && n.text == "-2"));
    assert!(matches!(&items[2].node, JsonNode::Number(n) if n.natural == None && n.text == "1.5"));
    assert!(matches!(&items[3].node, JsonNode::Null));
}

#[test]
fn what_is_no_document_is_refused() {
    assert!(parse(b"").is_none());
    assert!(parse(b"{").is_none());
    assert!(parse(b"{} x").is_none());
    assert!(parse(b"\xff").is_none());
}

#[test]
fn members_are_looked_up_by_key_and_kind() {
    let json = read("{\"n\":7,\"big\":18446744073709551615,\"s\":\"7\",\"b\":false,\"l\":[]}");
    assert_eq!(json.get_natural("n"), Some(7));
    assert_eq!(json.get_natural("big"), Some(u64::MAX));
    assert_eq!(json.get_natural("s"), None);
    assert_eq!(json.get_text("n"), None);
    assert_eq!(json.get_bool("b"), Some(false));
    assert_eq!(json.get_bool("n"), None);
    assert_eq!(json.get_array("l").map(|l| l.len()), Some(0));
    assert!(json.get_array("n").is_none());
    assert!(json.get("missing").is_none());
    assert!(json.get("N").is_none());
    assert!(read("[1]").get("n").is_none());
    assert!(read("null").get_text("n").is_none());
}

#[test]
fn the_last_of_equal_keys_is_kept() {
    assert_eq!(read("{\"a\":1,\"a\":2}").get_natural("a"), Some(2));
}

#[test]
fn texts_are_quoted() {
    assert_eq!(
        data_at_name_request("3044ab"),
        "{\"depth\":50,\"name\":{\"UnforgDeploy\":{\"data\":\"3044ab\"}}}"
    );
    assert_eq!(
        data_at_name_request("a\"b\\c\n\t\r\u{8}\u{c}\u{1f}\u{7f}é"),
        "{\"depth\":50,\"name\":{\"UnforgDeploy\":{\"data\":\"a\\\"b\\\\c\\n\\t\\r\\b\\f\\u001f\u{7f}é\"}}}"
    );
}

#[test]
fn the_request_is_a_document_that_names_the_deploy() {
    let json = read(&data_at_name_request("a\"\u{1}"));
    assert_eq!(json.get_natural("depth"), Some(50));
    let name = json.get("name").unwrap().get("UnforgDeploy").unwrap();
    assert_eq!(name.get_text("data"), Some("a\"\u{1}".to_string()));
}

#[test]
fn values_inside_a_document_carry_their_compact_texts() {
    let json = read("{ \"a\" : [ { \"y\" : 1 , \"x\" : [ ] } , null , \"é\\n\" ] }");
    let items = json.get_array("a").unwrap();
    assert_eq!(items[0].text, "{\"x\":[],\"y\":1}");
    assert_eq!(items[0].get("x").unwrap().text, "[]");
    assert_eq!(items[1].text, "null");
    assert_eq!(items[2].text, "\"é\\n\"");
}
