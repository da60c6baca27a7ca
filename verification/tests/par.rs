use f1r3fly_client::par::{
    extract_par_data, items_text, Expr, ExprInstance, GUnforgeable, KeyValuePair, Par, UnfInstance,
};

fn empty(debug: &str) -> Par {
    Par {
        exprs: vec![],
        unforgeables: vec![],
        sends: 0,
        receives: 0,
        news: 0,
        debug: debug.to_string(),
    }
}

fn of(instance: ExprInstance) -> Par {
    Par { exprs: vec![Expr { expr_instance: Some(instance) }], ..empty("par") }
}

fn named(instance: Option<UnfInstance>) -> Par {
    Par {
        unforgeables: vec![GUnforgeable { unf_instance: instance, debug: "unf".to_string() }],
        ..empty("par")
    }
}

fn rendered(par: &Par) -> String {
    extract_par_data(par).unwrap()
}

#[test]
fn plain_expressions_are_rendered() {
    assert_eq!(rendered(&of(ExprInstance::GString("a\"b".to_string()))), "\"a\"b\"");
    assert_eq!(rendered(&of(ExprInstance::GUri("rho:io".to_string()))), "`rho:io`");
    assert_eq!(rendered(&of(ExprInstance::GInt(-42))), "-42");
    assert_eq!(rendered(&of(ExprInstance::GBool(true))), "true");
    assert_eq!(rendered(&of(ExprInstance::GByteArray(vec![0, 171, 255]))), "0x00abff");
    assert_eq!(rendered(&of(ExprInstance::Other("EPlus".to_string()))), "EPlus");
}

#[test]
fn collections_are_rendered() {
    let list = of(ExprInstance::EListBody(vec![
        of(ExprInstance::GInt(1)),
        empty("Par { }"),
        of(ExprInstance::ETupleBody(vec![of(ExprInstance::GBool(false)), of(ExprInstance::GInt(2))])),
    ]));
    assert_eq!(rendered(&list), "[1, Par { }, (false, 2)]");
    assert_eq!(rendered(&of(ExprInstance::EListBody(vec![]))), "[]");
    assert_eq!(rendered(&of(ExprInstance::ETupleBody(vec![]))), "()");
}

#[test]
fn maps_are_rendered() {
    let map = of(ExprInstance::EMapBody(vec![
        KeyValuePair {
            key: Some(of(ExprInstance::GString("k".to_string()))),
            value: Some(of(ExprInstance::GInt(7))),
        },
        KeyValuePair { key: None, value: Some(empty("debug")) },
    ]));
    assert_eq!(rendered(&map), "{\"k\": 7, ?: ?}");
}

#[test]
fn names_are_rendered() {
    assert_eq!(
        rendered(&named(Some(UnfInstance::GDeployIdBody(vec![0x30, 0x44])))),
        "DeployId(3044)"
    );
    assert_eq!(rendered(&named(Some(UnfInstance::GPrivateBody(vec![9])))), "GPrivate(09)");
    assert_eq!(rendered(&named(Some(UnfInstance::Other))), "unf");
    assert_eq!(rendered(&named(None)), "unf");
}

#[test]
fn other_parts_are_named_by_their_kind() {
    assert_eq!(rendered(&Par { sends: 1, receives: 1, ..empty("") }), "Send operation");
    assert_eq!(rendered(&Par { receives: 2, news: 1, ..empty("") }), "Receive operation");
    assert_eq!(rendered(&Par { news: 1, ..empty("") }), "New declaration");
}

#[test]
fn nothing_has_no_rendering() {
    assert!(extract_par_data(&empty("debug")).is_none());
    let blank = Par { exprs: vec![Expr { expr_instance: None }], ..empty("debug") };
    assert!(extract_par_data(&blank).is_none());
}

#[test]
fn an_expression_without_an_instance_gives_way_to_what_follows() {
    let par = Par { exprs: vec![Expr { expr_instance: None }], sends: 3, ..empty("") };
    assert_eq!(rendered(&par), "Send operation");
    let first = Par {
        exprs: vec![
            Expr { expr_instance: Some(ExprInstance::GInt(1)) },
            Expr { expr_instance: Some(ExprInstance::GInt(2)) },
        ],
        sends: 1,
        ..empty("")
    };
    assert_eq!(rendered(&first), "1");
}

#[test]
fn items_are_rendered_in_order() {
    let items = vec![of(ExprInstance::GInt(3)), empty("?"), of(ExprInstance::GInt(1))];
    assert_eq!(items_text(&items), vec!["3", "?", "1"]);
}
