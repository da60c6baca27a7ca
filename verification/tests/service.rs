use f1r3fly_client::api::F1r3flyApi;
use f1r3fly_client::json::{parse, JsonNode};
use f1r3fly_client::par::{Expr, ExprInstance, Par, UnfInstance};
use f1r3fly_client::service::{ExploratoryResult, LightBlockInfo, Reply, ServiceError};

const KEY: &str = "5f668a7ee96d944a4494cc947e4005e172d7ab3461ee5538f1f2a45a835e9657";

fn api() -> F1r3flyApi<'static> {
    F1r3flyApi::new(KEY, "node.example", 40401)
}

fn text(s: &str) -> String {
    s.to_string()
}

fn nothing() -> Par {
    Par { exprs: vec![], unforgeables: vec![], sends: 0, receives: 0, news: 0, debug: text("Par") }
}

fn integer(i: i64) -> Par {
    Par { exprs: vec![Expr { expr_instance: Some(ExprInstance::GInt(i)) }], ..nothing() }
}

fn service_error() -> ServiceError {
    ServiceError {
        messages: vec![text("one"), text("two")],
        display: text("shown"),
        debug: text("debugged"),
    }
}

#[test]
fn urls() {
    assert_eq!(api().service_url(), "http://node.example:40401/");
    assert_eq!(api().grpc_port(), 40401);
    assert_eq!(api().http_port(), 40402);
    assert_eq!(api().deploy_url(40403, "3044"), "http://node.example:40403/api/deploy/3044");
    assert_eq!(api().block_url(1, "bh"), "http://node.example:1/api/block/bh");
    assert_eq!(api().data_at_name_url(65535), "http://node.example:65535/api/data-at-name");
}

#[test]
fn a_client_can_be_made_with_a_check() {
    let api = F1r3flyApi::try_new(KEY, "h", 7).unwrap();
    assert_eq!(api.service_url(), "http://h:7/");
}

#[test]
fn queries_for_a_run() {
    let query = api().exploratory_deploy_query("@0!(1)", Some("bh"), true);
    assert_eq!(query.term, "@0!(1)");
    assert_eq!(query.block_hash, "bh");
    assert!(query.use_pre_state_hash);
    let query = api().exploratory_deploy_query("", None, false);
    assert_eq!(query.block_hash, "");
    assert!(!query.use_pre_state_hash);
}

#[test]
fn results_of_a_run() {
    let result = ExploratoryResult {
        post_block_data: vec![integer(5), nothing(), integer(-6), nothing()],
        block: Some(LightBlockInfo { block_hash: text("bh"), block_number: 12 }),
    };
    assert_eq!(
        api().exploratory_deploy(&Reply::Result(result)).unwrap(),
        (
            text(
                "[\"5\",\"Result 2: Complex data structure\",\"-6\",\
                 \"Result 4: Complex data structure\"]"
            ),
            text("Block hash: bh, Block number: 12")
        )
    );
}

#[test]
fn a_run_without_results() {
    let result = ExploratoryResult { post_block_data: vec![], block: None };
    assert_eq!(
        api().exploratory_deploy(&Reply::Result(result)).unwrap(),
        (text("[]"), text("No block info"))
    );
}

#[test]
fn the_data_of_a_run_is_json() {
    let quoted = Par {
        exprs: vec![Expr { expr_instance: Some(ExprInstance::GString(text("a\\\n\u{1}é"))) }],
        ..nothing()
    };
    let result = ExploratoryResult {
        post_block_data: vec![quoted, integer(5), nothing()],
        block: Some(LightBlockInfo { block_hash: text("abc"), block_number: 7 }),
    };
    let (data, block) = api().exploratory_deploy(&Reply::Result(result)).unwrap();
    assert_eq!(block, "Block hash: abc, Block number: 7");
    assert_eq!(
        data,
        "[\"\\\"a\\\\\\n\\u0001é\\\"\",\"5\",\"Result 3: Complex data structure\"]"
    );
    let json = parse(data.as_bytes()).unwrap();
    assert_eq!(json.text, data);
    let JsonNode::Array(items) = json.node else { panic!("the data is no array") };
    let texts: Vec<String> = items
        .into_iter()
        .map(|item| match item.node {
            JsonNode::Text(s) => s,
            _ => panic!("a part is no text"),
        })
        .collect();
    assert_eq!(texts, vec!["\"a\\\n\u{1}é\"", "5", "Result 3: Complex data structure"]);
}

#[test]
fn no_data_of_a_run_is_json_too() {
    let result = ExploratoryResult {
        post_block_data: vec![],
        block: Some(LightBlockInfo { block_hash: text("abc"), block_number: 7 }),
    };
    let (data, block) = api().exploratory_deploy(&Reply::Result(result)).unwrap();
    assert!(parse(data.as_bytes()).is_some());
    assert_eq!(block, "Block hash: abc, Block number: 7");
}

#[test]
fn a_run_that_fails() {
    let message = |reply| api().exploratory_deploy(&reply).unwrap_err().message();
    assert_eq!(message(Reply::Failed(text("refused"))), "refused");
    assert_eq!(message(Reply::Empty), "Exploratory deploy result not found");
    assert_eq!(message(Reply::Error(service_error())), "shown");
}

#[test]
fn proposals() {
    assert!(!api().propose_query().is_async);
    let hash = |response: &str| api().propose(&Reply::Result(text(response))).unwrap();
    assert_eq!(hash("Success! Block 9f86d0 created and added."), "9f86d0");
    assert_eq!(hash("Success! Block  created and added."), "");
    assert_eq!(
        hash("Success! Block  created and added. created and added."),
        " created and added."
    );
    assert_eq!(hash("Success! Block 9f86d0"), "Success! Block 9f86d0");
    assert_eq!(hash("9f86d0 created and added."), "9f86d0 created and added.");
    assert_eq!(hash(""), "");
}

#[test]
fn proposals_that_fail() {
    let message = |reply| api().propose(&reply).unwrap_err().message();
    assert_eq!(message(Reply::Failed(text("refused"))), "refused");
    assert_eq!(message(Reply::Empty), "Missing propose response");
    assert_eq!(message(Reply::Error(service_error())), "Propose error: debugged");
}

#[test]
fn queries_for_data() {
    let query = api().data_at_deploy_id_query("30Ab", "bh").unwrap();
    assert!(matches!(query.name, UnfInstance::GDeployIdBody(sig) if sig == vec![0x30, 0xab]));
    assert_eq!(query.block_hash, "bh");
    assert!(!query.use_pre_state_hash);
}

#[test]
fn queries_for_data_need_hexadecimal() {
    let message = |id| api().data_at_deploy_id_query(id, "bh").err().unwrap().message();
    assert_eq!(message("304"), "Invalid deploy ID hex: Odd number of digits");
    assert_eq!(message("30 4"), "Invalid deploy ID hex: Invalid character ' ' at position 2");
}

#[test]
fn a_deploy_id_names_its_signature() {
    let sig: Vec<u8> = (0..=255).collect();
    let id: String = sig.iter().map(|b| format!("{:02x}", b)).collect();
    let query = api().data_at_deploy_id_query(&id, "").unwrap();
    assert!(matches!(query.name, UnfInstance::GDeployIdBody(bytes) if bytes == sig));
}

#[test]
fn data_of_a_deploy() {
    let reply = Reply::Result(vec![integer(1), nothing(), integer(2)]);
    assert_eq!(api().get_data_at_deploy_id(&reply).unwrap(), vec!["1", "Par", "2"]);
    let none: Vec<String> = vec![];
    assert_eq!(api().get_data_at_deploy_id(&Reply::Result(vec![])).unwrap(), none);
}

#[test]
fn data_that_is_refused() {
    let message = |reply| api().get_data_at_deploy_id(&reply).unwrap_err().message();
    assert_eq!(message(Reply::Failed(text("refused"))), "refused");
    assert_eq!(message(Reply::Empty), "No response from getDataAtName");
    assert_eq!(message(Reply::Error(service_error())), "getDataAtName error: one; two");
}
