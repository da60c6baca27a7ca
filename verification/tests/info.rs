use f1r3fly_client::api::F1r3flyApi;
use f1r3fly_client::http::{HttpReply, Status};
use f1r3fly_client::info::{execution_of, info_from_record, BlockReading, DeployInfo, DeployStatus};
use f1r3fly_client::json::parse;

const KEY: &str = "5f668a7ee96d944a4494cc947e4005e172d7ab3461ee5538f1f2a45a835e9657";
const NO_BLOCK: &str = "Error: Couldn't find block containing deploy with id: 30";

fn api() -> F1r3flyApi<'static> {
    F1r3flyApi::new(KEY, "localhost", 40412)
}

fn success(body: &str) -> HttpReply {
    HttpReply::Success(Some(body.as_bytes().to_vec()))
}

fn failure(code: u16, body: Option<&str>) -> HttpReply {
    HttpReply::Failure {
        status: Status::new(code).unwrap(),
        body: body.map(|s| s.to_string()),
    }
}

fn record() -> HttpReply {
    success(
        "{\"blockHash\":\"bh\",\"sender\":\"04ff\",\"seqNum\":3,\"sig\":\"3044\",\
         \"sigAlgorithm\":\"secp256k1\",\"shardId\":\"root\",\"version\":1,\
         \"timestamp\":1700000000000}",
    )
}

fn info(lookup: &HttpReply, block: Option<HttpReply>) -> DeployInfo {
    api().get_deploy_info("3044", lookup, &block).unwrap()
}

fn says_only(info: &DeployInfo, status: DeployStatus) {
    assert_eq!(info.status, status);
    assert_eq!(info.deploy_id, "3044");
    assert_eq!(info.block_hash, None);
    assert_eq!(info.sender, None);
    assert_eq!(info.seq_num, None);
    assert_eq!(info.sig, None);
    assert_eq!(info.sig_algorithm, None);
    assert_eq!(info.shard_id, None);
    assert_eq!(info.version, None);
    assert_eq!(info.timestamp, None);
    assert!(!info.errored);
    assert_eq!(info.system_deploy_error, None);
}

#[test]
fn block_hash_of_a_record() {
    assert_eq!(api().get_deploy_block_hash(&record()).unwrap(), Some("bh".to_string()));
    assert_eq!(api().get_deploy_block_hash(&success("{\"sender\":\"x\"}")).unwrap(), None);
    assert_eq!(api().get_deploy_block_hash(&success("{\"blockHash\":7}")).unwrap(), None);
    assert_eq!(api().get_deploy_block_hash(&success("[]")).unwrap(), None);
}

#[test]
fn block_hash_of_a_deploy_not_yet_in_a_block() {
    assert_eq!(api().get_deploy_block_hash(&HttpReply::NotFound).unwrap(), None);
    assert_eq!(api().get_deploy_block_hash(&failure(500, Some(NO_BLOCK))).unwrap(), None);
}

#[test]
fn block_hash_errors() {
    let message = |reply: &HttpReply| api().get_deploy_block_hash(reply).unwrap_err().message();
    assert_eq!(
        message(&HttpReply::NetworkError("refused".to_string())),
        "Network error: refused"
    );
    assert_eq!(
        message(&failure(400, Some("bad id"))),
        "HTTP error 400 Bad Request: Bad Request - Response: bad id"
    );
    assert_eq!(
        message(&failure(500, None)),
        "HTTP error 500 Internal Server Error: Internal Server Error - Response: \
         Unable to read response body"
    );
    assert_eq!(message(&success("{")), "error decoding response body");
    assert_eq!(message(&HttpReply::Success(None)), "error decoding response body");
}

#[test]
fn info_of_an_included_deploy() {
    let block = success(
        "{\"deploys\":[{\"sig\":\"aa\",\"errored\":false},{\"errored\":true},\
         {\"sig\":\"3044\",\"errored\":true,\"systemDeployError\":\"Insufficient funds\"},\
         {\"sig\":\"3044\",\"errored\":false}]}",
    );
    let info = info(&record(), Some(block));
    assert_eq!(info.status, DeployStatus::Included);
    assert_eq!(info.deploy_id, "3044");
    assert_eq!(info.block_hash, Some("bh".to_string()));
    assert_eq!(info.sender, Some("04ff".to_string()));
    assert_eq!(info.seq_num, Some(3));
    assert_eq!(info.sig, Some("3044".to_string()));
    assert_eq!(info.sig_algorithm, Some("secp256k1".to_string()));
    assert_eq!(info.shard_id, Some("root".to_string()));
    assert_eq!(info.version, Some(1));
    assert_eq!(info.timestamp, Some(1700000000000));
    assert!(info.errored);
    assert_eq!(info.system_deploy_error, Some("Insufficient funds".to_string()));
}

#[test]
fn an_empty_system_error_is_none() {
    let block = success("{\"deploys\":[{\"sig\":\"3044\",\"systemDeployError\":\"\"}]}");
    let info = info(&record(), Some(block));
    assert!(!info.errored);
    assert_eq!(info.system_deploy_error, None);
}

#[test]
fn a_block_that_does_not_list_the_deploy_holds_nothing_against_it() {
    let blocks = [
        success("{\"deploys\":[{\"sig\":\"3045\",\"errored\":true}]}"),
        success("{\"deploys\":{\"sig\":\"3044\",\"errored\":true}}"),
        success("{}"),
        HttpReply::NotFound,
        HttpReply::NetworkError("refused".to_string()),
        failure(500, Some("down")),
    ];
    for block in blocks {
        let info = info(&record(), Some(block));
        assert_eq!(info.status, DeployStatus::Included);
        assert!(!info.errored);
        assert_eq!(info.system_deploy_error, None);
    }
}

#[test]
fn a_deploy_whose_record_names_no_block_is_pending() {
    for record in ["{\"sig\":\"aa\"}", "{\"sig\":\"aa\",\"blockHash\":null}"] {
        let lookup = success(record);
        let info = api().get_deploy_info("aa", &lookup, &None).unwrap();
        assert_eq!(info.status, DeployStatus::Pending);
        assert_eq!(info.block_hash, None);
        assert_eq!(info.sig, Some("aa".to_string()));
        assert!(!info.errored);
        assert_eq!(info.system_deploy_error, None);
        assert_eq!(api().block_request(40413, &lookup), None);
    }
}

#[test]
fn a_deploy_is_included_exactly_where_a_block_is_named() {
    let lookups = [
        record(),
        success("{}"),
        HttpReply::NotFound,
        failure(500, Some(NO_BLOCK)),
        failure(500, Some("down")),
        HttpReply::NetworkError("refused".to_string()),
    ];
    for lookup in lookups {
        let info = info(&lookup, None);
        assert_eq!(info.status == DeployStatus::Included, info.block_hash.is_some());
    }
}

#[test]
fn the_block_that_the_record_names_is_asked_for() {
    assert_eq!(
        api().block_request(40413, &record()),
        Some("http://localhost:40413/api/block/bh".to_string())
    );
    let others = [
        success("{"),
        HttpReply::Success(None),
        HttpReply::NotFound,
        failure(500, Some(NO_BLOCK)),
        failure(500, None),
        HttpReply::NetworkError("refused".to_string()),
    ];
    for lookup in others {
        assert_eq!(api().block_request(40413, &lookup), None);
    }
}

#[test]
fn a_block_is_ignored_where_the_record_names_none() {
    let info = info(&success("{}"), Some(success("not json")));
    assert_eq!(info.status, DeployStatus::Pending);
}

#[test]
fn info_without_a_record() {
    says_only(&info(&HttpReply::NotFound, None), DeployStatus::NotFound);
    says_only(&info(&failure(500, Some(NO_BLOCK)), None), DeployStatus::Pending);
    says_only(
        &info(&failure(500, Some("down")), None),
        DeployStatus::Error("HTTP error: down".to_string()),
    );
    says_only(
        &info(&failure(500, None), None),
        DeployStatus::Error("HTTP error: Unable to read response body".to_string()),
    );
    says_only(
        &info(&HttpReply::NetworkError("refused".to_string()), None),
        DeployStatus::Error("Network error: refused".to_string()),
    );
}

#[test]
fn info_fails_only_to_decode() {
    let message = |lookup: &HttpReply, block: Option<HttpReply>| {
        api().get_deploy_info("3044", lookup, &block).unwrap_err().message()
    };
    assert_eq!(message(&success("x"), None), "error decoding response body");
    assert_eq!(message(&HttpReply::Success(None), None), "error decoding response body");
    assert_eq!(message(&record(), Some(success("x"))), "error decoding response body");
    assert_eq!(
        message(&record(), Some(HttpReply::Success(None))),
        "error decoding response body"
    );
}

#[test]
fn info_names_the_block_that_the_lookup_names() {
    for lookup in [record(), success("{}"), HttpReply::NotFound, failure(500, Some(NO_BLOCK))] {
        let hash = api().get_deploy_block_hash(&lookup).unwrap();
        assert_eq!(info(&lookup, None).block_hash, hash);
    }
}

#[test]
fn a_record_and_its_block_are_put_together() {
    let record = parse(b"{\"blockHash\":\"bh\",\"seqNum\":4}").unwrap();
    let block = parse(b"{\"deploys\":[{\"sig\":\"id\",\"errored\":true}]}").unwrap();
    assert_eq!(execution_of(&block, "id"), (true, None));
    assert_eq!(execution_of(&block, "di"), (false, None));
    let info = info_from_record("id", &record, &BlockReading::Had(block)).unwrap();
    assert!(info.errored);
    assert_eq!(info.seq_num, Some(4));
    let info = info_from_record("id", &record, &BlockReading::NotHad).unwrap();
    assert!(!info.errored);
    let e = info_from_record("id", &record, &BlockReading::NotJson).unwrap_err();
    assert_eq!(e.message(), "error decoding response body");
    let bare = parse(b"{}").unwrap();
    assert!(info_from_record("id", &bare, &BlockReading::NotJson).is_ok());
}
