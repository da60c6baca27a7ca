use f1r3fly_client::api::F1r3flyApi;
use f1r3fly_client::data::{data_from, take_body, take_found, DataPoll, DataStep};
use f1r3fly_client::json::parse;

const KEY: &str = "5f668a7ee96d944a4494cc947e4005e172d7ab3461ee5538f1f2a45a835e9657";

fn api() -> F1r3flyApi<'static> {
    F1r3flyApi::new(KEY, "localhost", 40412)
}

fn data(text: &str) -> Option<Vec<String>> {
    data_from(&parse(text.as_bytes()).unwrap())
}

fn found(items: &[&str]) -> Option<Vec<String>> {
    Some(items.iter().map(|s| s.to_string()).collect())
}

fn poll(max_attempts: u32, bodies: Vec<Option<&str>>) -> (usize, Option<Result<Vec<String>, String>>) {
    let mut step = api().poll_data_at_deploy_id_http("3044", max_attempts, 2);
    let mut asked = 0;
    let mut bodies = bodies.into_iter();
    loop {
        match step {
            DataStep::Finished(res) => return (asked, Some(res.map_err(|e| e.message()))),
            DataStep::Attempt(state) => {
                assert_eq!(state.poll_interval_secs, 2);
                assert_eq!(state.deploy_id, "3044");
                match bodies.next() {
                    Some(body) => {
                        asked += 1;
                        step = take_body(state, &body.map(|s| s.as_bytes().to_vec()));
                    }
                    None => return (asked, None),
                }
            }
        }
    }
}

#[test]
fn pieces_of_data_are_found() {
    let reply = "{\"length\":2,\"exprs\":[\
                 {\"expr\":{\"ExprInt\":{\"data\":42},\"ExprBool\":{\"data\":true}}},\
                 {\"expr\":{\"ExprString\":{\"data\":\"a b\"}}},\
                 {\"expr\":{\"ExprList\":{\"data\":[1, {\"x\" : null}]}}},\
                 {\"expr\":{\"ExprFloat\":{\"data\":-1.50}}},\
                 {\"expr\":{\"ExprNull\":{\"data\":null}}}]}";
    assert_eq!(
        data(reply),
        found(&["true", "42", "a b", "[1,{\"x\":null}]", "-1.5", "null"])
    );
}

#[test]
fn entries_without_data_are_passed_over() {
    let reply = "{\"length\":1,\"exprs\":[1,{},{\"expr\":7},{\"expr\":{\"A\":1,\"B\":{}}},\
                 {\"expr\":{\"C\":{\"data\":\"d\"}}}]}";
    assert_eq!(data(reply), found(&["d"]));
}

#[test]
fn a_reply_in_which_nothing_is_found_is_given_whole() {
    assert_eq!(data("{\"length\": 1}"), found(&["{\"length\":1}"]));
    assert_eq!(
        data("{\"length\":1,\"exprs\":[{\"expr\":{}}]}"),
        found(&["{\"exprs\":[{\"expr\":{}}],\"length\":1}"])
    );
    assert_eq!(data("{\"length\":1,\"exprs\":7}"), found(&["{\"exprs\":7,\"length\":1}"]));
}

#[test]
fn a_reply_without_length_has_no_data() {
    assert_eq!(data("{\"length\":0,\"exprs\":[{\"expr\":{\"A\":{\"data\":1}}}]}"), None);
    assert_eq!(data("{\"exprs\":[{\"expr\":{\"A\":{\"data\":1}}}]}"), None);
    assert_eq!(data("{\"length\":\"1\"}"), None);
    assert_eq!(data("{\"length\":-1}"), None);
    assert_eq!(data("[]"), None);
}

#[test]
fn the_first_data_is_given() {
    let some = "{\"length\":1,\"exprs\":[{\"expr\":{\"A\":{\"data\":\"x\"}}}]}";
    let bodies = vec![None, Some("oops"), Some("{\"length\":0}"), Some(some), None];
    assert_eq!(poll(60, bodies), (4, Some(Ok(vec!["x".to_string()]))));
    assert_eq!(poll(1, vec![Some(some)]), (1, Some(Ok(vec!["x".to_string()]))));
}

#[test]
fn waiting_in_vain_times_out() {
    let timed_out = |n| {
        Some(Err(format!("Timed out after {} attempts waiting for data at deploy 3044", n)))
    };
    assert_eq!(poll(2, vec![None, None, Some("{\"length\":1}")]), (2, timed_out(2)));
    assert_eq!(poll(0, vec![Some("{\"length\":1}")]), (0, timed_out(0)));
    assert_eq!(poll(3, vec![None]), (1, None));
}

#[test]
fn an_attempt_in_vain_is_counted() {
    let poll = |attempts| DataPoll {
        deploy_id: "id".to_string(),
        attempts,
        max_attempts: 3,
        poll_interval_secs: 7,
    };
    assert!(matches!(
        take_found(poll(1), None),
        DataStep::Attempt(next) if next.attempts == 2 && next.max_attempts == 3
    ));
    assert!(matches!(take_found(poll(2), None), DataStep::Finished(Err(_))));
    assert!(matches!(
        take_found(poll(2), Some(vec![])),
        DataStep::Finished(Ok(data)) if data.is_empty()
    ));
}

#[test]
fn nested_data_is_written_as_compact_json() {
    let body = "{ \"length\" : 1 , \"exprs\" : [ { \"expr\" : { \"M\" : { \"data\" : \
                { \"k\" : [ 1 , { } ] , \"b\" : true } } } } ] }";
    assert_eq!(
        poll(1, vec![Some(body)]),
        (1, Some(Ok(vec!["{\"b\":true,\"k\":[1,{}]}".to_string()])))
    );
}
