use f1r3fly_client::api::F1r3flyApi;
use f1r3fly_client::finality::{take_reply, FinalityReply, FinalityStep};

const KEY: &str = "5f668a7ee96d944a4494cc947e4005e172d7ab3461ee5538f1f2a45a835e9657";

fn api() -> F1r3flyApi<'static> {
    F1r3flyApi::new(KEY, "localhost", 40412)
}

fn wait(max_attempts: u32, replies: Vec<FinalityReply>) -> (usize, Option<Result<bool, String>>) {
    let mut check = api().is_finalized(max_attempts, 5);
    let mut asked = 0;
    for reply in replies {
        asked += 1;
        match take_reply(check, reply) {
            FinalityStep::Retry(next) => {
                assert_eq!(next.retry_delay_sec, 5);
                check = next;
            }
            FinalityStep::Finished(res) => return (asked, Some(res.map_err(|e| e.message()))),
        }
    }
    (asked, None)
}

fn no() -> FinalityReply {
    FinalityReply::IsFinalized(false)
}

fn yes() -> FinalityReply {
    FinalityReply::IsFinalized(true)
}

#[test]
fn the_question_names_the_block() {
    assert_eq!(api().is_finalized_query("bh").hash, "bh");
}

#[test]
fn a_block_that_becomes_finalized() {
    assert_eq!(wait(12, vec![yes()]), (1, Some(Ok(true))));
    assert_eq!(
        wait(12, vec![no(), FinalityReply::Failed, FinalityReply::Empty, yes()]),
        (4, Some(Ok(true)))
    );
}

#[test]
fn a_block_that_does_not() {
    assert_eq!(wait(3, vec![no(), no(), no(), yes()]), (3, Some(Ok(false))));
    assert_eq!(
        wait(2, vec![FinalityReply::Failed, FinalityReply::Empty, yes()]),
        (2, Some(Ok(false)))
    );
    assert_eq!(wait(3, vec![no(), no()]), (2, None));
}

#[test]
fn a_node_that_is_out_of_reach_to_the_end() {
    let message = "Failed to connect to node after maximum attempts".to_string();
    assert_eq!(wait(2, vec![no(), FinalityReply::Failed]), (2, Some(Err(message.clone()))));
    assert_eq!(wait(0, vec![FinalityReply::Failed]), (1, Some(Err(message))));
}

#[test]
fn no_attempts_allow_one_question() {
    assert_eq!(wait(0, vec![yes()]), (1, Some(Ok(true))));
    assert_eq!(wait(0, vec![no(), yes()]), (1, Some(Ok(false))));
}

#[test]
fn errors_end_the_waiting_at_once() {
    assert_eq!(
        wait(12, vec![no(), FinalityReply::Error, yes()]),
        (2, Some(Err("Error checking finalization status".to_string())))
    );
    assert_eq!(
        wait(12, vec![FinalityReply::NotConnected("refused".to_string()), yes()]),
        (1, Some(Err("refused".to_string())))
    );
}

#[test]
fn the_most_attempts_do_not_overflow() {
    let check = api().is_finalized(u32::MAX, 0);
    let late = f1r3fly_client::finality::FinalityCheck { attempts: u32::MAX - 1, ..check };
    assert!(matches!(take_reply(late, no()), FinalityStep::Finished(Ok(false))));
}
