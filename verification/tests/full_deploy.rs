use f1r3fly_client::api::F1r3flyApi;
use f1r3fly_client::error::ApiError;
use f1r3fly_client::full_deploy::{
    take_data, take_lookup, take_propose, BlockSearch, FullDeployStep,
};

const KEY: &str = "5f668a7ee96d944a4494cc947e4005e172d7ab3461ee5538f1f2a45a835e9657";

fn text(s: &str) -> String {
    s.to_string()
}

fn after_propose(proposed: Result<String, ApiError>) -> FullDeployStep {
    take_propose(text("id"), proposed)
}

fn search(auto_propose: bool) -> BlockSearch {
    BlockSearch { deploy_id: text("id"), auto_propose, lookups: 0 }
}

/// Runs a search to its end and counts the questions.
fn run(
    auto_propose: bool,
    answer: impl Fn(u32) -> Result<Option<String>, ApiError>,
) -> (u32, FullDeployStep) {
    let mut state = search(auto_propose);
    let mut asked = 0;
    loop {
        asked += 1;
        match take_lookup(state, answer(asked)) {
            FullDeployStep::WaitAndLookUp { seconds, search } => {
                assert_eq!(seconds, 3);
                assert_eq!(search.lookups, asked);
                state = search;
            }
            step => return (asked, step),
        }
    }
}

#[test]
fn a_cycle_begins_with_the_deploy() {
    let api = F1r3flyApi::new(KEY, "localhost", 40412);
    assert!(matches!(
        api.full_deploy(Ok(text("id"))),
        FullDeployStep::Propose { deploy_id } if deploy_id == "id"
    ));
    match api.full_deploy(Err(ApiError::DeployResultMissing)) {
        FullDeployStep::Finished(res) => {
            assert_eq!(res.unwrap_err().message(), "Deploy result not found")
        }
        _ => panic!("the cycle goes on"),
    }
}

#[test]
fn a_proposed_block_is_read() {
    assert!(matches!(
        after_propose(Ok(text("bh"))),
        FullDeployStep::ReadData { block_hash, deploy_id } if block_hash == "bh" && deploy_id == "id"
    ));
}

#[test]
fn a_proposal_without_a_hash_is_searched_for() {
    assert!(matches!(
        after_propose(Ok(text(""))),
        FullDeployStep::LookUp(search)
            if search.deploy_id == "id" && !search.auto_propose && search.lookups == 0
    ));
}

#[test]
fn nodes_that_propose_by_themselves_are_recognised() {
    for said in ["[NoNewDeploys]", "NotEnoughNewBlocks", "there is another propose in progress"] {
        for error in [ApiError::Propose(text(said)), ApiError::Transport(text(said))] {
            assert!(matches!(
                after_propose(Err(error)),
                FullDeployStep::LookUp(search) if search.auto_propose && search.lookups == 0
            ));
        }
    }
}

#[test]
fn other_refusals_end_the_cycle() {
    for said in ["nonewdeploys", "NoNew Deploys", "another  propose", ""] {
        match after_propose(Err(ApiError::Propose(text(said)))) {
            FullDeployStep::Finished(res) => {
                assert_eq!(res.unwrap_err().message(), format!("Propose error: {}", said))
            }
            _ => panic!("the cycle goes on"),
        }
    }
}

#[test]
fn a_search_stops_at_the_first_block() {
    let (asked, step) = run(false, |n| match n {
        1 => Ok(None),
        2 => Err(ApiError::Decode),
        _ => Ok(Some(text("bh"))),
    });
    assert_eq!(asked, 3);
    assert!(matches!(step, FullDeployStep::ReadData { block_hash, .. } if block_hash == "bh"));
    let (asked, step) = run(true, |n| if n < 20 { Ok(None) } else { Ok(Some(text("late"))) });
    assert_eq!(asked, 20);
    assert!(matches!(
        step,
        FullDeployStep::PollData { block_hash, deploy_id, max_attempts: 60, poll_interval_secs: 2 }
            if block_hash == "late" && deploy_id == "id"
    ));
}

#[test]
fn a_search_in_vain_ends_with_its_last_answer() {
    let (asked, step) = run(true, |_| Ok(None));
    assert_eq!(asked, 20);
    match step {
        FullDeployStep::Finished(res) => assert_eq!(
            res.unwrap_err().message(),
            "Deploy not included in any block after 60s of polling"
        ),
        _ => panic!("the search goes on"),
    }
    let (asked, step) = run(true, |_| Err(ApiError::Network(text("refused"))));
    assert_eq!(asked, 20);
    match step {
        FullDeployStep::Finished(res) => assert_eq!(
            res.unwrap_err().message(),
            "Failed to look up deploy block: Network error: refused"
        ),
        _ => panic!("the search goes on"),
    }
}

#[test]
fn a_cycle_ends_with_the_data() {
    match take_data(text("bh"), text("id"), Ok(vec![text("1"), text("2")])) {
        FullDeployStep::Finished(res) => {
            assert_eq!(res.unwrap(), (text("bh"), text("id"), vec![text("1"), text("2")]))
        }
        _ => panic!("the cycle goes on"),
    }
    match take_data(text("bh"), text("id"), Err(ApiError::DataResponseMissing)) {
        FullDeployStep::Finished(res) => {
            assert_eq!(res.unwrap_err().message(), "No response from getDataAtName")
        }
        _ => panic!("the cycle goes on"),
    }
}

/// Runs a whole cycle on a node that proposes blocks by itself and includes the deploy late.
#[test]
fn a_whole_cycle() {
    let api = F1r3flyApi::new(KEY, "localhost", 40412);
    let mut step = api.full_deploy(Ok(text("id")));
    let mut asked = 0;
    let res = loop {
        step = match step {
            FullDeployStep::Propose { deploy_id } => {
                take_propose(deploy_id, Err(ApiError::Propose(text("NoNewDeploys"))))
            }
            FullDeployStep::LookUp(search) | FullDeployStep::WaitAndLookUp { search, .. } => {
                asked += 1;
                take_lookup(search, Ok(if asked == 7 { Some(text("bh")) } else { None }))
            }
            FullDeployStep::PollData { block_hash, deploy_id, .. } => {
                take_data(block_hash, deploy_id, Ok(vec![text("data")]))
            }
            FullDeployStep::ReadData { .. } => panic!("the node proposes by itself"),
            FullDeployStep::Finished(res) => break res,
        };
    };
    assert_eq!(asked, 7);
    assert_eq!(res.unwrap(), (text("bh"), text("id"), vec![text("data")]));
}
