//! The full cycle of a deploy: deploy, propose, find the block, read the data.

use crate::api::F1r3flyApi;
use crate::error::{error_chars, outcome, ApiError, ErrorView};
use crate::text::{contains, occurs};
use vstd::prelude::*;

verus! {

/// How often the node is asked for the block of a deploy.
pub const MAX_LOOKUPS: u32 = 20;

/// How many seconds pass between two questions for the block of a deploy.
pub const LOOKUP_PAUSE_SECS: u64 = 3;

/// How often the node is asked for the data of a deploy where it proposes blocks by itself.
pub const DATA_ATTEMPTS: u32 = 60;

/// How many seconds pass before each question for the data of a deploy.
pub const DATA_INTERVAL_SECS: u64 = 2;

/// What a full cycle gives: the hash of the block, the deploy ID, and the data on the channel of
/// the deploy.
pub type FullDeploy = (String, String, Vec<String>);

/// How far the search for the block of a deploy has come.
#[derive(Debug)]
pub struct BlockSearch {
    pub deploy_id: String,
    /// Whether the node proposes blocks by itself.
    pub auto_propose: bool,
    /// How often the node was asked.
    pub lookups: u32,
}

/// What to do next.
#[derive(Debug)]
pub enum FullDeployStep {
    /// Propose a block.
    Propose { deploy_id: String },
    /// Ask for the block of the deploy at once.
    LookUp(BlockSearch),
    /// Wait for so many seconds, then ask for the block of the deploy.
    WaitAndLookUp { seconds: u64, search: BlockSearch },
    /// Ask for the data on the channel of the deploy, over recent blocks, so many times and at
    /// such an interval.
    PollData { block_hash: String, deploy_id: String, max_attempts: u32, poll_interval_secs: u64 },
    /// Ask for the data on the channel of the deploy in the block.
    ReadData { block_hash: String, deploy_id: String },
    /// Stop.
    Finished(Result<FullDeploy, ApiError>),
}

/// The mathematical value of a [`BlockSearch`].
pub struct SearchView {
    pub deploy_id: Seq<char>,
    pub auto_propose: bool,
    pub lookups: u32,
}

/// The mathematical value of a [`FullDeployStep`].
pub enum FullDeployView {
    Propose { deploy_id: Seq<char> },
    LookUp(SearchView),
    WaitAndLookUp { seconds: u64, search: SearchView },
    PollData {
        block_hash: Seq<char>,
        deploy_id: Seq<char>,
        max_attempts: u32,
        poll_interval_secs: u64,
    },
    ReadData { block_hash: Seq<char>, deploy_id: Seq<char> },
    Finished(Result<(Seq<char>, Seq<char>, Seq<Seq<char>>), ErrorView>),
}

impl View for BlockSearch {
    type V = SearchView;

    open spec fn view(&self) -> SearchView {
        SearchView {
            deploy_id: self.deploy_id@,
            auto_propose: self.auto_propose,
            lookups: self.lookups,
        }
    }
}

impl View for FullDeployStep {
    type V = FullDeployView;

    open spec fn view(&self) -> FullDeployView {
        match *self {
            FullDeployStep::Propose { deploy_id } => FullDeployView::Propose {
                deploy_id: deploy_id@,
            },
            FullDeployStep::LookUp(search) => FullDeployView::LookUp(search@),
            FullDeployStep::WaitAndLookUp { seconds, search } => FullDeployView::WaitAndLookUp {
                seconds,
                search: search@,
            },
            FullDeployStep::PollData { block_hash, deploy_id, max_attempts, poll_interval_secs } =>
            FullDeployView::PollData {
                block_hash: block_hash@,
                deploy_id: deploy_id@,
                max_attempts,
                poll_interval_secs,
            },
            FullDeployStep::ReadData { block_hash, deploy_id } => FullDeployView::ReadData {
                block_hash: block_hash@,
                deploy_id: deploy_id@,
            },
            FullDeployStep::Finished(res) => FullDeployView::Finished(outcome(res)),
        }
    }
}

impl SearchView {
    /// Whether questions are left.
    pub open spec fn wf(self) -> bool {
        self.lookups < MAX_LOOKUPS
    }

    /// The state after one more question.
    pub open spec fn counted(self) -> SearchView {
        SearchView { lookups: (self.lookups + 1) as u32, ..self }
    }
}

/// Whether what is said of a refused proposal means that the node proposes blocks by itself.
pub open spec fn speaks_of_auto_propose(said: Seq<char>) -> bool {
    ||| occurs(said, "NoNewDeploys"@)
    ||| occurs(said, "NotEnoughNewBlocks"@)
    ||| occurs(said, "another propose"@)
}

/// How the data is read once the block is known. Where the node proposes blocks by itself, the
/// data may come in a later block.
pub open spec fn reading(
    auto_propose: bool,
    deploy_id: Seq<char>,
    block_hash: Seq<char>,
) -> FullDeployView {
    if auto_propose {
        FullDeployView::PollData {
            block_hash,
            deploy_id,
            max_attempts: DATA_ATTEMPTS,
            poll_interval_secs: DATA_INTERVAL_SECS,
        }
    } else {
        FullDeployView::ReadData { block_hash, deploy_id }
    }
}

/// What follows from the deploy.
pub open spec fn after_deploy(deployed: Result<Seq<char>, ErrorView>) -> FullDeployView {
    match deployed {
        Ok(deploy_id) => FullDeployView::Propose { deploy_id },
        Err(e) => FullDeployView::Finished(Err(e)),
    }
}

/// What follows from the proposal.
pub open spec fn after_propose(
    deploy_id: Seq<char>,
    proposed: Result<Seq<char>, ErrorView>,
) -> FullDeployView {
    match proposed {
        Ok(block_hash) => if block_hash.len() == 0 {
            FullDeployView::LookUp(SearchView { deploy_id, auto_propose: false, lookups: 0 })
        } else {
            reading(false, deploy_id, block_hash)
        },
        Err(e) => if speaks_of_auto_propose(error_chars(e)) {
            FullDeployView::LookUp(SearchView { deploy_id, auto_propose: true, lookups: 0 })
        } else {
            FullDeployView::Finished(Err(e))
        },
    }
}

/// What follows from a question for the block.
pub open spec fn after_lookup(
    search: SearchView,
    found: Result<Option<Seq<char>>, ErrorView>,
) -> FullDeployView {
    let again = FullDeployView::WaitAndLookUp {
        seconds: LOOKUP_PAUSE_SECS,
        search: search.counted(),
    };
    let last = search.lookups + 1 >= MAX_LOOKUPS;
    match found {
        Ok(Some(block_hash)) => reading(search.auto_propose, search.deploy_id, block_hash),
        Ok(None) => if last {
            FullDeployView::Finished(Err(ErrorView::DeployNotIncluded))
        } else {
            again
        },
        Err(e) => if last {
            FullDeployView::Finished(Err(ErrorView::BlockLookup(error_chars(e))))
        } else {
            again
        },
    }
}

/// What follows from reading the data.
pub open spec fn after_data(
    block_hash: Seq<char>,
    deploy_id: Seq<char>,
    data: Result<Seq<Seq<char>>, ErrorView>,
) -> FullDeployView {
    match data {
        Ok(data) => FullDeployView::Finished(Ok((block_hash, deploy_id, data))),
        Err(e) => FullDeployView::Finished(Err(e)),
    }
}

/// What a search comes to, given the answers to one question after the other; none where it does
/// not come to an end with the answers given.
pub open spec fn search_run(
    search: SearchView,
    answers: Seq<Result<Option<Seq<char>>, ErrorView>>,
) -> Option<FullDeployView>
    decreases answers.len(),
{
    if answers.len() == 0 {
        None
    } else {
        match after_lookup(search, answers.first()) {
            FullDeployView::WaitAndLookUp { search: next, .. } => search_run(
                next,
                answers.drop_first(),
            ),
            step => Some(step),
        }
    }
}

/// Whether an answer names a block.
pub open spec fn names_a_block(answer: Result<Option<Seq<char>>, ErrorView>) -> bool {
    answer matches Ok(Some(_))
}

/// Whether an answer is the first that names a block.
pub open spec fn is_first_block(
    answers: Seq<Result<Option<Seq<char>>, ErrorView>>,
    k: int,
) -> bool {
    &&& 0 <= k < answers.len()
    &&& names_a_block(answers[k])
    &&& forall|j: int| 0 <= j < k ==> !names_a_block(#[trigger] answers[j])
}

/// What a full cycle comes to, given what came of the deploy and of the proposal, the answers to
/// one question for the block after the other, and what comes of each way to read the data; none
/// where it does not come to an end with the answers given.
pub open spec fn cycle_run(
    deployed: Result<Seq<char>, ErrorView>,
    proposed: Result<Seq<char>, ErrorView>,
    answers: Seq<Result<Option<Seq<char>>, ErrorView>>,
    data: spec_fn(FullDeployView) -> Result<Seq<Seq<char>>, ErrorView>,
) -> Option<Result<(Seq<char>, Seq<char>, Seq<Seq<char>>), ErrorView>> {
    match after_deploy(deployed) {
        FullDeployView::Propose { deploy_id } => match after_propose(deploy_id, proposed) {
            FullDeployView::LookUp(search) => match search_run(search, answers) {
                Some(step) => finished(step, data),
                None => None,
            },
            step => finished(step, data),
        },
        step => finished(step, data),
    }
}

/// What a cycle comes to once it neither proposes nor searches any more.
pub open spec fn finished(
    step: FullDeployView,
    data: spec_fn(FullDeployView) -> Result<Seq<Seq<char>>, ErrorView>,
) -> Option<Result<(Seq<char>, Seq<char>, Seq<Seq<char>>), ErrorView>> {
    let last = match step {
        FullDeployView::PollData { block_hash, deploy_id, .. } => after_data(
            block_hash,
            deploy_id,
            data(step),
        ),
        FullDeployView::ReadData { block_hash, deploy_id } => after_data(
            block_hash,
            deploy_id,
            data(step),
        ),
        step => step,
    };
    match last {
        FullDeployView::Finished(res) => Some(res),
        _ => None,
    }
}

/// Says whether a refused proposal means that the node proposes blocks by itself.
fn is_auto_propose(said: &str) -> (res: bool)
    ensures
        res == speaks_of_auto_propose(said@),
{
    contains(said, "NoNewDeploys") || contains(said, "NotEnoughNewBlocks") || contains(
        said,
        "another propose",
    )
}

/// Decides how the data is read once the block is known.
fn read_next(auto_propose: bool, deploy_id: String, block_hash: String) -> (res: FullDeployStep)
    ensures
        res@ == reading(auto_propose, deploy_id@, block_hash@),
{
    if auto_propose {
        FullDeployStep::PollData {
            block_hash,
            deploy_id,
            max_attempts: DATA_ATTEMPTS,
            poll_interval_secs: DATA_INTERVAL_SECS,
        }
    } else {
        FullDeployStep::ReadData { block_hash, deploy_id }
    }
}

impl<'a> F1r3flyApi<'a> {
    /// Begins a full cycle with what came of the deploy.
    pub fn full_deploy(&self, deployed: Result<String, ApiError>) -> (res: FullDeployStep)
        ensures
            res@ == after_deploy(outcome(deployed)),
            deployed matches Ok(id) ==> (res matches FullDeployStep::Propose { deploy_id }
                && deploy_id@ == id@),
            deployed matches Err(e) ==> (res matches FullDeployStep::Finished(Err(same)) && same
                == e),
    {
        match deployed {
            Ok(deploy_id) => FullDeployStep::Propose { deploy_id },
            Err(e) => FullDeployStep::Finished(Err(e)),
        }
    }
}

/// Decides what to do after the proposal.
pub fn take_propose(deploy_id: String, proposed: Result<String, ApiError>) -> (res: FullDeployStep)
    ensures
        res@ == after_propose(deploy_id@, outcome(proposed)),
        res matches FullDeployStep::LookUp(search) ==> search@.wf(),
        res matches FullDeployStep::LookUp(search) ==> search.deploy_id@ == deploy_id@
            && search.lookups == 0 && search.auto_propose == (proposed is Err),
        proposed matches Ok(hash) ==> (hash@.len() > 0 ==> (res matches FullDeployStep::ReadData {
            block_hash,
            deploy_id: id,
        } && block_hash@ == hash@ && id@ == deploy_id@)),
        proposed matches Ok(hash) ==> (hash@.len() == 0 ==> res is LookUp),
        proposed matches Err(e) ==> {
            let said = error_chars(e@);
            if occurs(said, "NoNewDeploys"@) || occurs(said, "NotEnoughNewBlocks"@) || occurs(
                said,
                "another propose"@,
            ) {
                res is LookUp
            } else {
                res matches FullDeployStep::Finished(Err(same)) && same == e
            }
        },
{
    match proposed {
        Ok(block_hash) => if block_hash.as_str().is_empty() {
            FullDeployStep::LookUp(BlockSearch { deploy_id, auto_propose: false, lookups: 0 })
        } else {
            read_next(false, deploy_id, block_hash)
        },
        Err(e) => {
            let said = e.message();
            if is_auto_propose(said.as_str()) {
                FullDeployStep::LookUp(BlockSearch { deploy_id, auto_propose: true, lookups: 0 })
            } else {
                FullDeployStep::Finished(Err(e))
            }
        },
    }
}

/// Decides what to do after a question for the block of the deploy.
pub fn take_lookup(search: BlockSearch, found: Result<Option<String>, ApiError>) -> (res:
    FullDeployStep)
    requires
        search@.wf(),
    ensures
        res@ == after_lookup(search@, outcome(found)),
        res matches FullDeployStep::WaitAndLookUp { search: next, .. } ==> next@.wf()
            && next.lookups > search.lookups,
        res matches FullDeployStep::WaitAndLookUp { seconds, search: next } ==> {
            &&& seconds == 3
            &&& next.deploy_id@ == search.deploy_id@
            &&& next.auto_propose == search.auto_propose
            &&& next.lookups == search.lookups + 1
        },
        found matches Ok(Some(hash)) ==> {
            &&& !search.auto_propose ==> (res matches FullDeployStep::ReadData {
                block_hash,
                deploy_id,
            } && block_hash@ == hash@ && deploy_id@ == search.deploy_id@)
            &&& search.auto_propose ==> (res matches FullDeployStep::PollData {
                block_hash,
                deploy_id,
                max_attempts,
                poll_interval_secs,
            } && block_hash@ == hash@ && deploy_id@ == search.deploy_id@ && max_attempts == 60
                && poll_interval_secs == 2)
        },
        !(found matches Ok(Some(_))) ==> (res is WaitAndLookUp <==> search.lookups < 19),
        found matches Ok(None) ==> (search.lookups == 19 ==> res matches FullDeployStep::Finished(
            Err(ApiError::DeployNotIncluded),
        )),
        found matches Err(e) ==> (search.lookups == 19 ==> (res matches FullDeployStep::Finished(
            Err(ApiError::BlockLookup(said)),
        ) && said@ == error_chars(e@))),
{
    let lookups: u32 = search.lookups + 1;
    match found {
        Ok(Some(block_hash)) => read_next(search.auto_propose, search.deploy_id, block_hash),
        Ok(None) => if lookups < MAX_LOOKUPS {
            FullDeployStep::WaitAndLookUp {
                seconds: LOOKUP_PAUSE_SECS,
                search: BlockSearch {
                    deploy_id: search.deploy_id,
                    auto_propose: search.auto_propose,
                    lookups,
                },
            }
        } else {
            FullDeployStep::Finished(Err(ApiError::DeployNotIncluded))
        },
        Err(e) => if lookups < MAX_LOOKUPS {
            FullDeployStep::WaitAndLookUp {
                seconds: LOOKUP_PAUSE_SECS,
                search: BlockSearch {
                    deploy_id: search.deploy_id,
                    auto_propose: search.auto_propose,
                    lookups,
                },
            }
        } else {
            FullDeployStep::Finished(Err(ApiError::BlockLookup(e.message())))
        },
    }
}

/// Finishes with the data on the channel of the deploy.
pub fn take_data(
    block_hash: String,
    deploy_id: String,
    data: Result<Vec<String>, ApiError>,
) -> (res: FullDeployStep)
    ensures
        res@ == after_data(block_hash@, deploy_id@, outcome(data)),
        data matches Ok(texts) ==> (res matches FullDeployStep::Finished(Ok(all)) && all.0@
            == block_hash@ && all.1@ == deploy_id@ && all.2@ == texts@),
        data matches Err(e) ==> (res matches FullDeployStep::Finished(Err(same)) && same == e),
{
    match data {
        Ok(data) => FullDeployStep::Finished(Ok((block_hash, deploy_id, data))),
        Err(e) => FullDeployStep::Finished(Err(e)),
    }
}

/// A search comes to an end after as many questions as are allowed at most: at the first answer
/// that names a block, or with an error at the last one.
pub proof fn lemma_search_ends(
    search: SearchView,
    answers: Seq<Result<Option<Seq<char>>, ErrorView>>,
    k: int,
)
    requires
        search.wf(),
        0 <= k < answers.len(),
        forall|j: int| 0 <= j < k ==> !names_a_block(#[trigger] answers[j]),
    ensures
        k < MAX_LOOKUPS - search.lookups && names_a_block(answers[k]) ==> search_run(
            search,
            answers,
        ) == Some(reading(search.auto_propose, search.deploy_id, answers[k]->Ok_0->0)),
        k == MAX_LOOKUPS - search.lookups - 1 && !names_a_block(answers[k]) ==> search_run(
            search,
            answers,
        ) == Some(
            FullDeployView::Finished(
                Err(
                    match answers[k] {
                        Ok(_) => ErrorView::DeployNotIncluded,
                        Err(e) => ErrorView::BlockLookup(error_chars(e)),
                    },
                ),
            ),
        ),
    decreases answers.len(),
{
    if k > 0 && search.lookups + 1 < MAX_LOOKUPS {
        let rest = answers.drop_first();
        assert(!names_a_block(answers[0]));
        assert(rest[k - 1] == answers[k]);
        assert forall|j: int| 0 <= j < k - 1 implies !names_a_block(#[trigger] rest[j]) by {
            assert(rest[j] == answers[j + 1]);
        }
        lemma_search_ends(search.counted(), rest, k - 1);
        assert(after_lookup(search, answers.first()) == FullDeployView::WaitAndLookUp {
            seconds: LOOKUP_PAUSE_SECS,
            search: search.counted(),
        });
    } else {
        assert(answers.first() == answers[0]);
    }
}

/// The data is read from the block alone exactly where the node took the proposal, and over
/// recent blocks exactly where it proposes blocks by itself.
pub proof fn lemma_reading_fits_the_node(
    deploy_id: Seq<char>,
    proposed: Result<Seq<char>, ErrorView>,
)
    ensures
        match after_propose(deploy_id, proposed) {
            FullDeployView::LookUp(search) => {
                &&& search == (SearchView {
                    deploy_id,
                    auto_propose: proposed is Err,
                    lookups: 0,
                })
                &&& proposed is Err ==> speaks_of_auto_propose(error_chars(proposed->Err_0))
                &&& proposed is Ok ==> proposed->Ok_0.len() == 0
            },
            FullDeployView::ReadData { block_hash, deploy_id: id } => proposed == Ok::<
                Seq<char>,
                ErrorView,
            >(block_hash) && block_hash.len() > 0 && id == deploy_id,
            FullDeployView::Finished(res) => proposed is Err && res == Err::<
                (Seq<char>, Seq<char>, Seq<Seq<char>>),
                ErrorView,
            >(proposed->Err_0),
            _ => false,
        },
{
}

/// What a search comes to is either an error or the reading of the block that the first answer
/// with one names, within the questions allowed.
proof fn lemma_search_result(
    search: SearchView,
    answers: Seq<Result<Option<Seq<char>>, ErrorView>>,
)
    requires
        search.wf(),
    ensures
        answers.len() >= MAX_LOOKUPS - search.lookups ==> search_run(search, answers) is Some,
        search_run(search, answers) matches Some(step) ==> {
            ||| step matches FullDeployView::Finished(Err(_))
            ||| exists|k: int| is_first_block(answers, k) && k < MAX_LOOKUPS - search.lookups
                && step == reading(search.auto_propose, search.deploy_id, answers[k]->Ok_0->0)
        },
    decreases answers.len(),
{
    if answers.len() > 0 {
        let rest = answers.drop_first();
        if names_a_block(answers[0]) {
            assert(is_first_block(answers, 0));
        } else if search.lookups + 1 < MAX_LOOKUPS {
            let next = search.counted();
            lemma_search_result(next, rest);
            assert(search_run(search, answers) == search_run(next, rest));
            if search_run(next, rest) is Some {
                let step = search_run(next, rest)->0;
                if !(step matches FullDeployView::Finished(Err(_))) {
                    let k = choose|k: int|
                        is_first_block(rest, k) && k < MAX_LOOKUPS - next.lookups && step
                            == reading(next.auto_propose, next.deploy_id, rest[k]->Ok_0->0);
                    assert(answers[k + 1] == rest[k]);
                    assert forall|j: int| 0 <= j < k + 1 implies !names_a_block(
                        #[trigger] answers[j],
                    ) by {
                        if j > 0 {
                            assert(answers[j] == rest[j - 1]);
                        }
                    }
                    assert(is_first_block(answers, k + 1));
                }
            }
        }
    }
}

/// A full cycle comes to an end after as many questions for the block as are allowed at most.
pub proof fn lemma_cycle_ends(
    deployed: Result<Seq<char>, ErrorView>,
    proposed: Result<Seq<char>, ErrorView>,
    answers: Seq<Result<Option<Seq<char>>, ErrorView>>,
    data: spec_fn(FullDeployView) -> Result<Seq<Seq<char>>, ErrorView>,
)
    requires
        answers.len() >= MAX_LOOKUPS,
    ensures
        cycle_run(deployed, proposed, answers, data) is Some,
{
    match after_deploy(deployed) {
        FullDeployView::Propose { deploy_id } => match after_propose(deploy_id, proposed) {
            FullDeployView::LookUp(search) => {
                lemma_search_result(search, answers);
            },
            _ => {},
        },
        _ => {},
    }
}

/// A full cycle that succeeds gives the ID of the deploy; the hash of the block that was proposed
/// or, where the proposal gave none, that the first answer with one names; and the data that was
/// read for that deploy and that block. The data is read from the block alone unless the proposal
/// was refused because the node proposes blocks by itself.
pub proof fn lemma_cycle_result(
    deployed: Result<Seq<char>, ErrorView>,
    proposed: Result<Seq<char>, ErrorView>,
    answers: Seq<Result<Option<Seq<char>>, ErrorView>>,
    data: spec_fn(FullDeployView) -> Result<Seq<Seq<char>>, ErrorView>,
)
    ensures
        cycle_run(deployed, proposed, answers, data) matches Some(Ok((block_hash, deploy_id, read)))
            ==> {
            &&& deployed == Ok::<Seq<char>, ErrorView>(deploy_id)
            &&& data(reading(proposed is Err, deploy_id, block_hash)) == Ok::<
                Seq<Seq<char>>,
                ErrorView,
            >(read)
            &&& proposed is Err ==> speaks_of_auto_propose(error_chars(proposed->Err_0))
            &&& if proposed is Ok && proposed->Ok_0.len() > 0 {
                block_hash == proposed->Ok_0
            } else {
                exists|k: int|
                    #[trigger] is_first_block(answers, k) && k < MAX_LOOKUPS && answers[k] == Ok::<
                        Option<Seq<char>>,
                        ErrorView,
                    >(Some(block_hash))
            }
        },
{
    match after_deploy(deployed) {
        FullDeployView::Propose { deploy_id } => match after_propose(deploy_id, proposed) {
            FullDeployView::LookUp(search) => {
                lemma_search_result(search, answers);
                match search_run(search, answers) {
                    Some(step) => {
                        if !(step matches FullDeployView::Finished(Err(_))) {
                            let k = choose|k: int|
                                is_first_block(answers, k) && k < MAX_LOOKUPS - search.lookups
                                    && step == reading(
                                    search.auto_propose,
                                    search.deploy_id,
                                    answers[k]->Ok_0->0,
                                );
                            assert(is_first_block(answers, k));
                        }
                    },
                    None => {},
                }
            },
            _ => {},
        },
        _ => {},
    }
}

/// A cycle in which nothing goes wrong gives the hash of the proposed block, the deploy ID and
/// the data.
pub proof fn lemma_smooth_cycle(
    deploy_id: Seq<char>,
    block_hash: Seq<char>,
    data: Seq<Seq<char>>,
)
    requires
        block_hash.len() > 0,
    ensures
        after_deploy(Ok(deploy_id)) == (FullDeployView::Propose { deploy_id }),
        after_propose(deploy_id, Ok(block_hash)) == (FullDeployView::ReadData {
            block_hash,
            deploy_id,
        }),
        after_data(block_hash, deploy_id, Ok(data)) == FullDeployView::Finished(
            Ok((block_hash, deploy_id, data)),
        ),
{
}

/// A refused proposal leads to a search exactly where what is said of it holds one of the three
/// words of a node that proposes blocks by itself, whichever error it is and whatever stands
/// around the words; any other ends the cycle with that very error.
pub proof fn lemma_auto_propose_is_recognised_by_its_words(
    deploy_id: Seq<char>,
    e: ErrorView,
    before: Seq<char>,
    after: Seq<char>,
)
    ensures
        error_chars(e) == before + "NoNewDeploys"@ + after || error_chars(e) == before
            + "NotEnoughNewBlocks"@ + after || error_chars(e) == before + "another propose"@ + after
            ==> after_propose(deploy_id, Err(e)) == FullDeployView::LookUp(
            SearchView { deploy_id, auto_propose: true, lookups: 0 },
        ),
{
    let said = error_chars(e);
    lemma_occurs_between(before, "NoNewDeploys"@, after);
    lemma_occurs_between(before, "NotEnoughNewBlocks"@, after);
    lemma_occurs_between(before, "another propose"@, after);
}

/// What stands in a text occurs in it.
proof fn lemma_occurs_between(before: Seq<char>, part: Seq<char>, after: Seq<char>)
    ensures
        occurs(before + part + after, part),
{
    let all = before + part + after;
    let i = before.len() as int;
    assert(all.subrange(i, i + part.len()) =~= part);
}

/// A step of a search: it stops at a block, and otherwise asks again after three seconds, once
/// more than before and for the same deploy, until it has asked twenty times.
pub proof fn lemma_search_step(
    search: SearchView,
    hash: Seq<char>,
    e: ErrorView,
)
    requires
        search.lookups <= 19,
    ensures
        !search.auto_propose ==> after_lookup(search, Ok(Some(hash))) == (FullDeployView::ReadData {
            block_hash: hash,
            deploy_id: search.deploy_id,
        }),
        search.auto_propose ==> after_lookup(search, Ok(Some(hash))) == (FullDeployView::PollData {
            block_hash: hash,
            deploy_id: search.deploy_id,
            max_attempts: 60,
            poll_interval_secs: 2,
        }),
        search.lookups < 19 ==> after_lookup(search, Ok(None)) == after_lookup(search, Err(e))
            && after_lookup(search, Ok(None)) == (FullDeployView::WaitAndLookUp {
            seconds: 3,
            search: SearchView {
                deploy_id: search.deploy_id,
                auto_propose: search.auto_propose,
                lookups: (search.lookups + 1) as u32,
            },
        }),
        search.lookups == 19 ==> after_lookup(search, Ok(None)) == FullDeployView::Finished(
            Err(ErrorView::DeployNotIncluded),
        ),
        search.lookups == 19 ==> after_lookup(search, Err(e)) == FullDeployView::Finished(
            Err(ErrorView::BlockLookup(error_chars(e))),
        ),
{
}

} // verus!
