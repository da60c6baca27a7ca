//! What a node knows of a deploy.

use crate::api::{base_chars, F1r3flyApi};
use crate::error::{outcome, ApiError, ErrorView};
use crate::http::{failure_chars, failure_text, HttpReply};
use crate::json::{
    array_member, bool_member, is_compact, items_view, json_parsed, lemma_items_view, natural_member, parse,
    text_member, Json, JsonView,
};
use crate::text::{contains, occurs, same};
use vstd::prelude::*;

verus! {

/// Where a deploy stands, and what its block says of it.
#[derive(Debug, Clone)]
pub struct DeployInfo {
    pub deploy_id: String,
    pub block_hash: Option<String>,
    pub sender: Option<String>,
    pub seq_num: Option<u64>,
    pub sig: Option<String>,
    pub sig_algorithm: Option<String>,
    pub shard_id: Option<String>,
    pub version: Option<u64>,
    pub timestamp: Option<u64>,
    pub status: DeployStatus,
    /// Whether the execution of the deploy errored.
    pub errored: bool,
    /// What the system said against the deploy, such as that its funds do not suffice.
    pub system_deploy_error: Option<String>,
}

/// Where a deploy stands.
#[derive(Debug, Clone, PartialEq)]
pub enum DeployStatus {
    /// The deploy was submitted and is in no block yet.
    Pending,
    /// The deploy is included in a block.
    Included,
    /// The node does not know the deploy.
    NotFound,
    /// The node could not be asked, or refused to answer.
    Error(String),
}

/// The mathematical value of a [`DeployStatus`].
pub enum StatusView {
    Pending,
    Included,
    NotFound,
    Error(Seq<char>),
}

/// The mathematical value of a [`DeployInfo`].
pub struct InfoView {
    pub deploy_id: Seq<char>,
    pub block_hash: Option<Seq<char>>,
    pub sender: Option<Seq<char>>,
    pub seq_num: Option<u64>,
    pub sig: Option<Seq<char>>,
    pub sig_algorithm: Option<Seq<char>>,
    pub shard_id: Option<Seq<char>>,
    pub version: Option<u64>,
    pub timestamp: Option<u64>,
    pub status: StatusView,
    pub errored: bool,
    pub system_deploy_error: Option<Seq<char>>,
}

impl View for DeployStatus {
    type V = StatusView;

    open spec fn view(&self) -> StatusView {
        match *self {
            DeployStatus::Pending => StatusView::Pending,
            DeployStatus::Included => StatusView::Included,
            DeployStatus::NotFound => StatusView::NotFound,
            DeployStatus::Error(said) => StatusView::Error(said@),
        }
    }
}

impl DeepView for DeployInfo {
    type V = InfoView;

    open spec fn deep_view(&self) -> InfoView {
        InfoView {
            deploy_id: self.deploy_id@,
            block_hash: self.block_hash.deep_view(),
            sender: self.sender.deep_view(),
            seq_num: self.seq_num,
            sig: self.sig.deep_view(),
            sig_algorithm: self.sig_algorithm.deep_view(),
            shard_id: self.shard_id.deep_view(),
            version: self.version,
            timestamp: self.timestamp,
            status: self.status@,
            errored: self.errored,
            system_deploy_error: self.system_deploy_error.deep_view(),
        }
    }
}

/// What came of a request for a block.
#[derive(Debug)]
pub enum BlockReading {
    /// There was no request, or the reply to it was no success.
    NotHad,
    /// The body of the reply could not be read or is not JSON.
    NotJson,
    /// The block.
    Had(Json),
}

/// The mathematical value of a [`BlockReading`].
pub enum BlockView {
    NotHad,
    NotJson,
    Had(JsonView),
}

impl View for BlockReading {
    type V = BlockView;

    open spec fn view(&self) -> BlockView {
        match *self {
            BlockReading::NotHad => BlockView::NotHad,
            BlockReading::NotJson => BlockView::NotJson,
            BlockReading::Had(json) => BlockView::Had(json@),
        }
    }
}

/// Whether the text of a failure says that the deploy is in no block yet.
pub open spec fn says_no_block(body: Seq<char>) -> bool {
    occurs(body, "Couldn't find block containing deploy with id:"@)
}

/// What an execution came to: whether it errored, and what the system said against it.
pub type Execution = (bool, Option<String>);

/// The first of a block's deploys that carries a signature.
pub open spec fn deploy_signed(deploys: Seq<JsonView>, sig: Seq<char>) -> Option<JsonView>
    decreases deploys.len(),
{
    if deploys.len() == 0 {
        None
    } else if text_member(deploys.first(), "sig"@) == Some(sig) {
        Some(deploys.first())
    } else {
        deploy_signed(deploys.drop_first(), sig)
    }
}

/// What a block says of the execution of a deploy. A deploy that the block does not list did not
/// fail as far as the block goes, and an empty system error is none.
pub open spec fn execution_in(block: JsonView, deploy_id: Seq<char>) -> (bool, Option<Seq<char>>) {
    match array_member(block, "deploys"@) {
        Some(deploys) => match deploy_signed(deploys, deploy_id) {
            Some(details) => (
                bool_member(details, "errored"@) == Some(true),
                match text_member(details, "systemDeployError"@) {
                    Some(said) => if said.len() > 0 {
                        Some(said)
                    } else {
                        None
                    },
                    None => None,
                },
            ),
            None => (false, None),
        },
        None => (false, None),
    }
}

/// The information on a deploy of which only its standing is known.
pub open spec fn standing(deploy_id: Seq<char>, status: StatusView) -> InfoView {
    InfoView {
        deploy_id,
        block_hash: None,
        sender: None,
        seq_num: None,
        sig: None,
        sig_algorithm: None,
        shard_id: None,
        version: None,
        timestamp: None,
        status,
        errored: false,
        system_deploy_error: None,
    }
}

/// The information on a deploy that the node has a record of. The deploy is included where the
/// record names its block, and is pending where it names none.
pub open spec fn recorded(
    deploy_id: Seq<char>,
    record: JsonView,
    execution: (bool, Option<Seq<char>>),
) -> InfoView {
    InfoView {
        deploy_id,
        block_hash: text_member(record, "blockHash"@),
        sender: text_member(record, "sender"@),
        seq_num: natural_member(record, "seqNum"@),
        sig: text_member(record, "sig"@),
        sig_algorithm: text_member(record, "sigAlgorithm"@),
        shard_id: text_member(record, "shardId"@),
        version: natural_member(record, "version"@),
        timestamp: natural_member(record, "timestamp"@),
        status: if text_member(record, "blockHash"@) is Some {
            StatusView::Included
        } else {
            StatusView::Pending
        },
        errored: execution.0,
        system_deploy_error: execution.1,
    }
}

/// The JSON document that a body holds, if the body could be read and is one.
pub open spec fn document(body: Option<Vec<u8>>) -> Option<JsonView> {
    match body {
        Some(bytes) => json_parsed(bytes@),
        None => None,
    }
}

/// The block of a deploy, by what a node replied to a lookup of the deploy.
pub open spec fn block_hash_by(lookup: HttpReply) -> Result<Option<Seq<char>>, ErrorView> {
    match lookup {
        HttpReply::NetworkError(said) => Err(ErrorView::Network(said@)),
        HttpReply::NotFound => Ok(None),
        HttpReply::Failure { status, body } => if says_no_block(failure_chars(body)) {
            Ok(None)
        } else {
            Err(ErrorView::Http { status: status@, body: failure_chars(body) })
        },
        HttpReply::Success(body) => match document(body) {
            Some(record) => Ok(text_member(record, "blockHash"@)),
            None => Err(ErrorView::Decode),
        },
    }
}

/// What came of a request for a block, by the reply to it.
pub open spec fn block_by(block: Option<HttpReply>) -> BlockView {
    match block {
        Some(HttpReply::Success(body)) => match document(body) {
            Some(json) => BlockView::Had(json),
            None => BlockView::NotJson,
        },
        _ => BlockView::NotHad,
    }
}

/// The information on a deploy that the node has a record of. The block matters only where the
/// record names one; where the block was not had, nothing is held against the deploy.
pub open spec fn info_in(
    deploy_id: Seq<char>,
    record: JsonView,
    block: BlockView,
) -> Result<InfoView, ErrorView> {
    if text_member(record, "blockHash"@) is Some {
        match block {
            BlockView::NotHad => Ok(recorded(deploy_id, record, (false, None))),
            BlockView::NotJson => Err(ErrorView::Decode),
            BlockView::Had(json) => Ok(recorded(deploy_id, record, execution_in(json, deploy_id))),
        }
    } else {
        Ok(recorded(deploy_id, record, (false, None)))
    }
}

/// The information on a deploy, by what a node replied to a lookup of the deploy and, where the
/// record names a block, to a request for the block.
pub open spec fn info_by(
    deploy_id: Seq<char>,
    lookup: HttpReply,
    block: Option<HttpReply>,
) -> Result<InfoView, ErrorView> {
    match lookup {
        HttpReply::NetworkError(said) => Ok(
            standing(deploy_id, StatusView::Error("Network error: "@ + said@)),
        ),
        HttpReply::NotFound => Ok(standing(deploy_id, StatusView::NotFound)),
        HttpReply::Failure { status: _, body } => if says_no_block(failure_chars(body)) {
            Ok(standing(deploy_id, StatusView::Pending))
        } else {
            Ok(standing(deploy_id, StatusView::Error("HTTP error: "@ + failure_chars(body))))
        },
        HttpReply::Success(body) => match document(body) {
            Some(record) => info_in(deploy_id, record, block_by(block)),
            None => Err(ErrorView::Decode),
        },
    }
}

/// Whether the text of a failure says that the deploy is in no block yet.
fn is_in_no_block(body: &str) -> (res: bool)
    ensures
        res == says_no_block(body@),
{
    contains(body, "Couldn't find block containing deploy with id:")
}

/// Reads the JSON document of a body.
pub(crate) fn read_document(body: &Option<Vec<u8>>) -> (res: Option<Json>)
    ensures
        match document(*body) {
            Some(view) => res is Some && res->0@ == view,
            None => res is None,
        },
        res is Some ==> is_compact(res->0@),
        *body matches Some(bytes) ==> match json_parsed(bytes@) {
            Some(view) => res is Some && res->0@ == view,
            None => res is None,
        },
        *body is None ==> res is None,
{
    match body {
        Some(bytes) => parse(bytes.as_slice()),
        None => None,
    }
}

/// The information on a deploy of which only its standing is known.
pub fn standing_info(deploy_id: &str, status: DeployStatus) -> (res: DeployInfo)
    ensures
        res.deep_view() == standing(deploy_id@, status@),
        res.deploy_id@ == deploy_id@,
        res.status == status,
        res.block_hash is None,
        res.sender is None,
        res.seq_num is None,
        res.sig is None,
        res.sig_algorithm is None,
        res.shard_id is None,
        res.version is None,
        res.timestamp is None,
        !res.errored,
        res.system_deploy_error is None,
{
    DeployInfo {
        deploy_id: deploy_id.to_string(),
        block_hash: None,
        sender: None,
        seq_num: None,
        sig: None,
        sig_algorithm: None,
        shard_id: None,
        version: None,
        timestamp: None,
        status,
        errored: false,
        system_deploy_error: None,
    }
}

/// The information on a deploy that the node has a record of.
pub fn recorded_info(deploy_id: &str, record: &Json, execution: Execution) -> (res: DeployInfo)
    ensures
        res.deep_view() == recorded(deploy_id@, record@, (execution.0, execution.1.deep_view())),
        shows_record(res, deploy_id@, record@),
        res.deploy_id@ == deploy_id@,
        res.block_hash.deep_view() == text_member(record@, "blockHash"@),
        res.sender.deep_view() == text_member(record@, "sender"@),
        res.seq_num == natural_member(record@, "seqNum"@),
        res.sig.deep_view() == text_member(record@, "sig"@),
        res.sig_algorithm.deep_view() == text_member(record@, "sigAlgorithm"@),
        res.shard_id.deep_view() == text_member(record@, "shardId"@),
        res.version == natural_member(record@, "version"@),
        res.timestamp == natural_member(record@, "timestamp"@),
        res.status is Included <==> res.block_hash is Some,
        res.status is Pending <==> res.block_hash is None,
        res.errored == execution.0,
        res.system_deploy_error == execution.1,
{
    let block_hash = record.get_text("blockHash");
    let status = if block_hash.is_some() {
        DeployStatus::Included
    } else {
        DeployStatus::Pending
    };
    DeployInfo {
        deploy_id: deploy_id.to_string(),
        block_hash,
        sender: record.get_text("sender"),
        seq_num: record.get_natural("seqNum"),
        sig: record.get_text("sig"),
        sig_algorithm: record.get_text("sigAlgorithm"),
        shard_id: record.get_text("shardId"),
        version: record.get_natural("version"),
        timestamp: record.get_natural("timestamp"),
        status,
        errored: execution.0,
        system_deploy_error: execution.1,
    }
}

/// Finds the first of a block's deploys that carries a signature.
fn find_deploy<'a>(deploys: &'a Vec<Json>, sig: &str) -> (res: Option<&'a Json>)
    ensures
        match deploy_signed(items_view(deploys@, deploys@.len()), sig@) {
            Some(view) => res is Some && res->0@ == view,
            None => res is None,
        },
{
    let ghost views = items_view(deploys@, deploys@.len());
    proof {
        lemma_items_view(deploys@, deploys@.len());
        assert(views.skip(0) =~= views);
    }
    for i in 0..deploys.len()
        invariant
            views == items_view(deploys@, deploys@.len()),
            views.len() == deploys@.len(),
            forall|j: int| 0 <= j < views.len() ==> #[trigger] views[j] == deploys@[j]@,
            deploy_signed(views, sig@) == deploy_signed(views.skip(i as int), sig@),
    {
        let ghost rest = views.skip(i as int);
        assert(rest.first() == views[i as int]);
        assert(rest.drop_first() =~= views.skip(i + 1));
        match deploys[i].get_text("sig") {
            Some(text) => {
                if same(text.as_str(), sig) {
                    return Some(&deploys[i]);
                }
            },
            None => {},
        }
    }
    None
}

/// Reads what a block says of the execution of a deploy.
pub fn execution_of(block: &Json, deploy_id: &str) -> (res: Execution)
    ensures
        (res.0, res.1.deep_view()) == execution_in(block@, deploy_id@),
        array_member(block@, "deploys"@) matches Some(deploys) ==> forall|i: int| #[trigger]
            is_entry_of(deploys, deploy_id@, i) ==> shows_entry(
                res.0,
                res.1.deep_view(),
                deploys[i],
            ),
        !has_entry(block@, deploy_id@) ==> !res.0 && res.1 is None,
{
    proof {
        lemma_execution_shows_the_entry(block@, deploy_id@);
    }
    let deploys = match block.get_array("deploys") {
        Some(deploys) => deploys,
        None => {
            return (false, None);
        },
    };
    match find_deploy(deploys, deploy_id) {
        Some(details) => {
            let errored = match details.get_bool("errored") {
                Some(b) => b,
                None => false,
            };
            let said = match details.get_text("systemDeployError") {
                Some(said) => if said.as_str().is_empty() {
                    None
                } else {
                    Some(said)
                },
                None => None,
            };
            (errored, said)
        },
        None => (false, None),
    }
}

/// Reads what came of a request for a block.
fn read_block(block: &Option<HttpReply>) -> (res: BlockReading)
    ensures
        res@ == block_by(*block),
{
    match block {
        Some(HttpReply::Success(body)) => match read_document(body) {
            Some(json) => BlockReading::Had(json),
            None => BlockReading::NotJson,
        },
        _ => BlockReading::NotHad,
    }
}

/// Puts together a node's record of a deploy and what came of the request for its block.
pub fn info_from_record(deploy_id: &str, record: &Json, block: &BlockReading) -> (res: Result<
    DeployInfo,
    ApiError,
>)
    ensures
        outcome(res) == info_in(deploy_id@, record@, block@),
        res matches Ok(info) ==> shows_record(info, deploy_id@, record@),
        res matches Err(e) ==> e is Decode,
        res is Err <==> text_member(record@, "blockHash"@) is Some && *block is NotJson,
        text_member(record@, "blockHash"@) is None || *block is NotHad ==> (res matches Ok(info)
            && !info.errored && info.system_deploy_error is None),
        *block matches BlockReading::Had(json) ==> (text_member(record@, "blockHash"@) is Some
            ==> shows_execution(res->Ok_0, json@, deploy_id@)),
{
    proof {
        match block {
            BlockReading::Had(json) => {
                lemma_execution_shows_the_entry(json@, deploy_id@);
            },
            _ => {},
        }
    }
    let mut execution: Execution = (false, None);
    if record.get_text("blockHash").is_some() {
        match block {
            BlockReading::NotHad => {},
            BlockReading::NotJson => {
                return Err(ApiError::Decode);
            },
            BlockReading::Had(json) => {
                execution = execution_of(json, deploy_id);
            },
        }
    }
    Ok(recorded_info(deploy_id, record, execution))
}

impl<'a> F1r3flyApi<'a> {
    /// Reads the block of a deploy from what the node replied to a lookup of the deploy.
    pub fn get_deploy_block_hash(&self, lookup: &HttpReply) -> (res: Result<Option<String>, ApiError>)
        ensures
            outcome(res) == block_hash_by(*lookup),
            *lookup matches HttpReply::NetworkError(said) ==> (res matches Err(ApiError::Network(t))
                && t@ == said@),
            *lookup is NotFound ==> res matches Ok(None),
            *lookup matches HttpReply::Failure { status, body: Some(text) } ==> {
                if occurs(text@, "Couldn't find block containing deploy with id:"@) {
                    res matches Ok(None)
                } else {
                    res matches Err(ApiError::Http { status: s, body: t }) && s@ == status@ && t@
                        == text@
                }
            },
            *lookup matches HttpReply::Failure { status, body: None } ==> (res matches Err(
                ApiError::Http { status: s, body: t },
            ) && s@ == status@ && t@ == "Unable to read response body"@),
            *lookup matches HttpReply::Success(body) ==> match document(body) {
                Some(record) => res is Ok && res->Ok_0.deep_view() == text_member(
                    record,
                    "blockHash"@,
                ),
                None => res matches Err(ApiError::Decode),
            },
    {
        proof {
            lemma_unreadable_body_says_nothing_of_blocks();
        }
        match lookup {
            HttpReply::NetworkError(said) => Err(ApiError::Network(said.clone())),
            HttpReply::NotFound => Ok(None),
            HttpReply::Failure { status, body } => {
                let text = failure_text(body);
                if is_in_no_block(text.as_str()) {
                    Ok(None)
                } else {
                    Err(ApiError::Http { status: *status, body: text })
                }
            },
            HttpReply::Success(body) => match read_document(body) {
                Some(record) => Ok(record.get_text("blockHash")),
                None => Err(ApiError::Decode),
            },
        }
    }

    /// Where to ask for the block of a deploy, given what the node replied to a lookup of the
    /// deploy. Nothing is asked for where the lookup names no block.
    pub fn block_request(&self, http_port: u16, lookup: &HttpReply) -> (res: Option<String>)
        ensures
            match block_hash_by(*lookup) {
                Ok(Some(hash)) => res is Some && res->0@ == base_chars(self@.node_host, http_port)
                    + "api/block/"@ + hash,
                _ => res is None,
            },
    {
        match self.get_deploy_block_hash(lookup) {
            Ok(Some(hash)) => Some(self.block_url(http_port, hash.as_str())),
            _ => None,
        }
    }

    /// Puts together what the node replied on a deploy: to a lookup of the deploy and, where its
    /// record names a block, to a request for that block.
    pub fn get_deploy_info(
        &self,
        deploy_id: &str,
        lookup: &HttpReply,
        block: &Option<HttpReply>,
    ) -> (res: Result<DeployInfo, ApiError>)
        ensures
            outcome(res) == info_by(deploy_id@, *lookup, *block),
            res matches Ok(info) ==> info.deploy_id@ == deploy_id@,
            res matches Err(e) ==> e is Decode,
            !(*lookup is Success) ==> res is Ok && says_only_where_it_stands(res->Ok_0),
            *lookup matches HttpReply::NetworkError(said) ==> (res->Ok_0.status
                matches DeployStatus::Error(t) && t@ == "Network error: "@ + said@),
            *lookup is NotFound ==> res->Ok_0.status is NotFound,
            *lookup matches HttpReply::Failure { status: _, body: Some(text) } ==> {
                if occurs(text@, "Couldn't find block containing deploy with id:"@) {
                    res->Ok_0.status is Pending
                } else {
                    res->Ok_0.status matches DeployStatus::Error(t) && t@ == "HTTP error: "@ + text@
                }
            },
            *lookup matches HttpReply::Failure { status: _, body: None } ==> (res->Ok_0.status
                matches DeployStatus::Error(t) && t@ == "HTTP error: "@
                + "Unable to read response body"@),
            *lookup matches HttpReply::Success(body) ==> (res matches Ok(info) ==> document(
                body,
            ) is Some && shows_record(info, deploy_id@, document(body)->0)),
            *lookup matches HttpReply::Success(body) ==> (document(body) is None ==> res is Err),
            *lookup matches HttpReply::Success(body) ==> match *block {
                Some(HttpReply::Success(block_body)) => res matches Ok(info) ==> (text_member(
                    document(body)->0,
                    "blockHash"@,
                ) is Some ==> document(block_body) is Some && shows_execution(
                    info,
                    document(block_body)->0,
                    deploy_id@,
                )),
                _ => res matches Ok(info) ==> !info.errored && info.system_deploy_error is None,
            },
    {
        proof {
            lemma_unreadable_body_says_nothing_of_blocks();
        }
        match lookup {
            HttpReply::NetworkError(said) => {
                let mut text = "Network error: ".to_string();
                text.append(said.as_str());
                Ok(standing_info(deploy_id, DeployStatus::Error(text)))
            },
            HttpReply::NotFound => Ok(standing_info(deploy_id, DeployStatus::NotFound)),
            HttpReply::Failure { status: _, body } => {
                let body_text = failure_text(body);
                if is_in_no_block(body_text.as_str()) {
                    Ok(standing_info(deploy_id, DeployStatus::Pending))
                } else {
                    let mut text = "HTTP error: ".to_string();
                    text.append(body_text.as_str());
                    Ok(standing_info(deploy_id, DeployStatus::Error(text)))
                }
            },
            HttpReply::Success(body) => {
                let record = match read_document(body) {
                    Some(record) => record,
                    None => {
                        return Err(ApiError::Decode);
                    },
                };
                info_from_record(deploy_id, &record, &read_block(block))
            },
        }
    }
}

/// Where a deploy has a record, its information names the block that the lookup of its block
/// names. Where it has none, its information names no block.
pub proof fn lemma_info_names_the_block(
    deploy_id: Seq<char>,
    lookup: HttpReply,
    block: Option<HttpReply>,
)
    requires
        info_by(deploy_id, lookup, block) is Ok,
    ensures
        ({
            let info = info_by(deploy_id, lookup, block)->Ok_0;
            info.block_hash == (match block_hash_by(lookup) {
                Ok(hash) => hash,
                Err(_) => None,
            })
        }),
{
}

/// A deploy is held to be included exactly where its information names a block, and that is
/// exactly where the lookup of its block names one.
pub proof fn lemma_included_means_in_a_block(
    deploy_id: Seq<char>,
    lookup: HttpReply,
    block: Option<HttpReply>,
)
    requires
        info_by(deploy_id, lookup, block) is Ok,
    ensures
        ({
            let info = info_by(deploy_id, lookup, block)->Ok_0;
            &&& info.status is Included <==> info.block_hash is Some
            &&& info.status is Included <==> block_hash_by(lookup) matches Ok(Some(_))
        }),
{
}

/// A deploy is held to be pending exactly where the node has a record of it that names no block,
/// or says that no block contains it.
pub proof fn lemma_pending_means_in_no_block(
    deploy_id: Seq<char>,
    lookup: HttpReply,
    block: Option<HttpReply>,
)
    requires
        info_by(deploy_id, lookup, block) is Ok,
    ensures
        info_by(deploy_id, lookup, block)->Ok_0.status is Pending <==> !(lookup is NotFound)
            && block_hash_by(lookup) matches Ok(None),
{
}

/// The information is on the deploy that was asked about, whatever the node replied. Where the
/// deploy is not included, no block and no failure is known of it. Where the node has no record
/// of it, the information says nothing but where the deploy stands.
pub proof fn lemma_info_of_a_deploy_not_included(
    deploy_id: Seq<char>,
    lookup: HttpReply,
    block: Option<HttpReply>,
)
    requires
        info_by(deploy_id, lookup, block) is Ok,
    ensures
        ({
            let info = info_by(deploy_id, lookup, block)->Ok_0;
            &&& info.deploy_id == deploy_id
            &&& !(info.status is Included) ==> {
                &&& info.block_hash is None
                &&& !info.errored
                &&& info.system_deploy_error is None
            }
            &&& !(lookup is Success) ==> info == standing(deploy_id, info.status)
        }),
{
}

/// The reply to a request for the block is of no account where the lookup names no block.
pub proof fn lemma_block_matters_only_where_it_is_named(
    deploy_id: Seq<char>,
    lookup: HttpReply,
    block: Option<HttpReply>,
)
    requires
        !(block_hash_by(lookup) matches Ok(Some(_))),
    ensures
        info_by(deploy_id, lookup, block) == info_by(deploy_id, lookup, None),
{
}

/// The information fails only where a body that a success came with cannot be read as JSON.
pub proof fn lemma_info_fails_only_to_decode(
    deploy_id: Seq<char>,
    lookup: HttpReply,
    block: Option<HttpReply>,
)
    ensures
        match info_by(deploy_id, lookup, block) {
            Err(e) => {
                &&& e is Decode
                &&& (lookup matches HttpReply::Success(body) && document(body) is None) || (
                block matches Some(HttpReply::Success(body)) && document(body) is None)
            },
            Ok(_) => true,
        },
{
}

/// An execution is known to have errored, or the system to have said something against it, only
/// where the block lists a deploy with the deploy's signature.
pub proof fn lemma_failure_is_of_the_signed_deploy(deploys: Seq<JsonView>, sig: Seq<char>)
    ensures
        match deploy_signed(deploys, sig) {
            Some(details) => deploys.contains(details) && text_member(details, "sig"@) == Some(sig),
            None => forall|i: int|
                0 <= i < deploys.len() ==> text_member(#[trigger] deploys[i], "sig"@) != Some(sig),
        },
    decreases deploys.len(),
{
    if deploys.len() > 0 {
        if text_member(deploys.first(), "sig"@) == Some(sig) {
            assert(deploys.contains(deploys[0]));
        } else {
            let rest = deploys.drop_first();
            lemma_failure_is_of_the_signed_deploy(rest, sig);
            match deploy_signed(rest, sig) {
                Some(details) => {
                    let i = choose|i: int| 0 <= i < rest.len() && rest[i] == details;
                    assert(deploys[i + 1] == details);
                },
                None => {
                    assert forall|i: int| 0 <= i < deploys.len() implies text_member(
                        #[trigger] deploys[i],
                        "sig"@,
                    ) != Some(sig) by {
                        if i > 0 {
                            assert(rest[i - 1] == deploys[i]);
                        }
                    }
                },
            }
        }
    }
}

/// Whether information gives what a record holds under each of its keys, and is on the deploy that
/// was asked about. The deploy is included where the record names a block, else pending.
pub open spec fn shows_record(info: DeployInfo, deploy_id: Seq<char>, record: JsonView) -> bool {
    &&& info.deploy_id@ == deploy_id
    &&& info.block_hash.deep_view() == text_member(record, "blockHash"@)
    &&& info.sender.deep_view() == text_member(record, "sender"@)
    &&& info.seq_num == natural_member(record, "seqNum"@)
    &&& info.sig.deep_view() == text_member(record, "sig"@)
    &&& info.sig_algorithm.deep_view() == text_member(record, "sigAlgorithm"@)
    &&& info.shard_id.deep_view() == text_member(record, "shardId"@)
    &&& info.version == natural_member(record, "version"@)
    &&& info.timestamp == natural_member(record, "timestamp"@)
    &&& info.block_hash is Some ==> info.status is Included
    &&& info.block_hash is None ==> info.status is Pending
}

/// Whether information names nothing but the deploy and where it stands.
pub open spec fn says_only_where_it_stands(info: DeployInfo) -> bool {
    &&& info.block_hash is None
    &&& info.sender is None
    &&& info.seq_num is None
    &&& info.sig is None
    &&& info.sig_algorithm is None
    &&& info.shard_id is None
    &&& info.version is None
    &&& info.timestamp is None
    &&& !info.errored
    &&& info.system_deploy_error is None
    &&& !(info.status is Included)
}

/// Whether an entry is the first of a block's deploys that carries a signature.
pub open spec fn is_entry_of(deploys: Seq<JsonView>, sig: Seq<char>, i: int) -> bool {
    &&& 0 <= i < deploys.len()
    &&& text_member(deploys[i], "sig"@) == Some(sig)
    &&& forall|j: int| 0 <= j < i ==> text_member(#[trigger] deploys[j], "sig"@) != Some(sig)
}

/// Whether a block lists a deploy with a signature.
pub open spec fn has_entry(block: JsonView, sig: Seq<char>) -> bool {
    array_member(block, "deploys"@) matches Some(deploys) && exists|i: int|
        0 <= i < deploys.len() && text_member(#[trigger] deploys[i], "sig"@) == Some(sig)
}

/// Whether an execution errored as its entry says: where the entry says true, and not where it
/// says false or nothing. What the system said against it is what the entry says, unless that is
/// nothing or empty.
pub open spec fn shows_entry(errored: bool, said: Option<Seq<char>>, entry: JsonView) -> bool {
    &&& bool_member(entry, "errored"@) == Some(true) ==> errored
    &&& bool_member(entry, "errored"@) == Some(false) ==> !errored
    &&& bool_member(entry, "errored"@) is None ==> !errored
    &&& text_member(entry, "systemDeployError"@) is None ==> said is None
    &&& text_member(entry, "systemDeployError"@) matches Some(text) ==> {
        &&& text.len() > 0 ==> said == Some(text)
        &&& text.len() == 0 ==> said is None
    }
}

/// Whether information on an execution is what the first entry of a block with the deploy's
/// signature says, and holds nothing against the deploy where there is no such entry.
pub open spec fn shows_execution(info: DeployInfo, block: JsonView, deploy_id: Seq<char>) -> bool {
    &&& array_member(block, "deploys"@) matches Some(deploys) ==> forall|i: int| #[trigger]
        is_entry_of(deploys, deploy_id, i) ==> shows_entry(
            info.errored,
            info.system_deploy_error.deep_view(),
            deploys[i],
        )
    &&& !has_entry(block, deploy_id) ==> !info.errored && info.system_deploy_error is None
}

/// What is known of an execution is what the first entry with the deploy's signature says; without
/// such an entry nothing is held against the deploy.
pub proof fn lemma_execution_shows_the_entry(block: JsonView, deploy_id: Seq<char>)
    ensures
        array_member(block, "deploys"@) matches Some(deploys) ==> forall|i: int| #[trigger]
            is_entry_of(deploys, deploy_id, i) ==> shows_entry(
                execution_in(block, deploy_id).0,
                execution_in(block, deploy_id).1,
                deploys[i],
            ),
        !has_entry(block, deploy_id) ==> !execution_in(block, deploy_id).0 && execution_in(
            block,
            deploy_id,
        ).1 is None,
{
    match array_member(block, "deploys"@) {
        Some(deploys) => {
            assert forall|i: int| #[trigger] is_entry_of(deploys, deploy_id, i) implies shows_entry(
                execution_in(block, deploy_id).0,
                execution_in(block, deploy_id).1,
                deploys[i],
            ) by {
                lemma_first_entry_is_found(deploys, deploy_id, i);
            }
            lemma_failure_is_of_the_signed_deploy(deploys, deploy_id);
            match deploy_signed(deploys, deploy_id) {
                Some(details) => {
                    let i = choose|i: int| 0 <= i < deploys.len() && deploys[i] == details;
                    assert(text_member(deploys[i], "sig"@) == Some(deploy_id));
                },
                None => {},
            }
        },
        None => {},
    }
}

/// The first entry with a signature is the one that is found.
proof fn lemma_first_entry_is_found(deploys: Seq<JsonView>, sig: Seq<char>, i: int)
    requires
        is_entry_of(deploys, sig, i),
    ensures
        deploy_signed(deploys, sig) == Some(deploys[i]),
    decreases deploys.len(),
{
    if i > 0 {
        let rest = deploys.drop_first();
        assert(text_member(deploys[0], "sig"@) != Some(sig));
        assert(rest[i - 1] == deploys[i]);
        assert forall|j: int| 0 <= j < i - 1 implies text_member(#[trigger] rest[j], "sig"@)
            != Some(sig) by {
            assert(rest[j] == deploys[j + 1]);
        }
        lemma_first_entry_is_found(rest, sig, i - 1);
    }
}

/// A deploy of which the record names a block is reported to have errored exactly where the first
/// entry of the block with its signature says so, and with what that entry says against it.
pub proof fn lemma_errored_is_what_the_block_says(
    deploy_id: Seq<char>,
    lookup: HttpReply,
    block: Option<HttpReply>,
    record: JsonView,
    json: JsonView,
    deploys: Seq<JsonView>,
    i: int,
)
    requires
        lookup matches HttpReply::Success(body) && document(body) == Some(record),
        text_member(record, "blockHash"@) is Some,
        block matches Some(HttpReply::Success(body)) && document(body) == Some(json),
        array_member(json, "deploys"@) == Some(deploys),
        0 <= i < deploys.len(),
        text_member(deploys[i], "sig"@) == Some(deploy_id),
        forall|j: int|
            0 <= j < i ==> text_member(#[trigger] deploys[j], "sig"@) != Some(deploy_id),
    ensures
        info_by(deploy_id, lookup, block) matches Ok(info) && {
            &&& bool_member(deploys[i], "errored"@) == Some(true) ==> info.errored
            &&& bool_member(deploys[i], "errored"@) == Some(false) ==> !info.errored
            &&& bool_member(deploys[i], "errored"@) is None ==> !info.errored
            &&& info.system_deploy_error is Some ==> info.system_deploy_error == text_member(
                deploys[i],
                "systemDeployError"@,
            ) && info.system_deploy_error->0.len() > 0
            &&& info.system_deploy_error is None ==> (text_member(deploys[i], "systemDeployError"@)
                matches Some(text) ==> text.len() == 0)
        },
{
    lemma_execution_shows_the_entry(json, deploy_id);
    assert(is_entry_of(deploys, deploy_id, i));
    assert(shows_entry(
        execution_in(json, deploy_id).0,
        execution_in(json, deploy_id).1,
        deploys[i],
    ));
}

/// The mathematical value of information shows every field of it.
pub proof fn lemma_view_shows_the_info(info: DeployInfo)
    ensures
        info.deep_view().deploy_id == info.deploy_id@,
        info.deep_view().block_hash == info.block_hash.deep_view(),
        info.deep_view().sender == info.sender.deep_view(),
        info.deep_view().seq_num == info.seq_num,
        info.deep_view().sig == info.sig.deep_view(),
        info.deep_view().sig_algorithm == info.sig_algorithm.deep_view(),
        info.deep_view().shard_id == info.shard_id.deep_view(),
        info.deep_view().version == info.version,
        info.deep_view().timestamp == info.timestamp,
        info.deep_view().errored == info.errored,
        info.deep_view().system_deploy_error == info.system_deploy_error.deep_view(),
        info.status is Pending <==> info.deep_view().status is Pending,
        info.status is Included <==> info.deep_view().status is Included,
        info.status is NotFound <==> info.deep_view().status is NotFound,
        info.status matches DeployStatus::Error(said) ==> info.deep_view().status
            == StatusView::Error(said@),
{
}

/// The document in a body is what is read from its bytes, all of them; there is none where the
/// body could not be read.
pub proof fn lemma_document_is_what_the_body_holds(body: Option<Vec<u8>>)
    ensures
        body matches Some(bytes) ==> document(body) == json_parsed(bytes@),
        body is None ==> document(body) is None,
{
}

/// The words for a body that could not be read do not say that a deploy is in no block.
proof fn lemma_unreadable_body_says_nothing_of_blocks()
    ensures
        !occurs(
            "Unable to read response body"@,
            "Couldn't find block containing deploy with id:"@,
        ),
{
    reveal_strlit("Unable to read response body");
    reveal_strlit("Couldn't find block containing deploy with id:");
    assert("Unable to read response body"@.len()
        < "Couldn't find block containing deploy with id:"@.len());
}

} // verus!
