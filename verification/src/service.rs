//! Calls of the node's services, and what comes of them.

use crate::api::F1r3flyApi;
use crate::error::{outcome, ApiError, ErrorView};
use crate::hexadecimal::{decode, hex_decoded};
use crate::json::{
    json_parsed, quoted_chars, texts_chars, texts_view, write_texts, JsonNodeView,
};
use crate::par::{
    extract_par_data, items_chars, items_text, lemma_items_are_rendered_in_order, par_chars,
    shows_item, Par, UnfInstance,
};
use crate::text::{
    after_prefix, before_suffix, decimal, integer_text, joined, natural_text, signed_decimal,
    strip_prefix, strip_suffix,
};
use vstd::prelude::*;
use vstd::utf8::encode_utf8;

verus! {

/// An error that the node reports.
#[derive(Debug)]
pub struct ServiceError {
    pub messages: Vec<String>,
    /// The error as its wire type shows it.
    pub display: String,
    /// The error as its wire type shows it for debugging.
    pub debug: String,
}

/// What came of a call.
#[derive(Debug)]
pub enum Reply<T> {
    /// The call did not reach the node, or the service refused it, and what was said of it.
    Failed(String),
    /// The node replied without a message.
    Empty,
    /// The node reported an error.
    Error(ServiceError),
    /// The node replied with a result.
    Result(T),
}

/// A request to run code without committing it.
#[derive(Debug)]
pub struct ExploratoryDeployQuery {
    pub term: String,
    /// The block on whose state the code runs; empty for the latest.
    pub block_hash: String,
    pub use_pre_state_hash: bool,
}

/// What a run without commitment came to.
#[derive(Debug)]
pub struct ExploratoryResult {
    pub post_block_data: Vec<Par>,
    pub block: Option<LightBlockInfo>,
}

/// A block in short.
#[derive(Debug)]
pub struct LightBlockInfo {
    pub block_hash: String,
    pub block_number: i64,
}

/// A request to propose a block.
#[derive(Debug, Clone, Copy, PartialEq, Eq, Structural)]
pub struct ProposeQuery {
    pub is_async: bool,
}

/// A request for the data at a name, after a block.
#[derive(Debug)]
pub struct DataAtNameByBlockQuery {
    /// The unforgeable name that alone makes up the process whose data is asked for.
    pub name: UnfInstance,
    pub block_hash: String,
    pub use_pre_state_hash: bool,
}

/// The text of a part of a result: its rendering, or which part it is.
pub open spec fn result_chars(par: Par, index: nat) -> Seq<char> {
    match par_chars(par) {
        Some(chars) => chars,
        None => "Result "@ + decimal(index + 1) + ": Complex data structure"@,
    }
}

/// The texts of the parts of a result.
pub open spec fn results_chars(pars: Seq<Par>) -> Seq<Seq<char>> {
    Seq::new(pars.len(), |i: int| result_chars(pars[i], i as nat))
}

/// The text of a result: a JSON array with the text of each part.
pub open spec fn exploratory_data_chars(pars: Seq<Par>) -> Seq<char> {
    texts_chars(results_chars(pars))
}

/// The text of the block that a run was made on.
pub open spec fn block_info_chars(block: Option<LightBlockInfo>) -> Seq<char> {
    match block {
        Some(block) => "Block hash: "@ + block.block_hash@ + ", Block number: "@ + signed_decimal(
            block.block_number as int,
        ),
        None => "No block info"@,
    }
}

/// The texts of a result and of its block, by what a node replied to a run without commitment.
pub open spec fn exploratory_by(reply: Reply<ExploratoryResult>) -> Result<
    (Seq<char>, Seq<char>),
    ErrorView,
> {
    match reply {
        Reply::Failed(said) => Err(ErrorView::Transport(said@)),
        Reply::Empty => Err(ErrorView::ExploratoryResultMissing),
        Reply::Error(e) => Err(ErrorView::Service(e.display@)),
        Reply::Result(result) => Ok(
            (
                exploratory_data_chars(result.post_block_data@),
                block_info_chars(result.block),
            ),
        ),
    }
}

/// The hash of the block that a node says it proposed; the whole text where the hash does not
/// stand in it in the usual form.
pub open spec fn proposed_hash(response: Seq<char>) -> Seq<char> {
    match after_prefix(response, "Success! Block "@) {
        Some(rest) => match before_suffix(rest, " created and added."@) {
            Some(hash) => hash,
            None => response,
        },
        None => response,
    }
}

/// The hash of a proposed block, by what a node replied to the proposal.
pub open spec fn proposed_by(reply: Reply<String>) -> Result<Seq<char>, ErrorView> {
    match reply {
        Reply::Failed(said) => Err(ErrorView::Transport(said@)),
        Reply::Empty => Err(ErrorView::ProposeResponseMissing),
        Reply::Error(e) => Err(ErrorView::Propose(e.debug@)),
        Reply::Result(response) => Ok(proposed_hash(response@)),
    }
}

/// The data of a deploy, by what a node replied to a request for it. Data without a rendering is
/// shown as for debugging.
pub open spec fn data_by(reply: Reply<Vec<Par>>) -> Result<Seq<Seq<char>>, ErrorView> {
    match reply {
        Reply::Failed(said) => Err(ErrorView::Transport(said@)),
        Reply::Empty => Err(ErrorView::DataResponseMissing),
        Reply::Error(e) => Err(ErrorView::DataAtName(e.messages.deep_view())),
        Reply::Result(pars) => Ok(items_chars(pars@, pars@.len())),
    }
}

impl<'a> F1r3flyApi<'a> {
    /// Asks for a run of code without commitment.
    pub fn exploratory_deploy_query(
        &self,
        rho_code: &str,
        block_hash: Option<&str>,
        use_pre_state_hash: bool,
    ) -> (res: ExploratoryDeployQuery)
        ensures
            res.term@ == rho_code@,
            res.block_hash@ == (match block_hash {
                Some(hash) => hash@,
                None => ""@,
            }),
            res.use_pre_state_hash == use_pre_state_hash,
    {
        ExploratoryDeployQuery {
            term: rho_code.to_string(),
            block_hash: match block_hash {
                Some(hash) => hash.to_string(),
                None => "".to_string(),
            },
            use_pre_state_hash,
        }
    }

    /// Asks for a proposal, and for the reply to wait for it.
    pub fn propose_query(&self) -> (res: ProposeQuery)
        ensures
            res == (ProposeQuery { is_async: false }),
    {
        ProposeQuery { is_async: false }
    }

    /// Asks for what was sent on the channel of a deploy, after a block.
    pub fn data_at_deploy_id_query(&self, deploy_id_hex: &str, block_hash: &str) -> (res: Result<
        DataAtNameByBlockQuery,
        ApiError,
    >)
        ensures
            match hex_decoded(encode_utf8(deploy_id_hex@)) {
                Ok(sig) => {
                    &&& res is Ok
                    &&& res->Ok_0.name matches UnfInstance::GDeployIdBody(bytes) && bytes@ == sig
                    &&& res->Ok_0.block_hash@ == block_hash@
                    &&& !res->Ok_0.use_pre_state_hash
                },
                Err(e) => res is Err && res->Err_0@ == ErrorView::InvalidDeployId(e),
            },
    {
        match decode(deploy_id_hex) {
            Ok(sig) => Ok(
                DataAtNameByBlockQuery {
                    name: UnfInstance::GDeployIdBody(sig),
                    block_hash: block_hash.to_string(),
                    use_pre_state_hash: false,
                },
            ),
            Err(e) => Err(ApiError::InvalidDeployId(e)),
        }
    }
}

/// Writes a result as a JSON array with the text of each part.
fn exploratory_data(pars: &Vec<Par>) -> (res: String)
    ensures
        res@ == exploratory_data_chars(pars@),
        json_parsed(encode_utf8(res@)) == Some(texts_view(results_chars(pars@))),
{
    let mut items: Vec<String> = Vec::new();
    for i in 0..pars.len()
        invariant
            items@.len() == i,
            forall|j: int|
                0 <= j < i ==> (#[trigger] items@[j])@ == result_chars(pars@[j], j as nat),
    {
        let item = match extract_par_data(&pars[i]) {
            Some(text) => text,
            None => {
                let mut text = "Result ".to_string();
                text.append(natural_text((i + 1) as u64).as_str());
                text.append(": Complex data structure");
                text
            },
        };
        items.push(item);
    }
    assert(items.deep_view() =~= results_chars(pars@));
    write_texts(items)
}

/// Writes the block that a run was made on.
fn block_info(block: &Option<LightBlockInfo>) -> (res: String)
    ensures
        res@ == block_info_chars(*block),
{
    match block {
        Some(block) => {
            let mut text = "Block hash: ".to_string();
            text.append(block.block_hash.as_str());
            text.append(", Block number: ");
            text.append(integer_text(block.block_number).as_str());
            text
        },
        None => "No block info".to_string(),
    }
}

impl<'a> F1r3flyApi<'a> {
    /// Reads what the node replied to a run without commitment: the result as JSON, and the block.
    pub fn exploratory_deploy(&self, reply: &Reply<ExploratoryResult>) -> (res: Result<
        (String, String),
        ApiError,
    >)
        ensures
            outcome(res) == exploratory_by(*reply),
            *reply matches Reply::Result(result) ==> json_parsed(encode_utf8(res->Ok_0.0@)) == Some(
                texts_view(results_chars(result.post_block_data@)),
            ),
            *reply matches Reply::Result(result) ==> {
                let parts = result.post_block_data@;
                &&& res is Ok
                &&& json_parsed(encode_utf8(res->Ok_0.0@)) matches Some(document)
                &&& document.node matches JsonNodeView::Array(items)
                &&& items.len() == parts.len()
                &&& forall|i: int|
                    0 <= i < items.len() ==> match par_chars(parts[i]) {
                        Some(rendering) => (#[trigger] items[i]).node == JsonNodeView::Text(
                            rendering,
                        ),
                        None => items[i].node == JsonNodeView::Text(
                            "Result "@ + decimal((i + 1) as nat) + ": Complex data structure"@,
                        ),
                    }
            },
            *reply matches Reply::Result(result) ==> match result.block {
                Some(block) => res->Ok_0.1@ == "Block hash: "@ + block.block_hash@
                    + ", Block number: "@ + signed_decimal(block.block_number as int),
                None => res->Ok_0.1@ == "No block info"@,
            },
            *reply matches Reply::Failed(said) ==> (res matches Err(ApiError::Transport(t)) && t@
                == said@),
            *reply is Empty ==> res matches Err(ApiError::ExploratoryResultMissing),
            *reply matches Reply::Error(e) ==> (res matches Err(ApiError::Service(t)) && t@
                == e.display@),
    {
        proof {
            match reply {
                Reply::Result(result) => {
                    lemma_results_are_shown(result.post_block_data@);
                },
                _ => {},
            }
        }
        match reply {
            Reply::Failed(said) => Err(ApiError::Transport(said.clone())),
            Reply::Empty => Err(ApiError::ExploratoryResultMissing),
            Reply::Error(e) => Err(ApiError::Service(e.display.clone())),
            Reply::Result(result) => {
                Ok((exploratory_data(&result.post_block_data), block_info(&result.block)))
            },
        }
    }

    /// Reads the hash of the block from what the node replied to a proposal.
    pub fn propose(&self, reply: &Reply<String>) -> (res: Result<String, ApiError>)
        ensures
            outcome(res) == proposed_by(*reply),
            *reply matches Reply::Result(response) ==> res is Ok && (res->Ok_0@ == response@
                || response@ == "Success! Block "@ + res->Ok_0@ + " created and added."@),
            *reply matches Reply::Failed(said) ==> (res matches Err(ApiError::Transport(t)) && t@
                == said@),
            *reply is Empty ==> res matches Err(ApiError::ProposeResponseMissing),
            *reply matches Reply::Error(e) ==> (res matches Err(ApiError::Propose(t)) && t@
                == e.debug@),
    {
        proof {
            match reply {
                Reply::Result(response) => {
                    lemma_proposed_hash_stands_in_the_report(response@);
                },
                _ => {},
            }
        }
        match reply {
            Reply::Failed(said) => Err(ApiError::Transport(said.clone())),
            Reply::Empty => Err(ApiError::ProposeResponseMissing),
            Reply::Error(e) => Err(ApiError::Propose(e.debug.clone())),
            Reply::Result(response) => {
                let hash = match strip_prefix(response.as_str(), "Success! Block ") {
                    Some(rest) => strip_suffix(rest, " created and added."),
                    None => None,
                };
                match hash {
                    Some(hash) => Ok(hash.to_string()),
                    None => Ok(response.clone()),
                }
            },
        }
    }

    /// Reads the data of a deploy from what the node replied.
    pub fn get_data_at_deploy_id(&self, reply: &Reply<Vec<Par>>) -> (res: Result<Vec<String>, ApiError>)
        ensures
            outcome(res) == data_by(*reply),
            *reply matches Reply::Result(pars) ==> {
                &&& res is Ok
                &&& res->Ok_0@.len() == pars@.len()
                &&& forall|i: int|
                    0 <= i < pars@.len() ==> shows_item((#[trigger] res->Ok_0@[i])@, pars@[i])
            },
            *reply matches Reply::Failed(said) ==> (res matches Err(ApiError::Transport(t)) && t@
                == said@),
            *reply is Empty ==> res matches Err(ApiError::DataResponseMissing),
            *reply matches Reply::Error(e) ==> (res matches Err(ApiError::DataAtName(messages))
                && messages.deep_view() == e.messages.deep_view()),
    {
        proof {
            match reply {
                Reply::Result(pars) => {
                    lemma_items_are_rendered_in_order(pars@, pars@.len());
                },
                _ => {},
            }
        }
        match reply {
            Reply::Failed(said) => Err(ApiError::Transport(said.clone())),
            Reply::Empty => Err(ApiError::DataResponseMissing),
            Reply::Error(e) => Err(ApiError::DataAtName(clone_texts(&e.messages))),
            Reply::Result(pars) => {
                let texts = items_text(pars);
                assert forall|i: int| 0 <= i < pars@.len() implies shows_item(
                    (#[trigger] texts@[i])@,
                    pars@[i],
                ) by {
                    assert(texts.deep_view()[i] == texts@[i]@);
                }
                assert(texts.deep_view().len() == texts@.len());
                Ok(texts)
            },
        }
    }
}

/// Copies texts.
pub(crate) fn clone_texts(texts: &Vec<String>) -> (res: Vec<String>)
    ensures
        res.deep_view() == texts.deep_view(),
{
    let mut res: Vec<String> = Vec::new();
    for i in 0..texts.len()
        invariant
            res@ =~= texts@.take(i as int),
    {
        res.push(texts[i].clone());
    }
    res
}

/// The hash is read out of the text in which a node reports it, whatever the hash.
pub proof fn lemma_reported_hash_is_read(hash: Seq<char>)
    ensures
        proposed_hash("Success! Block "@ + hash + " created and added."@) == hash,
{
    let prefix = "Success! Block "@;
    let suffix = " created and added."@;
    let response = prefix + hash + suffix;
    let rest = hash + suffix;
    assert(response.subrange(0, prefix.len() as int) =~= prefix);
    assert(response.skip(prefix.len() as int) =~= rest);
    assert(rest.subrange(rest.len() - suffix.len(), rest.len() as int) =~= suffix);
    assert(rest.take(rest.len() - suffix.len()) =~= hash);
}

/// A result has one text for each part, in the order of the parts.
pub proof fn lemma_results_are_in_order(pars: Seq<Par>, i: int)
    requires
        0 <= i < pars.len(),
    ensures
        results_chars(pars).len() == pars.len(),
        results_chars(pars)[i] == result_chars(pars[i], i as nat),
{
}

/// Whether a text is the one that a part of a result is shown by: its rendering or, only where it
/// has none, the words that it is complex, with its number counted from one.
pub open spec fn shows_result(text: Seq<char>, part: Par, index: int) -> bool {
    &&& par_chars(part) is Some ==> text == par_chars(part)->0
    &&& par_chars(part) is None ==> text == "Result "@ + decimal((index + 1) as nat)
        + ": Complex data structure"@
}

/// Every part of a result that has a rendering is shown by it, at its own place in the array; only
/// a part without one is called complex.
pub proof fn lemma_results_are_shown(pars: Seq<Par>)
    ensures
        texts_view(results_chars(pars)).node matches JsonNodeView::Array(items) && items.len()
            == pars.len() && forall|i: int|
            0 <= i < items.len() ==> match par_chars(pars[i]) {
                Some(rendering) => (#[trigger] items[i]).node == JsonNodeView::Text(rendering),
                None => items[i].node == JsonNodeView::Text(
                    "Result "@ + decimal((i + 1) as nat) + ": Complex data structure"@,
                ),
            },
{
}

/// The text of a result is a JSON array of the texts that its parts are shown by, in order.
pub proof fn lemma_exploratory_data_is_an_array(pars: Seq<Par>, texts: Seq<Seq<char>>)
    requires
        texts.len() == pars.len(),
        forall|i: int| 0 <= i < texts.len() ==> shows_result(#[trigger] texts[i], pars[i], i),
    ensures
        exploratory_data_chars(pars) == "["@ + joined(
            Seq::new(texts.len(), |i: int| quoted_chars(texts[i])),
            ","@,
        ) + "]"@,
{
    let own = results_chars(pars);
    assert forall|i: int| 0 <= i < texts.len() implies texts[i] == own[i] by {
        assert(shows_result(texts[i], pars[i], i));
    }
    assert(own =~= texts);
}

/// What is given for a report is the whole report, or the hash that stands in it between the usual
/// words.
pub proof fn lemma_proposed_hash_stands_in_the_report(response: Seq<char>)
    ensures
        proposed_hash(response) == response || response == "Success! Block "@ + proposed_hash(
            response,
        ) + " created and added."@,
{
    let prefix = "Success! Block "@;
    let suffix = " created and added."@;
    match after_prefix(response, prefix) {
        Some(rest) => match before_suffix(rest, suffix) {
            Some(hash) => {
                assert(response =~= prefix + rest);
                assert(rest =~= hash + suffix);
                assert(response =~= prefix + hash + suffix);
            },
            None => {},
        },
        None => {},
    }
}

/// A report that does not begin and end in the usual words is given whole.
pub proof fn lemma_other_report_is_given_whole(response: Seq<char>)
    requires
        !"Success! Block "@.is_prefix_of(response) || !" created and added."@.is_suffix_of(response)
            || response.len() < "Success! Block "@.len() + " created and added."@.len(),
    ensures
        proposed_hash(response) == response,
{
    let prefix = "Success! Block "@;
    let suffix = " created and added."@;
    match after_prefix(response, prefix) {
        Some(rest) => {
            if suffix.is_suffix_of(rest) {
                assert(response.subrange(
                    response.len() - suffix.len(),
                    response.len() as int,
                ) =~= rest.subrange(rest.len() - suffix.len(), rest.len() as int));
            }
        },
        None => {},
    }
}

} // verus!
