//! What can go wrong in talking to a node, and what is said of it.

use crate::hexadecimal::{char_debug_chars, hex_error_chars, hex_error_text, HexError};
use crate::http::{
    canonical_reason, http_error_chars, http_error_text, reason_chars, status_chars, status_text,
    Status,
};
use crate::text::{decimal, join, joined, natural_text};
use vstd::prelude::*;

verus! {

/// An error of the client.
#[derive(Debug)]
pub enum ApiError {
    /// A call that did not reach the node or that the node's service refused, and what was said
    /// of it.
    Transport(String),
    /// The body of a reply that could not be read or is not JSON.
    Decode,
    /// An error that the node reported, as its wire type shows it.
    Service(String),
    DeployResultMissing,
    ExploratoryResultMissing,
    ProposeResponseMissing,
    DataResponseMissing,
    /// A reply to a deploy in which no deploy ID was found.
    DeployIdMissing(String),
    /// An error that the node reported for a proposal, as its wire type shows it for debugging.
    Propose(String),
    /// A deploy ID that is not hexadecimal.
    InvalidDeployId(HexError),
    /// The messages with which the node refused to look up data.
    DataAtName(Vec<String>),
    DeployNotIncluded,
    /// The last error of a search for the block of a deploy.
    BlockLookup(String),
    /// No data arrived for a deploy in a number of attempts.
    DataTimedOut { attempts: u32, deploy_id: String },
    FinalizationUnknown,
    NodeUnreachable,
    /// An HTTP reply that is no success.
    Http { status: Status, body: String },
    /// An HTTP request without a reply, and what was said of it.
    Network(String),
    /// The messages with which the node ended a stream of blocks.
    BlockStream(Vec<String>),
}

/// The mathematical value of an [`ApiError`].
pub enum ErrorView {
    Transport(Seq<char>),
    Decode,
    Service(Seq<char>),
    DeployResultMissing,
    ExploratoryResultMissing,
    ProposeResponseMissing,
    DataResponseMissing,
    DeployIdMissing(Seq<char>),
    Propose(Seq<char>),
    InvalidDeployId(HexError),
    DataAtName(Seq<Seq<char>>),
    DeployNotIncluded,
    BlockLookup(Seq<char>),
    DataTimedOut { attempts: u32, deploy_id: Seq<char> },
    FinalizationUnknown,
    NodeUnreachable,
    Http { status: u16, body: Seq<char> },
    Network(Seq<char>),
    BlockStream(Seq<Seq<char>>),
}

impl View for ApiError {
    type V = ErrorView;

    open spec fn view(&self) -> ErrorView {
        match *self {
            ApiError::Transport(said) => ErrorView::Transport(said@),
            ApiError::Decode => ErrorView::Decode,
            ApiError::Service(said) => ErrorView::Service(said@),
            ApiError::DeployResultMissing => ErrorView::DeployResultMissing,
            ApiError::ExploratoryResultMissing => ErrorView::ExploratoryResultMissing,
            ApiError::ProposeResponseMissing => ErrorView::ProposeResponseMissing,
            ApiError::DataResponseMissing => ErrorView::DataResponseMissing,
            ApiError::DeployIdMissing(response) => ErrorView::DeployIdMissing(response@),
            ApiError::Propose(said) => ErrorView::Propose(said@),
            ApiError::InvalidDeployId(e) => ErrorView::InvalidDeployId(e),
            ApiError::DataAtName(messages) => ErrorView::DataAtName(messages.deep_view()),
            ApiError::DeployNotIncluded => ErrorView::DeployNotIncluded,
            ApiError::BlockLookup(said) => ErrorView::BlockLookup(said@),
            ApiError::DataTimedOut { attempts, deploy_id } => ErrorView::DataTimedOut {
                attempts,
                deploy_id: deploy_id@,
            },
            ApiError::FinalizationUnknown => ErrorView::FinalizationUnknown,
            ApiError::NodeUnreachable => ErrorView::NodeUnreachable,
            ApiError::Http { status, body } => ErrorView::Http { status: status@, body: body@ },
            ApiError::Network(said) => ErrorView::Network(said@),
            ApiError::BlockStream(messages) => ErrorView::BlockStream(messages.deep_view()),
        }
    }
}

/// The mathematical value of a result that may be an error of the client.
pub open spec fn outcome<T: DeepView>(res: Result<T, ApiError>) -> Result<T::V, ErrorView> {
    match res {
        Ok(value) => Ok(value.deep_view()),
        Err(e) => Err(e@),
    }
}

/// What is said of an error.
pub open spec fn error_chars(e: ErrorView) -> Seq<char> {
    match e {
        ErrorView::Transport(said) => said,
        ErrorView::Decode => "error decoding response body"@,
        ErrorView::Service(said) => said,
        ErrorView::DeployResultMissing => "Deploy result not found"@,
        ErrorView::ExploratoryResultMissing => "Exploratory deploy result not found"@,
        ErrorView::ProposeResponseMissing => "Missing propose response"@,
        ErrorView::DataResponseMissing => "No response from getDataAtName"@,
        ErrorView::DeployIdMissing(response) => "Could not extract deploy ID from response: "@
            + response,
        ErrorView::Propose(said) => "Propose error: "@ + said,
        ErrorView::InvalidDeployId(e) => "Invalid deploy ID hex: "@ + hex_error_chars(e),
        ErrorView::DataAtName(messages) => "getDataAtName error: "@ + joined(messages, "; "@),
        ErrorView::DeployNotIncluded => "Deploy not included in any block after 60s of polling"@,
        ErrorView::BlockLookup(said) => "Failed to look up deploy block: "@ + said,
        ErrorView::DataTimedOut { attempts, deploy_id } => "Timed out after "@ + decimal(
            attempts as nat,
        ) + " attempts waiting for data at deploy "@ + deploy_id,
        ErrorView::FinalizationUnknown => "Error checking finalization status"@,
        ErrorView::NodeUnreachable => "Failed to connect to node after maximum attempts"@,
        ErrorView::Http { status, body } => http_error_chars(
            status_chars(status),
            reason_chars(status),
            body,
        ),
        ErrorView::Network(said) => "Network error: "@ + said,
        ErrorView::BlockStream(messages) => "gRPC Error: "@ + joined(messages, "; "@),
    }
}

/// A text after another.
fn prefixed(prefix: &str, text: &str) -> (res: String)
    ensures
        res@ == prefix@ + text@,
{
    let mut res = prefix.to_string();
    res.append(text);
    res
}

impl ApiError {
    /// Says what went wrong.
    pub fn message(&self) -> (res: String)
        ensures
            res@ == error_chars(self@),
            *self matches ApiError::Transport(said) ==> res@ == said@,
            *self is Decode ==> res@ == "error decoding response body"@,
            *self matches ApiError::Service(said) ==> res@ == said@,
            *self is DeployResultMissing ==> res@ == "Deploy result not found"@,
            *self is ExploratoryResultMissing ==> res@ == "Exploratory deploy result not found"@,
            *self is ProposeResponseMissing ==> res@ == "Missing propose response"@,
            *self is DataResponseMissing ==> res@ == "No response from getDataAtName"@,
            *self matches ApiError::DeployIdMissing(response) ==> res@
                == "Could not extract deploy ID from response: "@ + response@,
            *self matches ApiError::Propose(said) ==> res@ == "Propose error: "@ + said@,
            *self matches ApiError::InvalidDeployId(HexError::OddLength) ==> res@
                == "Invalid deploy ID hex: "@ + "Odd number of digits"@,
            *self matches ApiError::InvalidDeployId(HexError::InvalidStringLength) ==> res@
                == "Invalid deploy ID hex: "@ + "Invalid string length"@,
            *self matches ApiError::InvalidDeployId(HexError::InvalidHexCharacter { c, index })
                ==> res@ == "Invalid deploy ID hex: "@ + ("Invalid character "@ + char_debug_chars(c)
                + " at position "@ + decimal(index as nat)),
            *self matches ApiError::DataAtName(messages) ==> res@ == "getDataAtName error: "@
                + joined(messages.deep_view(), "; "@),
            *self is DeployNotIncluded ==> res@
                == "Deploy not included in any block after 60s of polling"@,
            *self matches ApiError::BlockLookup(said) ==> res@
                == "Failed to look up deploy block: "@ + said@,
            *self matches ApiError::DataTimedOut { attempts, deploy_id } ==> res@
                == "Timed out after "@ + decimal(attempts as nat)
                + " attempts waiting for data at deploy "@ + deploy_id@,
            *self is FinalizationUnknown ==> res@ == "Error checking finalization status"@,
            *self is NodeUnreachable ==> res@
                == "Failed to connect to node after maximum attempts"@,
            *self matches ApiError::Http { status, body } ==> (reason_chars(status@) matches Some(
                reason,
            ) ==> res@ == "HTTP error "@ + status_chars(status@) + ": "@ + reason + " - Response: "@
                + body@),
            *self matches ApiError::Http { status, body } ==> (reason_chars(status@) is None ==> res@
                == "HTTP error "@ + status_chars(status@) + ": "@ + "Unknown"@ + " - Response: "@
                + body@),
            *self matches ApiError::Network(said) ==> res@ == "Network error: "@ + said@,
            *self matches ApiError::BlockStream(messages) ==> res@ == "gRPC Error: "@ + joined(
                messages.deep_view(),
                "; "@,
            ),
    {
        match self {
            ApiError::Transport(said) => said.clone(),
            ApiError::Decode => "error decoding response body".to_string(),
            ApiError::Service(said) => said.clone(),
            ApiError::DeployResultMissing => "Deploy result not found".to_string(),
            ApiError::ExploratoryResultMissing => {
                "Exploratory deploy result not found".to_string()
            },
            ApiError::ProposeResponseMissing => "Missing propose response".to_string(),
            ApiError::DataResponseMissing => "No response from getDataAtName".to_string(),
            ApiError::DeployIdMissing(response) => {
                prefixed("Could not extract deploy ID from response: ", response.as_str())
            },
            ApiError::Propose(said) => prefixed("Propose error: ", said.as_str()),
            ApiError::InvalidDeployId(e) => {
                prefixed("Invalid deploy ID hex: ", hex_error_text(*e).as_str())
            },
            ApiError::DataAtName(messages) => {
                prefixed("getDataAtName error: ", join(messages, "; ").as_str())
            },
            ApiError::DeployNotIncluded => {
                "Deploy not included in any block after 60s of polling".to_string()
            },
            ApiError::BlockLookup(said) => {
                prefixed("Failed to look up deploy block: ", said.as_str())
            },
            ApiError::DataTimedOut { attempts, deploy_id } => {
                let mut res = prefixed("Timed out after ", natural_text(*attempts as u64).as_str());
                res.append(" attempts waiting for data at deploy ");
                res.append(deploy_id.as_str());
                res
            },
            ApiError::FinalizationUnknown => "Error checking finalization status".to_string(),
            ApiError::NodeUnreachable => {
                "Failed to connect to node after maximum attempts".to_string()
            },
            ApiError::Http { status, body } => {
                let code: u16 = status.code();
                http_error_text(status_text(code).as_str(), &canonical_reason(code), body.as_str())
            },
            ApiError::Network(said) => prefixed("Network error: ", said.as_str()),
            ApiError::BlockStream(messages) => {
                prefixed("gRPC Error: ", join(messages, "; ").as_str())
            },
        }
    }
}

/// The mathematical value of an error shows which error it is and every text and number in it.
pub proof fn lemma_view_shows_the_error(e: ApiError)
    ensures
        e matches ApiError::Transport(said) ==> e@ == ErrorView::Transport(said@),
        e is Decode <==> e@ is Decode,
        e matches ApiError::Service(said) ==> e@ == ErrorView::Service(said@),
        e is DeployResultMissing <==> e@ is DeployResultMissing,
        e is ExploratoryResultMissing <==> e@ is ExploratoryResultMissing,
        e is ProposeResponseMissing <==> e@ is ProposeResponseMissing,
        e is DataResponseMissing <==> e@ is DataResponseMissing,
        e matches ApiError::DeployIdMissing(r) ==> e@ == ErrorView::DeployIdMissing(r@),
        e matches ApiError::Propose(said) ==> e@ == ErrorView::Propose(said@),
        e matches ApiError::InvalidDeployId(why) ==> e@ == ErrorView::InvalidDeployId(why),
        e matches ApiError::DataAtName(m) ==> e@ == ErrorView::DataAtName(m.deep_view()),
        e is DeployNotIncluded <==> e@ is DeployNotIncluded,
        e matches ApiError::BlockLookup(said) ==> e@ == ErrorView::BlockLookup(said@),
        e matches ApiError::DataTimedOut { attempts, deploy_id } ==> e@ == (
        ErrorView::DataTimedOut { attempts, deploy_id: deploy_id@ }),
        e is FinalizationUnknown <==> e@ is FinalizationUnknown,
        e is NodeUnreachable <==> e@ is NodeUnreachable,
        e matches ApiError::Http { status, body } ==> e@ == (ErrorView::Http {
            status: status@,
            body: body@,
        }),
        e matches ApiError::Network(said) ==> e@ == ErrorView::Network(said@),
        e matches ApiError::BlockStream(m) ==> e@ == ErrorView::BlockStream(m.deep_view()),
{
}

/// The mathematical value of a result is a success exactly where the result is one, with the same
/// value, and else the same error.
pub proof fn lemma_outcome_shows_the_result<T: DeepView>(res: Result<T, ApiError>)
    ensures
        res matches Ok(value) ==> outcome(res) == Ok::<T::V, ErrorView>(value.deep_view()),
        res matches Err(e) ==> outcome(res) == Err::<T::V, ErrorView>(e@),
{
}

} // verus!
