use crate::settings::Chain;
use crate::text::{chars_of, ends_with, has_prefix, has_suffix, is_text, starts_with};
use vstd::prelude::*;

verus! {

/// Why the node cannot be used.
#[derive(Debug, PartialEq, Eq)]
pub enum RpcClientError {
    /// The node follows the first chain, the indexer is set to the second.
    MismatchedChain(String, String),
    /// The node follows a chain that the indexer does not know.
    UnknownChain(String),
    /// The node did not answer as it should.
    FailedToConnect(String),
}

pub enum RpcClientErrorView {
    MismatchedChain(Seq<char>, Seq<char>),
    UnknownChain(Seq<char>),
    FailedToConnect(Seq<char>),
}

impl View for RpcClientError {
    type V = RpcClientErrorView;

    open spec fn view(&self) -> RpcClientErrorView {
        match self {
            RpcClientError::MismatchedChain(a, b) => RpcClientErrorView::MismatchedChain(a@, b@),
            RpcClientError::UnknownChain(a) => RpcClientErrorView::UnknownChain(a@),
            RpcClientError::FailedToConnect(a) => RpcClientErrorView::FailedToConnect(a@),
        }
    }
}

impl RpcClientErrorView {
    pub open spec fn message(self) -> Seq<char> {
        match self {
            RpcClientErrorView::MismatchedChain(a, b) => "mismatched chain `"@ + a
                + "` does not match `"@ + b + "`"@,
            RpcClientErrorView::UnknownChain(a) => "unknown chain "@ + a,
            RpcClientErrorView::FailedToConnect(a) => "failed to connect to rpc "@ + a,
        }
    }
}

impl RpcClientError {
    pub fn to_string(&self) -> (s: String)
        ensures
            s@ == self@.message(),
    {
        let mut out: Vec<char> = Vec::new();
        match self {
            RpcClientError::MismatchedChain(a, b) => {
                crate::text::push_str(&mut out, "mismatched chain `");
                crate::text::push_str(&mut out, a.as_str());
                crate::text::push_str(&mut out, "` does not match `");
                crate::text::push_str(&mut out, b.as_str());
                crate::text::push_str(&mut out, "`");
                assert(out@ =~= self@.message());
            },
            RpcClientError::UnknownChain(a) => {
                crate::text::push_str(&mut out, "unknown chain ");
                crate::text::push_str(&mut out, a.as_str());
                assert(out@ =~= self@.message());
            },
            RpcClientError::FailedToConnect(a) => {
                crate::text::push_str(&mut out, "failed to connect to rpc ");
                crate::text::push_str(&mut out, a.as_str());
                assert(out@ =~= self@.message());
            },
        }
        crate::text::string_of(&out)
    }
}

/// The chain that a node means by a name.
pub open spec fn chain_named(name: Seq<char>) -> Option<Chain> {
    if name == "bitcoin"@ {
        Some(Chain::Mainnet)
    } else if name == "testnet"@ {
        Some(Chain::Testnet)
    } else if name == "testnet4"@ {
        Some(Chain::Testnet4)
    } else if name == "regtest"@ {
        Some(Chain::Regtest)
    } else if name == "signet"@ {
        Some(Chain::Signet)
    } else {
        None
    }
}

pub fn chain_of_node_name(name: &str) -> (r: Option<Chain>)
    ensures
        r == chain_named(name@),
{
    let v = chars_of(name);
    if is_text(&v, "bitcoin") {
        Some(Chain::Mainnet)
    } else if is_text(&v, "testnet") {
        Some(Chain::Testnet)
    } else if is_text(&v, "testnet4") {
        Some(Chain::Testnet4)
    } else if is_text(&v, "regtest") {
        Some(Chain::Regtest)
    } else if is_text(&v, "signet") {
        Some(Chain::Signet)
    } else {
        None
    }
}

/// What the node answered when it was asked which chain it follows.
#[derive(Debug, PartialEq, Eq)]
pub enum NodeReply {
    /// The name of the chain.
    Chain(String),
    /// The node is still starting.
    WarmingUp,
    /// The request failed with this message.
    Failed(String),
}

/// What to do after an answer of the node.
#[derive(Debug, PartialEq, Eq)]
pub enum ValidationStep {
    /// Wait a tenth of a second and ask again; the number of checks made.
    Retry(u32),
    /// The node can be used.
    Accept,
    /// The node cannot be used.
    Reject(RpcClientError),
}

pub enum ValidationStepView {
    Retry(u32),
    Accept,
    Reject(RpcClientErrorView),
}

impl View for ValidationStep {
    type V = ValidationStepView;

    open spec fn view(&self) -> ValidationStepView {
        match self {
            ValidationStep::Retry(n) => ValidationStepView::Retry(*n),
            ValidationStep::Accept => ValidationStepView::Accept,
            ValidationStep::Reject(e) => ValidationStepView::Reject(e@),
        }
    }
}

/// The number of times the node is asked again while it is starting.
pub const MAX_CHECKS: u32 = 5;

/// The pause between two checks, in milliseconds.
pub const CHECK_PAUSE_MILLIS: u64 = 100;

/// What an answer of the node leads to, after `checks` earlier checks. A
/// node that names its chain is accepted if that is the chain of the
/// indexer. A node that is still starting is asked again, up to five
/// times. Any other failure ends the validation.
pub open spec fn validation_step(checks: u32, reply: NodeReply, chain: Chain) -> ValidationStepView {
    match reply {
        NodeReply::Chain(name) => match chain_named(name@) {
            None => ValidationStepView::Reject(RpcClientErrorView::UnknownChain(name@)),
            Some(found) => if found == chain {
                ValidationStepView::Accept
            } else {
                ValidationStepView::Reject(
                    RpcClientErrorView::MismatchedChain(found.spec_name(), chain.spec_name()),
                )
            },
        },
        NodeReply::Failed(message) => ValidationStepView::Reject(
            RpcClientErrorView::FailedToConnect(message@),
        ),
        NodeReply::WarmingUp => if checks >= MAX_CHECKS {
            ValidationStepView::Reject(
                RpcClientErrorView::FailedToConnect("Failed to connect to Bitcoin Core RPC"@),
            )
        } else {
            ValidationStepView::Retry((checks + 1) as u32)
        },
    }
}

/// Decides about the node after one of its answers.
pub fn validate_rpc_connection(checks: u32, reply: NodeReply, chain: Chain) -> (step: ValidationStep)
    ensures
        step@ == validation_step(checks, reply, chain),
{
    match reply {
        NodeReply::Chain(name) => match chain_of_node_name(name.as_str()) {
            None => ValidationStep::Reject(RpcClientError::UnknownChain(name)),
            Some(found) => {
                if found == chain {
                    ValidationStep::Accept
                } else {
                    ValidationStep::Reject(
                        RpcClientError::MismatchedChain(found.to_string(), chain.to_string()),
                    )
                }
            },
        },
        NodeReply::Failed(message) => ValidationStep::Reject(
            RpcClientError::FailedToConnect(message),
        ),
        NodeReply::WarmingUp => {
            if checks >= MAX_CHECKS {
                ValidationStep::Reject(
                    RpcClientError::FailedToConnect(
                        "Failed to connect to Bitcoin Core RPC".to_owned(),
                    ),
                )
            } else {
                ValidationStep::Retry(checks + 1)
            }
        },
    }
}

/// The answer that a failed request stands for: the code -28 means that
/// the node is still starting.
pub fn classify_failure(code: Option<i32>, message: String) -> (reply: NodeReply)
    ensures
        reply == (if code == Some(-28i32) {
            NodeReply::WarmingUp
        } else {
            NodeReply::Failed(message)
        }),
{
    match code {
        Some(c) => {
            if c == -28 {
                NodeReply::WarmingUp
            } else {
                NodeReply::Failed(message)
            }
        },
        None => NodeReply::Failed(message),
    }
}

/// Whether an error of the node means that what was asked for does not
/// exist: the code -8, the code -5 with a message about a missing
/// transaction, or a message that ends with `not found`.
pub open spec fn means_absent(code: i32, message: Seq<char>) -> bool {
    code == -8 || (code == -5 && starts_with(
        message,
        "No such mempool or blockchain transaction"@,
    )) || ends_with(message, "not found"@)
}

pub fn into_option(code: i32, message: &str) -> (absent: bool)
    ensures
        absent == means_absent(code, message@),
{
    let v = chars_of(message);
    code == -8 || (code == -5 && has_prefix(&v, "No such mempool or blockchain transaction"))
        || has_suffix(&v, "not found")
}

} // verus!
