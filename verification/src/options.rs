use crate::settings::{Chain, Settings};
use vstd::prelude::*;
use vstd::std_specs::convert::FromSpecImpl;

verus! {

/// How the indexer proves to the node who it is.
#[derive(Debug, PartialEq, Eq)]
pub enum RpcAuth {
    /// No authentication.
    Anonymous,
    UserPass(String, String),
    CookieFile(String),
}

pub enum RpcAuthView {
    Anonymous,
    UserPass(Seq<char>, Seq<char>),
    CookieFile(Seq<char>),
}

impl View for RpcAuth {
    type V = RpcAuthView;

    open spec fn view(&self) -> RpcAuthView {
        match self {
            RpcAuth::Anonymous => RpcAuthView::Anonymous,
            RpcAuth::UserPass(user, pass) => RpcAuthView::UserPass(user@, pass@),
            RpcAuth::CookieFile(path) => RpcAuthView::CookieFile(path@),
        }
    }
}

/// The options with which the indexer is started.
#[derive(Debug, PartialEq, Eq)]
pub struct Options {
    pub bitcoin_rpc_password: Option<String>,
    pub bitcoin_rpc_url: String,
    pub bitcoin_rpc_username: Option<String>,
    pub bitcoin_rpc_limit: u32,
    pub chain: Chain,
    pub config: Option<String>,
    pub cookie_file: Option<String>,
    pub data_dir: String,
    pub no_index_inscriptions: bool,
    pub index_spent_outputs: bool,
    pub index_addresses: bool,
    pub commit_interval: u64,
    pub http_event_destination: Option<String>,
    pub zmq_endpoint: String,
    pub http_listen: String,
    pub csp_origin: Option<String>,
    pub decompress: bool,
    pub main_loop_interval: u64,
    pub max_recoverable_reorg_depth: u64,
}

/// What the HTTP server needs of the options.
#[derive(Debug, PartialEq, Eq)]
pub struct ServerConfig {
    pub chain: Chain,
    pub csp_origin: Option<String>,
    pub decompress: bool,
    pub http_listen: String,
    pub bitcoin_rpc_url: String,
    pub bitcoin_rpc_auth: RpcAuth,
}

impl Options {
    /// How to authenticate to the node: with the cookie file if one is
    /// named, else with the user name, and the password or an empty one, if
    /// a user name is given, else not at all.
    pub open spec fn spec_auth(self) -> RpcAuthView {
        if self.cookie_file.is_some() {
            RpcAuthView::CookieFile(self.cookie_file.unwrap()@)
        } else if self.bitcoin_rpc_username.is_some() {
            RpcAuthView::UserPass(
                self.bitcoin_rpc_username.unwrap()@,
                match self.bitcoin_rpc_password {
                    Some(p) => p@,
                    None => Seq::empty(),
                },
            )
        } else {
            RpcAuthView::Anonymous
        }
    }

    pub fn get_bitcoin_rpc_auth(&self) -> (auth: RpcAuth)
        ensures
            auth@ == self.spec_auth(),
    {
        match &self.cookie_file {
            Some(cookie_file) => RpcAuth::CookieFile(cookie_file.clone()),
            None => match &self.bitcoin_rpc_username {
                Some(user) => {
                    let password = match &self.bitcoin_rpc_password {
                        Some(p) => p.clone(),
                        None => String::new(),
                    };
                    RpcAuth::UserPass(user.clone(), password)
                },
                None => RpcAuth::Anonymous,
            },
        }
    }

    /// The settings of the indexing engine that the options ask for.
    pub fn settings(&self) -> (s: Settings)
        ensures
            s == (Settings {
                chain: self.chain,
                no_index_inscriptions: self.no_index_inscriptions,
                index_spent_outputs: self.index_spent_outputs,
                index_addresses: self.index_addresses,
                commit_interval: self.commit_interval,
                main_loop_interval: self.main_loop_interval,
                max_recoverable_reorg_depth: self.max_recoverable_reorg_depth,
            }),
    {
        Settings {
            chain: self.chain,
            no_index_inscriptions: self.no_index_inscriptions,
            index_spent_outputs: self.index_spent_outputs,
            index_addresses: self.index_addresses,
            commit_interval: self.commit_interval,
            main_loop_interval: self.main_loop_interval,
            max_recoverable_reorg_depth: self.max_recoverable_reorg_depth,
        }
    }

    /// What the HTTP server needs of the options.
    pub fn server_config(&self) -> (c: ServerConfig)
        ensures
            c.chain == self.chain,
            c.decompress == self.decompress,
            c.http_listen@ == self.http_listen@,
            c.bitcoin_rpc_url@ == self.bitcoin_rpc_url@,
            c.bitcoin_rpc_auth@ == self.spec_auth(),
            c.csp_origin == self.csp_origin,
    {
        ServerConfig {
            chain: self.chain,
            csp_origin: match &self.csp_origin {
                Some(o) => Some(o.clone()),
                None => None,
            },
            decompress: self.decompress,
            http_listen: self.http_listen.clone(),
            bitcoin_rpc_url: self.bitcoin_rpc_url.clone(),
            bitcoin_rpc_auth: self.get_bitcoin_rpc_auth(),
        }
    }
}

impl From<Options> for Settings {
    fn from(options: Options) -> (s: Self) {
        options.settings()
    }
}

impl FromSpecImpl<Options> for Settings {
    open spec fn obeys_from_spec() -> bool {
        true
    }

    open spec fn from_spec(options: Options) -> Self {
        Settings {
            chain: options.chain,
            no_index_inscriptions: options.no_index_inscriptions,
            index_spent_outputs: options.index_spent_outputs,
            index_addresses: options.index_addresses,
            commit_interval: options.commit_interval,
            main_loop_interval: options.main_loop_interval,
            max_recoverable_reorg_depth: options.max_recoverable_reorg_depth,
        }
    }
}

} // verus!
