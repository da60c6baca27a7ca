//! The client.

use crate::crypto::{
    blake2b_256, ecdsa_signature, is_private_key, is_uncompressed_point, key_in, read_key,
    uncompressed_point, KeyError,
};
use crate::deploy::{
    phlo_limit, phlo_limit_for, projection, sign_deploy, signed_with, signs, timestamp_at, timestamp_of,
    unsigned_deploy, valid_after, valid_after_block, wire_bytes, DeployData, DeployView,
};
use crate::error::ApiError;
use crate::text::{decimal, natural_text};
use vstd::prelude::*;

verus! {

/// A client of a node: the private key that it signs deploys with, and where the node is.
pub struct F1r3flyApi<'a> {
    signing_key: Vec<u8>,
    node_host: &'a str,
    grpc_port: u16,
}

/// The mathematical value of a [`F1r3flyApi`].
pub struct ApiView {
    pub signing_key: Seq<u8>,
    pub node_host: Seq<char>,
    pub grpc_port: u16,
}

impl<'a> View for F1r3flyApi<'a> {
    type V = ApiView;

    closed spec fn view(&self) -> ApiView {
        ApiView {
            signing_key: self.signing_key@,
            node_host: self.node_host@,
            grpc_port: self.grpc_port,
        }
    }
}

/// Where a port of a node is reached.
pub open spec fn base_chars(host: Seq<char>, port: u16) -> Seq<char> {
    "http://"@ + host + ":"@ + decimal(port as nat) + "/"@
}

/// The signed message of a deploy, if the key gives a signature.
pub open spec fn deploy_view(
    key: Seq<u8>,
    rho_code: Seq<char>,
    use_bigger_phlo_price: bool,
    language: Seq<char>,
    valid_after_block_number: i64,
    now_millis: u128,
) -> Option<DeployView> {
    signed_with(
        key,
        projection(
            rho_code,
            timestamp_at(now_millis),
            phlo_limit_for(use_bigger_phlo_price),
            valid_after_block_number,
            language,
        ),
    )
}

impl<'a> F1r3flyApi<'a> {
    #[verifier::type_invariant]
    spec fn holds_a_key(self) -> bool {
        is_private_key(self.signing_key@)
    }

    /// A client with a private key in hexadecimal, for the node at a host and a port.
    pub fn new(signing_key: &str, node_host: &'a str, grpc_port: u16) -> (res: Self)
        requires
            key_in(signing_key@) is Ok,
        ensures
            res@ == (ApiView {
                signing_key: key_in(signing_key@)->Ok_0,
                node_host: node_host@,
                grpc_port,
            }),
    {
        match read_key(signing_key) {
            Ok(key) => F1r3flyApi { signing_key: key, node_host, grpc_port },
            Err(_) => vstd::pervasive::unreached(),
        }
    }

    /// A client with a private key in hexadecimal, where the text is one.
    pub fn try_new(signing_key: &str, node_host: &'a str, grpc_port: u16) -> (res: Result<
        Self,
        KeyError,
    >)
        ensures
            match key_in(signing_key@) {
                Ok(key) => res is Ok && res->Ok_0@ == (ApiView {
                    signing_key: key,
                    node_host: node_host@,
                    grpc_port,
                }),
                Err(e) => res is Err && res->Err_0 == e,
            },
    {
        match read_key(signing_key) {
            Ok(key) => Ok(F1r3flyApi { signing_key: key, node_host, grpc_port }),
            Err(e) => Err(e),
        }
    }

    /// Builds and signs the message that carries a deploy, at a time in milliseconds since the
    /// epoch. There is none where the key gives no signature.
    pub fn build_deploy_msg(
        &self,
        code: &str,
        phlo_limit: i64,
        language: &str,
        valid_after_block_number: i64,
        now_millis: u128,
    ) -> (res: Option<DeployData>)
        ensures
            match signed_with(
                self@.signing_key,
                projection(
                    code@,
                    timestamp_at(now_millis),
                    phlo_limit,
                    valid_after_block_number,
                    language@,
                ),
            ) {
                Some(view) => res is Some && res->0@ == view,
                None => res is None,
            },
            res is Some ==> is_uncompressed_point(res->0@.deployer),
            res is Some <==> ecdsa_signature(
                self@.signing_key,
                blake2b_256(
                    wire_bytes(
                        (DeployView {
                            deployer: seq![],
                            term: code@,
                            timestamp: timestamp_at(now_millis),
                            sig: seq![],
                            sig_algorithm: seq![],
                            phlo_price: 1,
                            phlo_limit: phlo_limit,
                            valid_after_block_number: valid_after_block_number,
                            shard_id: "root"@,
                            language: language@,
                        }),
                    ),
                ),
            ) is Some,
            res matches Some(d) ==> {
                &&& d.term@ == code@
                &&& d.language@ == language@
                &&& d.phlo_price == 1
                &&& d.phlo_limit == phlo_limit
                &&& d.valid_after_block_number == valid_after_block_number
                &&& d.shard_id@ == "root"@
                &&& d.sig_algorithm@ == "secp256k1"@
                &&& d.deployer@ == uncompressed_point(self@.signing_key)
                &&& now_millis <= i64::MAX ==> d.timestamp == now_millis
                &&& (now_millis - d.timestamp) % 0x1_0000_0000_0000_0000 == 0
                &&& signs(self@.signing_key, d)
            },
    {
        proof {
            use_type_invariant(self);
        }
        let timestamp: i64 = timestamp_of(now_millis);
        let unsigned = unsigned_deploy(
            code,
            timestamp,
            phlo_limit,
            valid_after_block_number,
            language,
        );
        sign_deploy(&self.signing_key, unsigned)
    }

    /// Builds and signs the message of a deploy that is valid from the current block on, as far as
    /// that is known.
    pub fn deploy_message(
        &self,
        rho_code: &str,
        use_bigger_phlo_price: bool,
        language: &str,
        current_block: &Result<i64, ApiError>,
        now_millis: u128,
    ) -> (res: Option<DeployData>)
        ensures
            match deploy_view(
                self@.signing_key,
                rho_code@,
                use_bigger_phlo_price,
                language@,
                valid_after(*current_block),
                now_millis,
            ) {
                Some(view) => res is Some && res->0@ == view,
                None => res is None,
            },
            res is Some ==> is_uncompressed_point(res->0@.deployer),
            res is Some <==> ecdsa_signature(
                self@.signing_key,
                blake2b_256(
                    wire_bytes(
                        (DeployView {
                            deployer: seq![],
                            term: rho_code@,
                            timestamp: timestamp_at(now_millis),
                            sig: seq![],
                            sig_algorithm: seq![],
                            phlo_price: 1,
                            phlo_limit: if use_bigger_phlo_price {
                                5_000_000_000
                            } else {
                                100_000
                            },
                            valid_after_block_number: match *current_block {
                                Ok(n) => n,
                                Err(_) => 0,
                            },
                            shard_id: "root"@,
                            language: language@,
                        }),
                    ),
                ),
            ) is Some,
            current_block matches Ok(n) ==> (res is Some ==> res->0.valid_after_block_number == n),
            res is Some && current_block is Err ==> res->0.valid_after_block_number == 0,
            res is Some && use_bigger_phlo_price ==> res->0.phlo_limit == 5_000_000_000,
            res is Some && !use_bigger_phlo_price ==> res->0.phlo_limit == 100_000,
            res matches Some(d) ==> {
                &&& d.term@ == rho_code@
                &&& d.language@ == language@
                &&& d.phlo_price == 1
                &&& d.shard_id@ == "root"@
                &&& d.sig_algorithm@ == "secp256k1"@
                &&& d.deployer@ == uncompressed_point(self@.signing_key)
                &&& now_millis <= i64::MAX ==> d.timestamp == now_millis
                &&& (now_millis - d.timestamp) % 0x1_0000_0000_0000_0000 == 0
                &&& signs(self@.signing_key, d)
            },
    {
        self.build_deploy_msg(
            rho_code,
            phlo_limit(use_bigger_phlo_price),
            language,
            valid_after_block(current_block),
            now_millis,
        )
    }

    /// Where the node's services are reached.
    pub fn service_url(&self) -> (res: String)
        ensures
            res@ == base_chars(self@.node_host, self@.grpc_port),
            res@ == "http://"@ + self@.node_host + ":"@ + decimal(self@.grpc_port as nat) + "/"@,
    {
        self.base_url(self.grpc_port)
    }

    /// The port of the node's HTTP interface, next to that of its services.
    pub fn http_port(&self) -> (res: u16)
        requires
            self@.grpc_port < u16::MAX,
        ensures
            res == self@.grpc_port + 1,
    {
        self.grpc_port + 1
    }

    /// The port of the node's services.
    pub fn grpc_port(&self) -> (res: u16)
        ensures
            res == self@.grpc_port,
    {
        self.grpc_port
    }

    /// Where a deploy is looked up.
    pub fn deploy_url(&self, http_port: u16, deploy_id: &str) -> (res: String)
        ensures
            res@ == base_chars(self@.node_host, http_port) + "api/deploy/"@ + deploy_id@,
            res@ == "http://"@ + self@.node_host + ":"@ + decimal(http_port as nat) + "/"@
                + "api/deploy/"@ + deploy_id@,
    {
        let mut url = self.base_url(http_port);
        url.append("api/deploy/");
        url.append(deploy_id);
        url
    }

    /// Where a block is looked up.
    pub fn block_url(&self, http_port: u16, block_hash: &str) -> (res: String)
        ensures
            res@ == base_chars(self@.node_host, http_port) + "api/block/"@ + block_hash@,
            res@ == "http://"@ + self@.node_host + ":"@ + decimal(http_port as nat) + "/"@
                + "api/block/"@ + block_hash@,
    {
        let mut url = self.base_url(http_port);
        url.append("api/block/");
        url.append(block_hash);
        url
    }

    /// Where data at a name is asked for.
    pub fn data_at_name_url(&self, http_port: u16) -> (res: String)
        ensures
            res@ == base_chars(self@.node_host, http_port) + "api/data-at-name"@,
            res@ == "http://"@ + self@.node_host + ":"@ + decimal(http_port as nat) + "/"@
                + "api/data-at-name"@,
    {
        let mut url = self.base_url(http_port);
        url.append("api/data-at-name");
        url
    }

    /// Where a port of the node is reached.
    fn base_url(&self, port: u16) -> (res: String)
        ensures
            res@ == base_chars(self@.node_host, port),
    {
        let mut url = "http://".to_string();
        url.append(self.node_host);
        url.append(":");
        url.append(natural_text(port as u64).as_str());
        url.append("/");
        url
    }
}

/// Every deploy message of which the current block is known is valid from that block on, whatever
/// it carries and however much phlo it may use; one of which it is not known is valid from the
/// beginning.
pub proof fn lemma_message_is_valid_from_the_current_block(
    key: Seq<u8>,
    rho_code: Seq<char>,
    use_bigger_phlo_price: bool,
    language: Seq<char>,
    current_block: Result<i64, ApiError>,
    now_millis: u128,
)
    ensures
        deploy_view(
            key,
            rho_code,
            use_bigger_phlo_price,
            language,
            valid_after(current_block),
            now_millis,
        ) matches Some(d) ==> {
            &&& current_block matches Ok(n) ==> d.valid_after_block_number == n
            &&& current_block is Err ==> d.valid_after_block_number == 0
        },
{
}

/// The option for more phlo changes the limit of the message, and what depends on it by the
/// signature, and nothing else.
pub proof fn lemma_phlo_option_changes_the_limit_alone(
    key: Seq<u8>,
    rho_code: Seq<char>,
    language: Seq<char>,
    valid_after_block_number: i64,
    now_millis: u128,
)
    ensures
        deploy_view(key, rho_code, true, language, valid_after_block_number, now_millis) matches Some(
            bigger,
        ) ==> deploy_view(key, rho_code, false, language, valid_after_block_number, now_millis)
            matches Some(smaller) ==> {
            &&& bigger.phlo_limit == 5_000_000_000
            &&& smaller.phlo_limit == 100_000
            &&& bigger == (DeployView { phlo_limit: 5_000_000_000, sig: bigger.sig, ..smaller })
        },
{
}

} // verus!
