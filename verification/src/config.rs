//! What the orchestrator was started with.

use std::sync::Arc;
use vstd::prelude::*;
use vstd::string::*;
use crate::failure::Failure;
use crate::provision::authentik::AuthentikClient;
use crate::provision::bao::BaoClient;
use crate::provision::litellm::LiteLlmClient;
use crate::proxy::ProxyConfig;
use crate::text;

verus! {

/// The configuration of the orchestrator, which does not change while it runs.
#[derive(Debug)]
pub struct OrchestratorConfig {
    /// Address at which it listens.
    pub bind: String,
    /// Directory of the fleet's manifest.
    pub fleet_dir: String,
    /// Directory of the claws' state.
    pub state_dir: String,
    /// Which hosts are which.
    pub proxy: ProxyConfig,
    /// Address of the MCP hub, written into every claw's configuration.
    pub mcp_server_url: String,
    /// Name of the MCP hub, which becomes the prefix of its tools.
    pub mcp_server_name: String,
    /// What stands in a configuration until the first bearer is rotated in.
    pub mcp_bearer_placeholder: String,
    /// Seconds between two polls of the costs.
    pub cost_poll_interval_secs: u64,
    /// Network that the claws join.
    pub claws_network: String,
    /// Address under which the repository shows the files of the manifest.
    pub repo_blob_base: Option<String>,
    pub default_image: Option<String>,
    pub default_mem_limit_bytes: Option<i64>,
    /// CPU limit in billionths of a core.
    pub default_cpu_limit: Option<i64>,
    pub default_restart: Option<String>,
    pub default_log_max_size: Option<String>,
    pub default_log_max_file: Option<u32>,
}

impl OrchestratorConfig {
    /// The same configuration, to be shared.
    pub fn into_shared(self) -> (r: Arc<Self>)
        ensures
            *r == self,
    {
        Arc::new(self)
    }
}

// ---- provisioning -----------------------------------------------------

/// What the provisioning of tenants can be set up with.
#[derive(Debug)]
pub struct BootstrapArgs {
    pub bao_url: Option<String>,
    pub bao_token: Option<String>,
    pub bao_mount: String,
    /// The secret with the model gateway's master key.
    pub bao_litellm_key_path: String,
    pub litellm_url: Option<String>,
    /// The secret with the identity provider's token.
    pub bao_authentik_token_path: String,
    pub authentik_url: Option<String>,
    /// Name of the provider after which the providers of tenants are made.
    pub authentik_template: String,
}

/// The clients that provisioning needs.
#[derive(Debug)]
pub struct ProvisionDeps {
    pub bao: BaoClient,
    pub litellm: LiteLlmClient,
    pub authentik: AuthentikClient,
    pub authentik_template_name: String,
    pub state_dir: String,
}

impl BootstrapArgs {
    /// Every address and the store's token are given.
    pub open spec fn complete(self) -> bool {
        &&& self.bao_url is Some
        &&& self.bao_token is Some
        &&& self.litellm_url is Some
        &&& self.authentik_url is Some
    }

    /// The client of the secret store, where provisioning can be set up at all.
    pub fn bao_client(&self) -> (r: Option<BaoClient>)
        ensures
            match r {
                Some(bao) => {
                    &&& self.complete()
                    &&& bao.base_url@ == text::strip_back(
                        self.bao_url->0@,
                        text::CharClass::Exactly('/'),
                    )
                    &&& bao.token@ == self.bao_token->0@
                    &&& bao.kv_mount@ == self.bao_mount@
                },
                None => !self.complete(),
            },
    {
        match (&self.bao_url, &self.bao_token, &self.litellm_url, &self.authentik_url) {
            (Some(url), Some(token), Some(_), Some(_)) => Some(
                BaoClient::new(url.as_str(), token.as_str()).with_mount(self.bao_mount.as_str()),
            ),
            _ => None,
        }
    }

    /// The clients, once the store was asked for the master key and the token;
    /// none where an address is missing or the store refused either.
    pub fn deps(
        &self,
        bao: BaoClient,
        litellm_master: Result<String, Failure>,
        authentik_token: Result<String, Failure>,
        state_dir: &str,
    ) -> (r: Option<ProvisionDeps>)
        ensures
            match r {
                Some(deps) => {
                    &&& self.complete()
                    &&& litellm_master matches Ok(key) && deps.litellm.master_key@ == key@
                    &&& authentik_token matches Ok(token) && deps.authentik.token@ == token@
                    &&& deps.bao == bao
                    &&& deps.litellm.base_url@ == text::strip_back(
                        self.litellm_url->0@,
                        text::CharClass::Exactly('/'),
                    )
                    &&& deps.authentik.base_url@ == text::strip_back(
                        self.authentik_url->0@,
                        text::CharClass::Exactly('/'),
                    )
                    &&& deps.authentik_template_name@ == self.authentik_template@
                    &&& deps.state_dir@ == state_dir@
                },
                None => !self.complete() || litellm_master is Err || authentik_token is Err,
            },
    {
        match (&self.bao_url, &self.bao_token, &self.litellm_url, &self.authentik_url) {
            (Some(_), Some(_), Some(litellm_url), Some(authentik_url)) => {
                match (litellm_master, authentik_token) {
                    (Ok(key), Ok(token)) => Some(
                        ProvisionDeps {
                            bao,
                            litellm: LiteLlmClient::new(litellm_url.as_str(), key.as_str()),
                            authentik: AuthentikClient::new(authentik_url.as_str(), token.as_str()),
                            authentik_template_name: self.authentik_template.clone(),
                            state_dir: state_dir.to_owned(),
                        },
                    ),
                    _ => None,
                }
            },
            _ => None,
        }
    }
}

/// Provisioning is set up where the addresses of all three services and the store's
/// token are given, and with these: every client talks to its own service.
pub proof fn law_clients_talk_to_their_own_services(
    args: BootstrapArgs,
    bao: BaoClient,
    litellm_master: Result<String, Failure>,
    authentik_token: Result<String, Failure>,
    state_dir: &str,
    first: Option<BaoClient>,
    r: Option<ProvisionDeps>,
)
    requires
        call_ensures(BootstrapArgs::bao_client, (&args,), first),
        call_ensures(
            BootstrapArgs::deps,
            (&args, bao, litellm_master, authentik_token, state_dir),
            r,
        ),
    ensures
        first is Some <==> args.bao_url is Some && args.bao_token is Some && args.litellm_url is Some
            && args.authentik_url is Some,
        first matches Some(b) ==> b.base_url@.is_prefix_of(args.bao_url->0@) && b.token@
            == args.bao_token->0@ && b.kv_mount@ == args.bao_mount@,
        r is Some <==> first is Some && litellm_master is Ok && authentik_token is Ok,
        r matches Some(deps) ==> {
            &&& deps.bao == bao
            &&& deps.litellm.base_url@.is_prefix_of(args.litellm_url->0@)
            &&& deps.litellm.master_key@ == litellm_master->Ok_0@
            &&& deps.authentik.base_url@.is_prefix_of(args.authentik_url->0@)
            &&& deps.authentik.token@ == authentik_token->Ok_0@
            &&& deps.authentik_template_name@ == args.authentik_template@
            &&& deps.state_dir@ == state_dir@
        },
{
    if first is Some {
        text::law_stripping(args.bao_url->0@, text::CharClass::Exactly('/'));
        text::law_stripping(args.litellm_url->0@, text::CharClass::Exactly('/'));
        text::law_stripping(args.authentik_url->0@, text::CharClass::Exactly('/'));
    }
}

} // verus!
