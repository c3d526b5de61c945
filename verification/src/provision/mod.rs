//! Provisioning of tenants.
//!
//! A tenant needs a model key, an OAuth2 provider, a JWT role per MCP scope, an
//! identity block at the MCP hub and a bearer that pairs it with the
//! orchestrator. [`Provisioning`] drives these steps: it names the next action,
//! the program carries the action out and reports what came of it. What has
//! been achieved is saved after every step, so that a run that broke off is
//! taken up where it ended.

use vstd::prelude::*;
use vstd::string::*;
use crate::failure::Failure;
use crate::keymap::KeyMap;
use crate::{failure, paths, text, wire};

pub mod authentik;
pub mod bao;
pub mod hub_policy;
pub mod litellm;
pub mod removal;

use authentik::{OAuthProviderCreated, ProviderTemplate};

verus! {

// ---- requests and results ---------------------------------------------

/// What is asked for a tenant.
#[derive(Debug)]
pub struct TenantRequest {
    pub name: String,
    pub display_name: Option<String>,
    pub mcp_scopes: Vec<String>,
    /// Monthly budget in US dollars, in JSON notation.
    pub monthly_budget_usd: String,
    /// The models that may be used; none named means all.
    pub models: Vec<String>,
    /// First user id of the tenant at the hub.
    pub uid_base: u32,
    /// Where the secret store keeps the secrets of tenants.
    pub secret_prefix: String,
}

/// What a request says.
pub struct TenantView {
    pub name: Seq<char>,
    pub display_name: Option<Seq<char>>,
    pub mcp_scopes: Seq<Seq<char>>,
    pub monthly_budget_usd: Seq<char>,
    pub models: Seq<Seq<char>>,
    pub uid_base: nat,
    pub secret_prefix: Seq<char>,
}

impl View for TenantRequest {
    type V = TenantView;

    open spec fn view(&self) -> TenantView {
        TenantView {
            name: self.name@,
            display_name: text::opt_text(self.display_name),
            mcp_scopes: text::texts(self.mcp_scopes@),
            monthly_budget_usd: self.monthly_budget_usd@,
            models: text::texts(self.models@),
            uid_base: self.uid_base as nat,
            secret_prefix: self.secret_prefix@,
        }
    }
}

/// The budget of a tenant for whom none is asked.
pub fn default_budget() -> (r: String)
    ensures
        r@ == "100.0"@,
{
    "100.0".to_owned()
}

/// The place of secrets where none is asked for.
pub fn default_secret_prefix() -> (r: String)
    ensures
        r@ == "services"@,
{
    "services".to_owned()
}

/// What has been achieved for a tenant.
#[derive(Debug)]
pub struct TenantState {
    pub litellm_key_minted: bool,
    pub litellm_secret_written: bool,
    pub authentik_provider_created: Option<i64>,
    pub authentik_secret_written: bool,
    pub jwt_roles_created: Vec<String>,
    pub orchestrator_bearer_generated: bool,
}

/// What a state says.
pub struct StateView {
    pub litellm_key_minted: bool,
    pub litellm_secret_written: bool,
    pub authentik_provider_created: Option<i64>,
    pub authentik_secret_written: bool,
    pub jwt_roles_created: Seq<Seq<char>>,
    pub orchestrator_bearer_generated: bool,
}

impl View for TenantState {
    type V = StateView;

    open spec fn view(&self) -> StateView {
        StateView {
            litellm_key_minted: self.litellm_key_minted,
            litellm_secret_written: self.litellm_secret_written,
            authentik_provider_created: self.authentik_provider_created,
            authentik_secret_written: self.authentik_secret_written,
            jwt_roles_created: text::texts(self.jwt_roles_created@),
            orchestrator_bearer_generated: self.orchestrator_bearer_generated,
        }
    }
}

/// The state in which nothing has been achieved.
pub open spec fn nothing_achieved() -> StateView {
    StateView {
        litellm_key_minted: false,
        litellm_secret_written: false,
        authentik_provider_created: None,
        authentik_secret_written: false,
        jwt_roles_created: Seq::empty(),
        orchestrator_bearer_generated: false,
    }
}

impl Default for TenantState {
    /// Nothing has been achieved.
    fn default() -> (r: Self)
        ensures
            r@ == nothing_achieved(),
    {
        let r = TenantState {
            litellm_key_minted: false,
            litellm_secret_written: false,
            authentik_provider_created: None,
            authentik_secret_written: false,
            jwt_roles_created: Vec::new(),
            orchestrator_bearer_generated: false,
        };
        assert(r@.jwt_roles_created =~= Seq::<Seq<char>>::empty());
        r
    }
}

/// Where the files of a tenant are kept.
pub open spec fn tenant_dir(state_dir: Seq<char>, name: Seq<char>) -> Seq<char> {
    paths::joined(paths::joined(state_dir, "tenants"@), name)
}

/// Where the state of a tenant is kept.
pub open spec fn state_path(state_dir: Seq<char>, name: Seq<char>) -> Seq<char> {
    paths::joined(tenant_dir(state_dir, name), "state.json"@)
}

/// Where the bearer of a tenant is kept.
pub open spec fn bearer_path(state_dir: Seq<char>, name: Seq<char>) -> Seq<char> {
    paths::joined(tenant_dir(state_dir, name), "bearer.txt"@)
}

fn tenant_file(state_dir: &str, name: &str, file: &str) -> (r: String)
    ensures
        r@ == paths::joined(tenant_dir(state_dir@, name@), file@),
{
    let tenants = paths::join(state_dir, "tenants");
    let dir = paths::join(tenants.as_str(), name);
    paths::join(dir.as_str(), file)
}

impl TenantState {
    /// The file that keeps the state of a tenant.
    pub fn path(state_dir: &str, name: &str) -> (r: String)
        ensures
            r@ == state_path(state_dir@, name@),
    {
        tenant_file(state_dir, name, "state.json")
    }

    /// The state that a file gave: nothing achieved where the file is missing
    /// or cannot be read.
    pub fn load(read: Option<TenantState>) -> (r: TenantState)
        ensures
            read matches Some(s) ==> r == s,
            read is None ==> r@ == nothing_achieved(),
    {
        match read {
            Some(s) => s,
            None => TenantState::default(),
        }
    }

    /// A copy of the state.
    pub fn duplicate(&self) -> (r: TenantState)
        ensures
            r@ == self@,
    {
        TenantState {
            litellm_key_minted: self.litellm_key_minted,
            litellm_secret_written: self.litellm_secret_written,
            authentik_provider_created: self.authentik_provider_created,
            authentik_secret_written: self.authentik_secret_written,
            jwt_roles_created: text::copy_texts(&self.jwt_roles_created),
            orchestrator_bearer_generated: self.orchestrator_bearer_generated,
        }
    }
}

/// What a successful run hands to the operator.
#[derive(Debug)]
pub struct TenantProvisioned {
    pub name: String,
    pub provider_pk: i64,
    pub paired_bearer: String,
    /// The YAML fragment to append under `identities:` in the hub's
    /// `policy.yaml`.
    pub hub_policy_snippet: String,
    pub steps_completed: Vec<String>,
}

/// What the result of a run says.
pub struct ProvisionedView {
    pub name: Seq<char>,
    pub provider_pk: i64,
    pub paired_bearer: Seq<char>,
    pub hub_policy_snippet: Seq<char>,
    pub steps_completed: Seq<Seq<char>>,
}

impl View for TenantProvisioned {
    type V = ProvisionedView;

    open spec fn view(&self) -> ProvisionedView {
        ProvisionedView {
            name: self.name@,
            provider_pk: self.provider_pk,
            paired_bearer: self.paired_bearer@,
            hub_policy_snippet: self.hub_policy_snippet@,
            steps_completed: text::texts(self.steps_completed@),
        }
    }
}

// ---- actions and events -----------------------------------------------

/// What a provisioning run asks the program to do.
pub enum Action {
    /// Read one field of a secret; answered by a text.
    ReadField { path: String, field: String },
    /// Have a model key generated; answered by a text.
    MintKey { tenant: String, models: Vec<String>, monthly_budget_usd: String },
    /// Write a secret.
    PutSecret { path: String, fields: KeyMap<String> },
    /// Look the template provider up; answered by a template.
    FetchTemplate { name: String },
    /// Create a provider and its application; answered by what was created.
    CreateOauth { tenant: String, template: ProviderTemplate },
    /// Create or update a JWT role.
    UpsertRole {
        role: String,
        bound_audiences: Vec<String>,
        policies: Vec<String>,
        user_claim: String,
        ttl_seconds: u64,
    },
    /// Draw a fresh bearer; answered by a text.
    DrawBearer,
    /// Read the bearer that a file keeps; answered by a text.
    ReadBearer { path: String },
    /// Write the bearer into a file.
    WriteBearer { path: String, bearer: String },
    /// Save the state.
    SaveState { path: String, state: TenantState },
    /// The tenant is provisioned.
    Finish(TenantProvisioned),
    /// The run has failed.
    GiveUp(Failure),
}

/// What an action says.
pub enum ActionView {
    ReadField { path: Seq<char>, field: Seq<char> },
    MintKey { tenant: Seq<char>, models: Seq<Seq<char>>, monthly_budget_usd: Seq<char> },
    PutSecret { path: Seq<char>, fields: Map<Seq<char>, Seq<char>> },
    FetchTemplate { name: Seq<char> },
    CreateOauth { tenant: Seq<char>, template: authentik::TemplateView },
    UpsertRole {
        role: Seq<char>,
        bound_audiences: Seq<Seq<char>>,
        policies: Seq<Seq<char>>,
        user_claim: Seq<char>,
        ttl_seconds: nat,
    },
    DrawBearer,
    ReadBearer { path: Seq<char> },
    WriteBearer { path: Seq<char>, bearer: Seq<char> },
    SaveState { path: Seq<char>, state: StateView },
    Finish(ProvisionedView),
    GiveUp(failure::FailureView),
}

impl View for Action {
    type V = ActionView;

    open spec fn view(&self) -> ActionView {
        match *self {
            Action::ReadField { path, field } => ActionView::ReadField {
                path: path@,
                field: field@,
            },
            Action::MintKey { tenant, models, monthly_budget_usd } => ActionView::MintKey {
                tenant: tenant@,
                models: text::texts(models@),
                monthly_budget_usd: monthly_budget_usd@,
            },
            Action::PutSecret { path, fields } => ActionView::PutSecret {
                path: path@,
                fields: wire::text_map(fields@),
            },
            Action::FetchTemplate { name } => ActionView::FetchTemplate { name: name@ },
            Action::CreateOauth { tenant, template } => ActionView::CreateOauth {
                tenant: tenant@,
                template: template@,
            },
            Action::UpsertRole {
                role,
                bound_audiences,
                policies,
                user_claim,
                ttl_seconds,
            } => ActionView::UpsertRole {
                role: role@,
                bound_audiences: text::texts(bound_audiences@),
                policies: text::texts(policies@),
                user_claim: user_claim@,
                ttl_seconds: ttl_seconds as nat,
            },
            Action::DrawBearer => ActionView::DrawBearer,
            Action::ReadBearer { path } => ActionView::ReadBearer { path: path@ },
            Action::WriteBearer { path, bearer } => ActionView::WriteBearer {
                path: path@,
                bearer: bearer@,
            },
            Action::SaveState { path, state } => ActionView::SaveState {
                path: path@,
                state: state@,
            },
            Action::Finish(done) => ActionView::Finish(done@),
            Action::GiveUp(f) => ActionView::GiveUp(f@),
        }
    }
}

/// What the program reports of an action.
pub enum Event {
    Done,
    Text(String),
    Template(ProviderTemplate),
    Created(OAuthProviderCreated),
    Failed(Failure),
}

/// What an event says.
pub enum EventView {
    Done,
    Text(Seq<char>),
    Template(authentik::TemplateView),
    Created(authentik::CreatedView),
    Failed(failure::FailureView),
}

impl View for Event {
    type V = EventView;

    open spec fn view(&self) -> EventView {
        match *self {
            Event::Done => EventView::Done,
            Event::Text(s) => EventView::Text(s@),
            Event::Template(t) => EventView::Template(t@),
            Event::Created(c) => EventView::Created(c@),
            Event::Failed(f) => EventView::Failed(f@),
        }
    }
}

/// What a run waits for.
#[derive(Clone, Copy, PartialEq, Eq, Structural)]
pub enum Stage {
    /// The key that was minted and stored earlier.
    KeyRead,
    /// A new key.
    KeyMinted,
    /// The state that notes the new key.
    KeyNoted,
    /// The key in the secret store.
    KeyStored,
    /// The state that notes the stored key.
    KeyStoredNoted,
    /// The template provider.
    TemplateFetched,
    /// The tenant's provider.
    ProviderCreated,
    /// The provider's secret in the secret store.
    SecretStored,
    /// The state that notes the provider.
    ProviderNoted,
    /// The role of the scope at this place.
    RoleUpserted(usize),
    /// The state that notes this role.
    RoleNoted(usize),
    /// The bearer that was generated earlier.
    BearerRead,
    /// A fresh bearer.
    BearerDrawn,
    /// The bearer's file.
    BearerWritten,
    /// The state that notes the bearer.
    BearerNoted,
    /// Nothing: the run is over.
    Over,
}

/// The events that answer the action of a stage.
pub open spec fn answers(stage: Stage, event: EventView) -> bool {
    match stage {
        Stage::KeyRead | Stage::KeyMinted | Stage::BearerRead | Stage::BearerDrawn => event is Text
            || event is Failed,
        Stage::TemplateFetched => event is Template || event is Failed,
        Stage::ProviderCreated => event is Created || event is Failed,
        Stage::Over => false,
        _ => event is Done || event is Failed,
    }
}

// ---- the run ----------------------------------------------------------

/// A provisioning run.
pub struct Provisioning {
    pub request: TenantRequest,
    /// Name of the provider after which the tenant's provider is made.
    pub template_name: String,
    pub state_dir: String,
    pub state: TenantState,
    pub steps: Vec<String>,
    pub stage: Stage,
    /// The model key, once known.
    pub virt_key: String,
    /// The provider, once known.
    pub provider_pk: i64,
    /// The bearer, once known.
    pub bearer: String,
}

/// Where a run stands.
pub struct RunView {
    pub request: TenantView,
    pub template_name: Seq<char>,
    pub state_dir: Seq<char>,
    pub state: StateView,
    pub steps: Seq<Seq<char>>,
    pub stage: Stage,
    pub virt_key: Seq<char>,
    pub provider_pk: i64,
    pub bearer: Seq<char>,
}

impl View for Provisioning {
    type V = RunView;

    open spec fn view(&self) -> RunView {
        RunView {
            request: self.request@,
            template_name: self.template_name@,
            state_dir: self.state_dir@,
            state: self.state@,
            steps: text::texts(self.steps@),
            stage: self.stage,
            virt_key: self.virt_key@,
            provider_pk: self.provider_pk,
            bearer: self.bearer@,
        }
    }
}

/// The JWT role of a scope.
pub open spec fn role_name(scope: Seq<char>, tenant: Seq<char>) -> Seq<char> {
    "mcp-"@ + scope + "-"@ + tenant
}

/// A secret of a tenant.
pub open spec fn secret_path(prefix: Seq<char>, tenant: Seq<char>, leaf: Seq<char>) -> Seq<char> {
    prefix + "/"@ + tenant + leaf
}

impl RunView {
    pub open spec fn stepped(self, step: Seq<char>) -> RunView {
        RunView { steps: self.steps.push(step), ..self }
    }

    pub open spec fn waiting(self, stage: Stage) -> RunView {
        RunView { stage, ..self }
    }

    /// The run is over, with this failure.
    pub open spec fn failing(self, f: failure::FailureView) -> (RunView, ActionView) {
        (self.waiting(Stage::Over), ActionView::GiveUp(f))
    }

    /// The run saves its state before it goes on.
    pub open spec fn saving(self, stage: Stage) -> (RunView, ActionView) {
        (
            self.waiting(stage),
            ActionView::SaveState {
                path: state_path(self.state_dir, self.request.name),
                state: self.state,
            },
        )
    }

    pub open spec fn key_path(self) -> Seq<char> {
        secret_path(self.request.secret_prefix, self.request.name, "/litellm"@)
    }

    pub open spec fn auth_path(self) -> Seq<char> {
        secret_path(self.request.secret_prefix, self.request.name, "/papehouse"@)
    }

    /// The role of the scope at a place.
    pub open spec fn role_at(self, at: int) -> Seq<char> {
        role_name(self.request.mcp_scopes[at], self.request.name)
    }

    /// A model key is read back where one was minted and stored before. One that
    /// was minted and never stored is lost, so that another is minted.
    pub open spec fn seek_key(self) -> (RunView, ActionView) {
        if self.state.litellm_key_minted && self.state.litellm_secret_written {
            (
                self.stepped("litellm:already_minted"@).waiting(Stage::KeyRead),
                ActionView::ReadField { path: self.key_path(), field: "api_key"@ },
            )
        } else {
            (
                self.waiting(Stage::KeyMinted),
                ActionView::MintKey {
                    tenant: self.request.name,
                    models: self.request.models,
                    monthly_budget_usd: self.request.monthly_budget_usd,
                },
            )
        }
    }

    /// The key is stored unless that was done before.
    pub open spec fn store_key(self) -> (RunView, ActionView) {
        if self.state.litellm_secret_written {
            self.stepped("bao:litellm_already_written"@).seek_provider()
        } else {
            (
                self.waiting(Stage::KeyStored),
                ActionView::PutSecret {
                    path: self.key_path(),
                    fields: map!["api_key"@ => self.virt_key],
                },
            )
        }
    }

    /// A provider is made after the template unless that was done before.
    pub open spec fn seek_provider(self) -> (RunView, ActionView) {
        match self.state.authentik_provider_created {
            Some(pk) => (RunView { provider_pk: pk, ..self }).stepped(
                "authentik:already_created"@,
            ).seek_role(0),
            None => (
                self.waiting(Stage::TemplateFetched),
                ActionView::FetchTemplate { name: self.template_name },
            ),
        }
    }

    /// From the scope at `at` on, the next role that has not been created
    /// before is created.
    pub open spec fn seek_role(self, at: int) -> (RunView, ActionView)
        decreases self.request.mcp_scopes.len() - at,
    {
        if at >= self.request.mcp_scopes.len() {
            self.stepped("hub_policy:snippet_generated"@).seek_bearer()
        } else if self.state.jwt_roles_created.contains(self.role_at(at)) {
            self.stepped("jwt:already_created:"@ + self.role_at(at)).seek_role(at + 1)
        } else {
            (
                self.waiting(Stage::RoleUpserted(at as usize)),
                ActionView::UpsertRole {
                    role: self.role_at(at),
                    bound_audiences: seq![authentik::registered_name(self.request.name)],
                    policies: seq![self.role_at(at)],
                    user_claim: "sub"@,
                    ttl_seconds: 3600,
                },
            )
        }
    }

    /// A bearer is drawn unless that was done before; then it is read back.
    pub open spec fn seek_bearer(self) -> (RunView, ActionView) {
        if self.state.orchestrator_bearer_generated {
            (
                self.waiting(Stage::BearerRead),
                ActionView::ReadBearer { path: bearer_path(self.state_dir, self.request.name) },
            )
        } else {
            (self.waiting(Stage::BearerDrawn), ActionView::DrawBearer)
        }
    }

    /// The identity block that the operator has to add at the hub.
    pub open spec fn snippet(self) -> Seq<char> {
        let block = hub_policy::tenant_block(
            self.request.name,
            self.request.uid_base,
            self.request.mcp_scopes,
            self.request.secret_prefix,
        );
        hub_policy::block_yaml(block, hub_policy::quoted_texts(block.allowed_tools))
    }

    pub open spec fn finish(self) -> (RunView, ActionView) {
        (
            self.waiting(Stage::Over),
            ActionView::Finish(
                ProvisionedView {
                    name: self.request.name,
                    provider_pk: self.provider_pk,
                    paired_bearer: self.bearer,
                    hub_policy_snippet: self.snippet(),
                    steps_completed: self.steps,
                },
            ),
        )
    }

    /// The task under which a failure of the awaited action is reported.
    pub open spec fn task(self) -> Option<Seq<char>> {
        match self.stage {
            Stage::KeyMinted => Some("litellm key mint"@),
            Stage::KeyStored => Some("bao kv put litellm"@),
            Stage::TemplateFetched => Some(
                "fetch Authentik template provider "@ + self.template_name,
            ),
            Stage::SecretStored => Some("bao kv put auth"@),
            Stage::RoleUpserted(at) => Some("bao jwt role "@ + self.role_at(at as int)),
            Stage::BearerRead => Some(
                "read existing paired bearer "@ + bearer_path(self.state_dir, self.request.name),
            ),
            _ => None,
        }
    }

    /// The run after an event, and the action that it asks for next.
    pub open spec fn next(self, event: EventView) -> (RunView, ActionView) {
        match event {
            EventView::Failed(f) => match self.task() {
                Some(task) => self.failing(failure::failure_under(f, task)),
                None => self.failing(f),
            },
            EventView::Text(s) => match self.stage {
                Stage::KeyRead => (RunView { virt_key: s, ..self }).store_key(),
                Stage::KeyMinted => (RunView {
                    virt_key: s,
                    state: StateView { litellm_key_minted: true, ..self.state },
                    ..self
                }).saving(Stage::KeyNoted),
                Stage::BearerRead => (RunView { bearer: text::trimmed(s), ..self }).finish(),
                _ => (
                    (RunView { bearer: s, ..self }).waiting(Stage::BearerWritten),
                    ActionView::WriteBearer {
                        path: bearer_path(self.state_dir, self.request.name),
                        bearer: s,
                    },
                ),
            },
            EventView::Template(t) => (
                self.waiting(Stage::ProviderCreated),
                ActionView::CreateOauth { tenant: self.request.name, template: t },
            ),
            EventView::Created(c) => (
                (RunView { provider_pk: c.provider_pk, ..self }).waiting(Stage::SecretStored),
                ActionView::PutSecret {
                    path: self.auth_path(),
                    fields: map!["client_secret"@ => c.client_secret],
                },
            ),
            EventView::Done => match self.stage {
                Stage::KeyNoted => self.stepped("litellm:minted"@).store_key(),
                Stage::KeyStored => (RunView {
                    state: StateView { litellm_secret_written: true, ..self.state },
                    ..self
                }).saving(Stage::KeyStoredNoted),
                Stage::KeyStoredNoted => self.stepped("bao:litellm_written"@).seek_provider(),
                Stage::SecretStored => (RunView {
                    state: StateView {
                        authentik_provider_created: Some(self.provider_pk),
                        authentik_secret_written: true,
                        ..self.state
                    },
                    ..self
                }).saving(Stage::ProviderNoted),
                Stage::ProviderNoted => self.stepped("authentik:created"@).stepped(
                    "bao:auth_written"@,
                ).seek_role(0),
                Stage::RoleUpserted(at) => (RunView {
                    state: StateView {
                        jwt_roles_created: self.state.jwt_roles_created.push(
                            self.role_at(at as int),
                        ),
                        ..self.state
                    },
                    ..self
                }).saving(Stage::RoleNoted(at)),
                Stage::RoleNoted(at) => self.stepped(
                    "jwt:created:"@ + self.role_at(at as int),
                ).seek_role(at + 1),
                Stage::BearerWritten => (RunView {
                    state: StateView { orchestrator_bearer_generated: true, ..self.state },
                    ..self
                }).saving(Stage::BearerNoted),
                _ => self.stepped("bearer:generated"@).finish(),
            },
        }
    }

    /// The place of a role under way is that of a scope.
    pub open spec fn in_range(self) -> bool {
        match self.stage {
            Stage::RoleUpserted(at) => at < self.request.mcp_scopes.len(),
            Stage::RoleNoted(at) => at < self.request.mcp_scopes.len(),
            _ => true,
        }
    }
}

/// A run that begins for a request, with the state that was saved for the
/// tenant.
pub open spec fn begun(
    request: TenantView,
    state: StateView,
    state_dir: Seq<char>,
    template_name: Seq<char>,
) -> RunView {
    RunView {
        request,
        template_name,
        state_dir,
        state,
        steps: Seq::empty(),
        stage: Stage::Over,
        virt_key: Seq::empty(),
        provider_pk: 0,
        bearer: Seq::empty(),
    }
}

pub(crate) fn role_of(scope: &str, tenant: &str) -> (r: String)
    ensures
        r@ == role_name(scope@, tenant@),
{
    let mut out = "mcp-".to_owned();
    out.append(scope);
    out.append("-");
    out.append(tenant);
    out
}

pub(crate) fn secret_at(prefix: &str, tenant: &str, leaf: &str) -> (r: String)
    ensures
        r@ == secret_path(prefix@, tenant@, leaf@),
{
    let mut out = prefix.to_owned();
    out.append("/");
    out.append(tenant);
    out.append(leaf);
    out
}

fn just(s: String) -> (r: Vec<String>)
    ensures
        text::texts(r@) == seq![s@],
{
    let mut r: Vec<String> = Vec::new();
    r.push(s);
    assert(text::texts(r@) =~= seq![s@]);
    r
}

impl Provisioning {
    fn note_step(&mut self, step: String)
        ensures
            final(self)@ == old(self)@.stepped(step@),
    {
        broadcast use text::lemma_texts_push;

        self.steps.push(step);
    }

    fn save(&mut self, stage: Stage) -> (r: Action)
        ensures
            (final(self)@, r@) == old(self)@.saving(stage),
    {
        self.stage = stage;
        Action::SaveState {
            path: TenantState::path(self.state_dir.as_str(), self.request.name.as_str()),
            state: self.state.duplicate(),
        }
    }

    fn fail(&mut self, f: Failure) -> (r: Action)
        ensures
            (final(self)@, r@) == old(self)@.failing(f@),
    {
        self.stage = Stage::Over;
        Action::GiveUp(f)
    }

    fn key_secret(&self) -> (r: String)
        ensures
            r@ == self@.key_path(),
    {
        secret_at(self.request.secret_prefix.as_str(), self.request.name.as_str(), "/litellm")
    }

    fn role_for(&self, at: usize) -> (r: String)
        requires
            at < self.request.mcp_scopes@.len(),
        ensures
            r@ == self@.role_at(at as int),
    {
        role_of(self.request.mcp_scopes[at].as_str(), self.request.name.as_str())
    }

    fn bearer_file(&self) -> (r: String)
        ensures
            r@ == bearer_path(self@.state_dir, self@.request.name),
    {
        tenant_file(self.state_dir.as_str(), self.request.name.as_str(), "bearer.txt")
    }

    fn seek_key(&mut self) -> (r: Action)
        ensures
            (final(self)@, r@) == old(self)@.seek_key(),
            final(self).in_range(),
    {
        if self.state.litellm_key_minted && self.state.litellm_secret_written {
            self.note_step("litellm:already_minted".to_owned());
            self.stage = Stage::KeyRead;
            Action::ReadField { path: self.key_secret(), field: "api_key".to_owned() }
        } else {
            self.stage = Stage::KeyMinted;
            Action::MintKey {
                tenant: self.request.name.clone(),
                models: text::copy_texts(&self.request.models),
                monthly_budget_usd: self.request.monthly_budget_usd.clone(),
            }
        }
    }

    fn store_key(&mut self) -> (r: Action)
        ensures
            (final(self)@, r@) == old(self)@.store_key(),
            final(self).in_range(),
    {
        if self.state.litellm_secret_written {
            self.note_step("bao:litellm_already_written".to_owned());
            self.seek_provider()
        } else {
            self.stage = Stage::KeyStored;
            Action::PutSecret {
                path: self.key_secret(),
                fields: wire::single("api_key", self.virt_key.clone()),
            }
        }
    }

    fn seek_provider(&mut self) -> (r: Action)
        ensures
            (final(self)@, r@) == old(self)@.seek_provider(),
            final(self).in_range(),
    {
        match self.state.authentik_provider_created {
            Some(pk) => {
                self.provider_pk = pk;
                self.note_step("authentik:already_created".to_owned());
                self.seek_role(0)
            },
            None => {
                self.stage = Stage::TemplateFetched;
                Action::FetchTemplate { name: self.template_name.clone() }
            },
        }
    }

    fn seek_role(&mut self, from: usize) -> (r: Action)
        requires
            from <= old(self).request.mcp_scopes@.len(),
        ensures
            (final(self)@, r@) == old(self)@.seek_role(from as int),
            final(self).in_range(),
    {
        let ghost was = self@;
        let mut at: usize = from;
        while at < self.request.mcp_scopes.len()
            invariant
                at <= self.request.mcp_scopes@.len(),
                was == old(self)@,
                self@.seek_role(at as int) == was.seek_role(from as int),
            decreases self.request.mcp_scopes@.len() - at,
        {
            let role = self.role_for(at);
            if !text::contains_text(&self.state.jwt_roles_created, role.as_str()) {
                self.stage = Stage::RoleUpserted(at);
                return Action::UpsertRole {
                    bound_audiences: just(text::labelled("mcp-", self.request.name.as_str())),
                    policies: just(role.clone()),
                    role,
                    user_claim: "sub".to_owned(),
                    ttl_seconds: 3600,
                };
            }
            self.note_step(text::labelled("jwt:already_created:", role.as_str()));
            at = at + 1;
        }
        self.note_step("hub_policy:snippet_generated".to_owned());
        self.seek_bearer()
    }

    fn seek_bearer(&mut self) -> (r: Action)
        ensures
            (final(self)@, r@) == old(self)@.seek_bearer(),
            final(self).in_range(),
    {
        if self.state.orchestrator_bearer_generated {
            self.stage = Stage::BearerRead;
            Action::ReadBearer { path: self.bearer_file() }
        } else {
            self.stage = Stage::BearerDrawn;
            Action::DrawBearer
        }
    }

    fn finish(&mut self) -> (r: Action)
        ensures
            (final(self)@, r@) == old(self)@.finish(),
    {
        self.stage = Stage::Over;
        let block = hub_policy::build_block(
            self.request.name.as_str(),
            self.request.uid_base,
            self.request.mcp_scopes.as_slice(),
            self.request.secret_prefix.as_str(),
        );
        Action::Finish(
            TenantProvisioned {
                name: self.request.name.clone(),
                provider_pk: self.provider_pk,
                paired_bearer: self.bearer.clone(),
                hub_policy_snippet: block.to_yaml(),
                steps_completed: text::copy_texts(&self.steps),
            },
        )
    }

    fn task(&self) -> (r: Option<String>)
        requires
            self.in_range(),
        ensures
            text::opt_text(r) == self@.task(),
    {
        match self.stage {
            Stage::KeyMinted => Some("litellm key mint".to_owned()),
            Stage::KeyStored => Some("bao kv put litellm".to_owned()),
            Stage::TemplateFetched => Some(
                text::labelled("fetch Authentik template provider ", self.template_name.as_str()),
            ),
            Stage::SecretStored => Some("bao kv put auth".to_owned()),
            Stage::RoleUpserted(at) => Some(text::labelled("bao jwt role ", self.role_for(at).as_str())),
            Stage::BearerRead => Some(
                text::labelled("read existing paired bearer ", self.bearer_file().as_str()),
            ),
            _ => None,
        }
    }

    /// The place of a role under way is that of a scope.
    pub open spec fn in_range(self) -> bool {
        self@.in_range()
    }

    /// Takes the run one step on: from what came of the last action to the
    /// next.
    pub fn step(&mut self, event: Event) -> (r: Action)
        requires
            old(self).in_range(),
            answers(old(self)@.stage, event@),
        ensures
            (final(self)@, r@) == old(self)@.next(event@),
            final(self).in_range(),
            event matches Event::Created(c) ==> (r matches Action::PutSecret { path, fields }
                && fields@.dom() == set!["client_secret"@] && fields@["client_secret"@]@
                == c.client_secret@ && path@ == old(self).request.secret_prefix@ + "/"@
                + old(self).request.name@ + "/papehouse"@),
            event matches Event::Template(t) ==> (r matches Action::CreateOauth { tenant, template }
                && tenant@ == old(self).request.name@ && template == t),
            event matches Event::Text(s) ==> old(self).stage == Stage::BearerDrawn ==> (
            r matches Action::WriteBearer { bearer, .. } && bearer@ == s@ && final(self).bearer@
                == s@),
            event matches Event::Text(s) ==> old(self).stage == Stage::KeyMinted ==> (
            r matches Action::SaveState { state, .. } && state.litellm_key_minted
                && final(self).virt_key@ == s@),
            event matches Event::Failed(f) ==> r is GiveUp,
    {
        broadcast use text::lemma_texts_push;

        match event {
            Event::Failed(f) => match self.task() {
                Some(task) => self.fail(f.under(task)),
                None => self.fail(f),
            },
            Event::Text(s) => match self.stage {
                Stage::KeyRead => {
                    self.virt_key = s;
                    self.store_key()
                },
                Stage::KeyMinted => {
                    self.virt_key = s;
                    self.state.litellm_key_minted = true;
                    self.save(Stage::KeyNoted)
                },
                Stage::BearerRead => {
                    self.bearer = text::trim(s.as_str());
                    self.finish()
                },
                _ => {
                    self.bearer = s.clone();
                    self.stage = Stage::BearerWritten;
                    Action::WriteBearer { path: self.bearer_file(), bearer: s }
                },
            },
            Event::Template(t) => {
                self.stage = Stage::ProviderCreated;
                Action::CreateOauth { tenant: self.request.name.clone(), template: t }
            },
            Event::Created(c) => {
                self.provider_pk = c.provider_pk;
                self.stage = Stage::SecretStored;
                let fields = wire::single("client_secret", c.client_secret);
                assert(fields@.dom() =~= set!["client_secret"@]);
                Action::PutSecret {
                    path: secret_at(
                        self.request.secret_prefix.as_str(),
                        self.request.name.as_str(),
                        "/papehouse",
                    ),
                    fields,
                }
            },
            Event::Done => match self.stage {
                Stage::KeyNoted => {
                    self.note_step("litellm:minted".to_owned());
                    self.store_key()
                },
                Stage::KeyStored => {
                    self.state.litellm_secret_written = true;
                    self.save(Stage::KeyStoredNoted)
                },
                Stage::KeyStoredNoted => {
                    self.note_step("bao:litellm_written".to_owned());
                    self.seek_provider()
                },
                Stage::SecretStored => {
                    self.state.authentik_provider_created = Some(self.provider_pk);
                    self.state.authentik_secret_written = true;
                    self.save(Stage::ProviderNoted)
                },
                Stage::ProviderNoted => {
                    self.note_step("authentik:created".to_owned());
                    self.note_step("bao:auth_written".to_owned());
                    self.seek_role(0)
                },
                Stage::RoleUpserted(at) => {
                    let role = self.role_for(at);
                    self.state.jwt_roles_created.push(role);
                    self.save(Stage::RoleNoted(at))
                },
                Stage::RoleNoted(at) => {
                    let role = self.role_for(at);
                    self.note_step(text::labelled("jwt:created:", role.as_str()));
                    let count: usize = self.request.mcp_scopes.len();
                    assert(at < count);
                    self.seek_role(at + 1)
                },
                Stage::BearerWritten => {
                    self.state.orchestrator_bearer_generated = true;
                    self.save(Stage::BearerNoted)
                },
                _ => {
                    self.note_step("bearer:generated".to_owned());
                    self.finish()
                },
            },
        }
    }
}

/// Begins to provision a tenant, or takes an earlier attempt up where its saved
/// state says that it ended. Gives the run and its first action.
pub fn provision(
    request: TenantRequest,
    state: TenantState,
    state_dir: &str,
    template_name: &str,
) -> (r: (Provisioning, Action))
    ensures
        (r.0@, r.1@) == begun(request@, state@, state_dir@, template_name@).seek_key(),
        r.0.in_range(),
{
    let mut run = Provisioning {
        request,
        template_name: template_name.to_owned(),
        state_dir: state_dir.to_owned(),
        state,
        steps: Vec::new(),
        stage: Stage::Over,
        virt_key: String::new(),
        provider_pk: 0,
        bearer: String::new(),
    };
    assert(run@.steps =~= Seq::<Seq<char>>::empty());
    assert(run@.virt_key =~= Seq::<char>::empty());
    assert(run@.bearer =~= Seq::<char>::empty());
    let first = run.seek_key();
    (run, first)
}

// ---- what holds of every run ------------------------------------------

/// The roles of the scopes before the place `n` have been created.
pub open spec fn roles_up_to(run: RunView, n: int) -> bool {
    forall|j: int|
        0 <= j < n && j < run.request.mcp_scopes.len() ==> run.state.jwt_roles_created.contains(
            #[trigger] run.role_at(j),
        )
}

/// Key and provider are there.
pub open spec fn has_identity(run: RunView) -> bool {
    &&& run.state.litellm_key_minted
    &&& run.state.litellm_secret_written
    &&& run.state.authentik_provider_created == Some(run.provider_pk)
}

/// What a run has achieved when it waits at its stage.
pub open spec fn sound(run: RunView) -> bool {
    let s = run.state;
    let scopes = run.request.mcp_scopes.len() as int;
    match run.stage {
        Stage::KeyRead => s.litellm_key_minted && s.litellm_secret_written,
        Stage::KeyMinted => !(s.litellm_key_minted && s.litellm_secret_written),
        Stage::KeyNoted => s.litellm_key_minted,
        Stage::KeyStored => s.litellm_key_minted && !s.litellm_secret_written,
        Stage::KeyStoredNoted => s.litellm_key_minted && s.litellm_secret_written,
        Stage::TemplateFetched | Stage::ProviderCreated | Stage::SecretStored => {
            &&& s.litellm_key_minted
            &&& s.litellm_secret_written
            &&& s.authentik_provider_created is None
        },
        Stage::ProviderNoted => has_identity(run),
        Stage::RoleUpserted(at) => {
            &&& has_identity(run)
            &&& at < scopes
            &&& roles_up_to(run, at as int)
            &&& !s.jwt_roles_created.contains(run.role_at(at as int))
        },
        Stage::RoleNoted(at) => has_identity(run) && at < scopes && roles_up_to(run, at + 1),
        Stage::BearerRead | Stage::BearerNoted => {
            &&& has_identity(run)
            &&& roles_up_to(run, scopes)
            &&& s.orchestrator_bearer_generated
        },
        Stage::BearerDrawn | Stage::BearerWritten => {
            &&& has_identity(run)
            &&& roles_up_to(run, scopes)
            &&& !s.orchestrator_bearer_generated
        },
        Stage::Over => true,
    }
}

/// The run after a sequence of events.
pub open spec fn after(run: RunView, events: Seq<EventView>) -> RunView
    decreases events.len(),
{
    if events.len() == 0 {
        run
    } else {
        after(run, events.drop_last()).next(events.last()).0
    }
}

/// Every event answers the action that the run had asked for.
pub open spec fn orderly(run: RunView, events: Seq<EventView>) -> bool
    decreases events.len(),
{
    events.len() == 0 || orderly(run, events.drop_last()) && answers(
        after(run, events.drop_last()).stage,
        events.last(),
    )
}

/// What was achieved earlier is still achieved later.
pub open spec fn keeps(earlier: StateView, later: StateView) -> bool {
    &&& earlier.litellm_key_minted ==> later.litellm_key_minted
    &&& earlier.litellm_secret_written ==> later.litellm_secret_written
    &&& earlier.authentik_provider_created is Some ==> later.authentik_provider_created
        == earlier.authentik_provider_created
    &&& earlier.authentik_secret_written ==> later.authentik_secret_written
    &&& earlier.jwt_roles_created.len() <= later.jwt_roles_created.len()
    &&& earlier.jwt_roles_created == later.jwt_roles_created.take(
        earlier.jwt_roles_created.len() as int,
    )
    &&& earlier.orchestrator_bearer_generated ==> later.orchestrator_bearer_generated
}

/// Everything that a request asks for has been achieved.
pub open spec fn complete(request: TenantView, s: StateView) -> bool {
    &&& s.litellm_key_minted
    &&& s.litellm_secret_written
    &&& s.authentik_provider_created is Some
    &&& forall|j: int|
        0 <= j < request.mcp_scopes.len() ==> s.jwt_roles_created.contains(
            role_name(#[trigger] request.mcp_scopes[j], request.name),
        )
    &&& s.orchestrator_bearer_generated
}

/// An action is asked for only where the state does not say that it was done, and
/// what is read back was written.
pub open spec fn still_to_do(action: ActionView, run: RunView) -> bool {
    match action {
        ActionView::MintKey { .. } => !(run.state.litellm_key_minted
            && run.state.litellm_secret_written),
        ActionView::ReadField { .. } => run.state.litellm_key_minted
            && run.state.litellm_secret_written,
        ActionView::ReadBearer { .. } => run.state.orchestrator_bearer_generated,
        ActionView::PutSecret { .. } => if run.stage == Stage::KeyStored {
            !run.state.litellm_secret_written
        } else {
            run.state.authentik_provider_created is None
        },
        ActionView::FetchTemplate { .. } => run.state.authentik_provider_created is None,
        ActionView::CreateOauth { .. } => run.state.authentik_provider_created is None,
        ActionView::UpsertRole { role, .. } => !run.state.jwt_roles_created.contains(role),
        ActionView::DrawBearer => !run.state.orchestrator_bearer_generated,
        ActionView::WriteBearer { .. } => !run.state.orchestrator_bearer_generated,
        _ => true,
    }
}

/// An action that changes nothing outside.
pub open spec fn only_reads(action: ActionView) -> bool {
    action is ReadField || action is ReadBearer || action is Finish || action is GiveUp
}

proof fn lemma_seek_role(run: RunView, at: int)
    requires
        0 <= at <= run.request.mcp_scopes.len(),
        run.request.mcp_scopes.len() <= usize::MAX,
        has_identity(run),
        roles_up_to(run, at),
    ensures
        sound(run.seek_role(at).0),
        run.seek_role(at).0.state == run.state,
        run.seek_role(at).0.request == run.request,
        run.seek_role(at).0.state_dir == run.state_dir,
        still_to_do(run.seek_role(at).1, run.seek_role(at).0),
        !(run.seek_role(at).1 is Finish),
        complete(run.request, run.state) ==> only_reads(run.seek_role(at).1),
    decreases run.request.mcp_scopes.len() - at,
{
    if at >= run.request.mcp_scopes.len() {
        let next = run.stepped("hub_policy:snippet_generated"@);
        assert forall|j: int|
            0 <= j < run.request.mcp_scopes.len() implies next.state.jwt_roles_created.contains(
            #[trigger] next.role_at(j),
        ) by {
            assert(next.role_at(j) == run.role_at(j));
        }
        let settled = next.seek_bearer().0;
        assert forall|j: int|
            0 <= j < run.request.mcp_scopes.len() implies settled.state.jwt_roles_created.contains(
            #[trigger] settled.role_at(j),
        ) by {
            assert(settled.role_at(j) == run.role_at(j));
        }
    } else if run.state.jwt_roles_created.contains(run.role_at(at)) {
        let next = run.stepped("jwt:already_created:"@ + run.role_at(at));
        assert forall|j: int|
            0 <= j < at + 1 && j < run.request.mcp_scopes.len() implies next.state.jwt_roles_created.contains(
        #[trigger] next.role_at(j)) by {
            assert(next.role_at(j) == run.role_at(j));
        }
        lemma_seek_role(next, at + 1);
    } else {
        let next = run.seek_role(at).0;
        assert forall|j: int|
            0 <= j < at && j < run.request.mcp_scopes.len() implies next.state.jwt_roles_created.contains(
        #[trigger] next.role_at(j)) by {
            assert(next.role_at(j) == run.role_at(j));
        }
        assert(next.role_at(at) == run.role_at(at));
        assert(run.role_at(at) == role_name(run.request.mcp_scopes[at], run.request.name));
    }
}

proof fn lemma_seek_provider(run: RunView)
    requires
        run.request.mcp_scopes.len() <= usize::MAX,
        run.state.litellm_key_minted,
        run.state.litellm_secret_written,
    ensures
        sound(run.seek_provider().0),
        run.seek_provider().0.state == run.state,
        run.seek_provider().0.request == run.request,
        run.seek_provider().0.state_dir == run.state_dir,
        still_to_do(run.seek_provider().1, run.seek_provider().0),
        !(run.seek_provider().1 is Finish),
        complete(run.request, run.state) ==> only_reads(run.seek_provider().1),
{
    if let Some(pk) = run.state.authentik_provider_created {
        lemma_seek_role(
            (RunView { provider_pk: pk, ..run }).stepped("authentik:already_created"@),
            0,
        );
    }
}

proof fn lemma_store_key(run: RunView)
    requires
        run.request.mcp_scopes.len() <= usize::MAX,
        run.state.litellm_key_minted,
    ensures
        sound(run.store_key().0),
        run.store_key().0.state == run.state,
        run.store_key().0.request == run.request,
        run.store_key().0.state_dir == run.state_dir,
        still_to_do(run.store_key().1, run.store_key().0),
        !(run.store_key().1 is Finish),
        complete(run.request, run.state) ==> only_reads(run.store_key().1),
{
    if run.state.litellm_secret_written {
        lemma_seek_provider(run.stepped("bao:litellm_already_written"@));
    }
}

proof fn lemma_roles_kept(run: RunView, later: RunView, n: int)
    requires
        roles_up_to(run, n),
        later.request == run.request,
        later.state.jwt_roles_created == run.state.jwt_roles_created,
    ensures
        roles_up_to(later, n),
{
    assert forall|j: int|
        0 <= j < n && j < later.request.mcp_scopes.len() implies later.state.jwt_roles_created.contains(
    #[trigger] later.role_at(j)) by {
        assert(later.role_at(j) == run.role_at(j));
    }
}

proof fn lemma_role_added(run: RunView, at: int)
    requires
        0 <= at < run.request.mcp_scopes.len(),
        roles_up_to(run, at),
    ensures
        ({
            let roles = run.state.jwt_roles_created.push(run.role_at(at));
            forall|j: int|
                0 <= j < at + 1 ==> roles.contains(#[trigger] run.role_at(j))
        }),
{
    let was = run.state.jwt_roles_created;
    let roles = was.push(run.role_at(at));
    assert forall|j: int| 0 <= j < at + 1 implies roles.contains(#[trigger] run.role_at(j)) by {
        if j < at {
            let k = was.index_of(run.role_at(j));
            assert(roles[k] == run.role_at(j));
        } else {
            assert(roles[was.len() as int] == run.role_at(at));
        }
    }
}

/// Every step keeps a run sound, keeps what was achieved, asks for nothing that
/// was done before, and leaves the request alone.
proof fn lemma_step(run: RunView, event: EventView)
    requires
        run.request.mcp_scopes.len() <= usize::MAX,
        sound(run),
        answers(run.stage, event),
    ensures
        sound(run.next(event).0),
        run.next(event).0.request == run.request,
        run.next(event).0.state_dir == run.state_dir,
        keeps(run.state, run.next(event).0.state),
        still_to_do(run.next(event).1, run.next(event).0),
        run.next(event).1 matches ActionView::Finish(out) ==> {
            &&& complete(run.request, run.state)
            &&& run.next(event).0.state == run.state
            &&& run.state.authentik_provider_created == Some(out.provider_pk)
            &&& out.name == run.request.name
            &&& out.hub_policy_snippet == run.snippet()
        },
        complete(run.request, run.state) ==> only_reads(run.next(event).1) && run.next(event).0.state
            == run.state,
{
    let s = run.state;
    let later = run.next(event).0;
    assert(s.jwt_roles_created.take(s.jwt_roles_created.len() as int) =~= s.jwt_roles_created);
    if complete(run.request, s) {
        match run.stage {
            Stage::RoleUpserted(at) => {
                assert(run.role_at(at as int) == role_name(
                    run.request.mcp_scopes[at as int],
                    run.request.name,
                ));
            },
            _ => {},
        }
    }
    if !(event is Failed) {
        match run.stage {
            Stage::KeyRead => {
                lemma_store_key(RunView { virt_key: event->Text_0, ..run });
            },
            Stage::KeyNoted => {
                lemma_store_key(run.stepped("litellm:minted"@));
            },
            Stage::KeyStoredNoted => {
                lemma_seek_provider(run.stepped("bao:litellm_written"@));
            },
            Stage::ProviderNoted => {
                lemma_seek_role(
                    run.stepped("authentik:created"@).stepped("bao:auth_written"@),
                    0,
                );
            },
            Stage::RoleUpserted(at) => {
                lemma_role_added(run, at as int);
                let roles = s.jwt_roles_created.push(run.role_at(at as int));
                assert(roles.take(s.jwt_roles_created.len() as int) =~= s.jwt_roles_created);
                assert forall|j: int|
                    0 <= j < at + 1 && j
                        < later.request.mcp_scopes.len() implies later.state.jwt_roles_created.contains(
                #[trigger] later.role_at(j)) by {
                    assert(later.role_at(j) == run.role_at(j));
                }
            },
            Stage::RoleNoted(at) => {
                let noted = run.stepped("jwt:created:"@ + run.role_at(at as int));
                lemma_roles_kept(run, noted, at + 1);
                lemma_seek_role(noted, at + 1);
            },
            Stage::BearerDrawn | Stage::BearerWritten => {
                lemma_roles_kept(run, later, run.request.mcp_scopes.len() as int);
            },
            Stage::BearerRead | Stage::BearerNoted => {
                assert forall|j: int|
                    0 <= j < run.request.mcp_scopes.len() implies s.jwt_roles_created.contains(
                    role_name(#[trigger] run.request.mcp_scopes[j], run.request.name),
                ) by {
                    assert(s.jwt_roles_created.contains(run.role_at(j)));
                }
            },
            _ => {},
        }
    }
}

/// A run of a request, from its first action on, after a sequence of events.
pub open spec fn run_of(
    request: TenantView,
    state: StateView,
    state_dir: Seq<char>,
    template_name: Seq<char>,
    events: Seq<EventView>,
) -> RunView {
    after(begun(request, state, state_dir, template_name).seek_key().0, events)
}

/// The events of [`run_of`] are orderly.
pub open spec fn orderly_run(
    request: TenantView,
    state: StateView,
    state_dir: Seq<char>,
    template_name: Seq<char>,
    events: Seq<EventView>,
) -> bool {
    orderly(begun(request, state, state_dir, template_name).seek_key().0, events)
}

/// At every point of every run the state says at least what the run relies on,
/// and nothing that was achieved before is ever taken back.
pub proof fn law_runs_keep_what_was_achieved(
    request: TenantView,
    state: StateView,
    state_dir: Seq<char>,
    template_name: Seq<char>,
    events: Seq<EventView>,
)
    requires
        request.mcp_scopes.len() <= usize::MAX,
        orderly_run(request, state, state_dir, template_name, events),
    ensures
        ({
            let run = run_of(request, state, state_dir, template_name, events);
            &&& sound(run)
            &&& run.request == request
            &&& run.state_dir == state_dir
            &&& keeps(state, run.state)
        }),
    decreases events.len(),
{
    if events.len() == 0 {
        assert(state.jwt_roles_created.take(state.jwt_roles_created.len() as int)
            =~= state.jwt_roles_created);
    } else {
        law_runs_keep_what_was_achieved(
            request,
            state,
            state_dir,
            template_name,
            events.drop_last(),
        );
        let run = run_of(request, state, state_dir, template_name, events.drop_last());
        lemma_step(run, events.last());
        let later = run.next(events.last()).0.state.jwt_roles_created;
        let n = state.jwt_roles_created.len() as int;
        assert(later.take(n) =~= later.take(run.state.jwt_roles_created.len() as int).take(n));
    }
}

/// No run asks for anything that the state says was done, nor reads back what it
/// does not say was written: a retry takes up where the attempt before it ended.
pub proof fn law_nothing_is_done_twice(
    request: TenantView,
    state: StateView,
    state_dir: Seq<char>,
    template_name: Seq<char>,
    events: Seq<EventView>,
    event: EventView,
)
    requires
        request.mcp_scopes.len() <= usize::MAX,
        orderly_run(request, state, state_dir, template_name, events.push(event)),
    ensures
        ({
            let first = begun(request, state, state_dir, template_name).seek_key();
            still_to_do(first.1, first.0)
        }),
        ({
            let step = run_of(request, state, state_dir, template_name, events).next(event);
            still_to_do(step.1, step.0)
        }),
{
    assert(events.push(event).drop_last() =~= events);
    law_runs_keep_what_was_achieved(request, state, state_dir, template_name, events);
    lemma_step(run_of(request, state, state_dir, template_name, events), event);
}

/// Whatever was achieved outside is saved before anything else is asked for.
pub proof fn law_success_is_saved_at_once(run: RunView, event: EventView)
    requires
        answers(run.stage, event),
        !(event is Failed),
        run.stage is KeyMinted || run.stage is KeyStored || run.stage is SecretStored
            || run.stage is RoleUpserted || run.stage is BearerWritten,
    ensures
        run.next(event).1 == (ActionView::SaveState {
            path: state_path(run.state_dir, run.request.name),
            state: run.next(event).0.state,
        }),
        match run.stage {
            Stage::KeyMinted => run.next(event).0.state.litellm_key_minted,
            Stage::KeyStored => run.next(event).0.state.litellm_secret_written,
            Stage::SecretStored => run.next(event).0.state.authentik_provider_created == Some(
                run.provider_pk,
            ) && run.next(event).0.state.authentik_secret_written,
            Stage::RoleUpserted(at) => run.next(event).0.state.jwt_roles_created
                == run.state.jwt_roles_created.push(run.role_at(at as int)),
            _ => run.next(event).0.state.orchestrator_bearer_generated,
        },
{
}

/// A run ends well only where everything that was asked for has been achieved.
pub proof fn law_finished_tenant_is_complete(
    request: TenantView,
    state: StateView,
    state_dir: Seq<char>,
    template_name: Seq<char>,
    events: Seq<EventView>,
    event: EventView,
    out: ProvisionedView,
)
    requires
        request.mcp_scopes.len() <= usize::MAX,
        orderly_run(request, state, state_dir, template_name, events.push(event)),
        run_of(request, state, state_dir, template_name, events).next(event).1
            == ActionView::Finish(out),
    ensures
        ({
            let run = run_of(request, state, state_dir, template_name, events);
            &&& complete(request, run.state)
            &&& run.state.authentik_provider_created == Some(out.provider_pk)
            &&& out.name == request.name
            &&& out.hub_policy_snippet == run.snippet()
        }),
{
    assert(events.push(event).drop_last() =~= events);
    law_runs_keep_what_was_achieved(request, state, state_dir, template_name, events);
    lemma_step(run_of(request, state, state_dir, template_name, events), event);
}

/// Where everything has been achieved before, a run only reads: it mints,
/// writes, creates and saves nothing, and its state stays as it was.
pub proof fn law_complete_tenant_is_only_read(
    request: TenantView,
    state: StateView,
    state_dir: Seq<char>,
    template_name: Seq<char>,
    events: Seq<EventView>,
    event: EventView,
)
    requires
        request.mcp_scopes.len() <= usize::MAX,
        complete(request, state),
        orderly_run(request, state, state_dir, template_name, events.push(event)),
    ensures
        only_reads(begun(request, state, state_dir, template_name).seek_key().1),
        only_reads(run_of(request, state, state_dir, template_name, events).next(event).1),
        run_of(request, state, state_dir, template_name, events.push(event)).state == state,
{
    assert(events.push(event).drop_last() =~= events);
    lemma_complete_state_stays(request, state, state_dir, template_name, events);
    law_runs_keep_what_was_achieved(request, state, state_dir, template_name, events);
    lemma_step(run_of(request, state, state_dir, template_name, events), event);
}

proof fn lemma_complete_state_stays(
    request: TenantView,
    state: StateView,
    state_dir: Seq<char>,
    template_name: Seq<char>,
    events: Seq<EventView>,
)
    requires
        request.mcp_scopes.len() <= usize::MAX,
        complete(request, state),
        orderly_run(request, state, state_dir, template_name, events),
    ensures
        run_of(request, state, state_dir, template_name, events).state == state,
    decreases events.len(),
{
    if events.len() > 0 {
        lemma_complete_state_stays(request, state, state_dir, template_name, events.drop_last());
        law_runs_keep_what_was_achieved(
            request,
            state,
            state_dir,
            template_name,
            events.drop_last(),
        );
        lemma_step(
            run_of(request, state, state_dir, template_name, events.drop_last()),
            events.last(),
        );
    }
}

/// More than the number of events that a run can still take.
pub open spec fn events_left(run: RunView) -> int {
    let n = 2 * run.request.mcp_scopes.len() as int;
    match run.stage {
        Stage::KeyMinted => n + 14,
        Stage::KeyRead | Stage::KeyNoted => n + 13,
        Stage::KeyStored => n + 12,
        Stage::KeyStoredNoted => n + 11,
        Stage::TemplateFetched => n + 10,
        Stage::ProviderCreated => n + 9,
        Stage::SecretStored => n + 8,
        Stage::ProviderNoted => n + 7,
        Stage::RoleUpserted(at) => n - 2 * at + 6,
        Stage::RoleNoted(at) => n - 2 * at + 5,
        Stage::BearerDrawn => 4,
        Stage::BearerWritten => 3,
        Stage::BearerRead | Stage::BearerNoted => 2,
        Stage::Over => 0,
    }
}

proof fn lemma_seek_role_moves_on(run: RunView, at: int)
    requires
        0 <= at <= run.request.mcp_scopes.len(),
        run.request.mcp_scopes.len() <= usize::MAX,
    ensures
        0 <= events_left(run.seek_role(at).0) <= 2 * run.request.mcp_scopes.len() - 2 * at + 6,
    decreases run.request.mcp_scopes.len() - at,
{
    if at < run.request.mcp_scopes.len() && run.state.jwt_roles_created.contains(
        run.role_at(at),
    ) {
        lemma_seek_role_moves_on(
            run.stepped("jwt:already_created:"@ + run.role_at(at)),
            at + 1,
        );
    }
}

proof fn lemma_seek_provider_moves_on(run: RunView)
    requires
        run.request.mcp_scopes.len() <= usize::MAX,
    ensures
        0 <= events_left(run.seek_provider().0) <= 2 * run.request.mcp_scopes.len() + 10,
{
    if let Some(pk) = run.state.authentik_provider_created {
        lemma_seek_role_moves_on(
            (RunView { provider_pk: pk, ..run }).stepped("authentik:already_created"@),
            0,
        );
    }
}

proof fn lemma_store_key_moves_on(run: RunView)
    requires
        run.request.mcp_scopes.len() <= usize::MAX,
    ensures
        0 <= events_left(run.store_key().0) <= 2 * run.request.mcp_scopes.len() + 12,
{
    if run.state.litellm_secret_written {
        lemma_seek_provider_moves_on(run.stepped("bao:litellm_already_written"@));
    }
}

/// Every event brings a run nearer to its end, so that it ends whatever the
/// events say; it ends with a result or with a failure.
pub proof fn law_run_comes_to_an_end(run: RunView, event: EventView)
    requires
        run.request.mcp_scopes.len() <= usize::MAX,
        run.in_range(),
        answers(run.stage, event),
    ensures
        0 <= events_left(run.next(event).0) < events_left(run),
        run.next(event).0.stage == Stage::Over <==> run.next(event).1 is Finish || run.next(
            event,
        ).1 is GiveUp,
{
    if !(event is Failed) {
        match run.stage {
            Stage::KeyRead => {
                lemma_store_key_moves_on(RunView { virt_key: event->Text_0, ..run });
                lemma_store_key_waits(RunView { virt_key: event->Text_0, ..run });
            },
            Stage::KeyNoted => {
                lemma_store_key_moves_on(run.stepped("litellm:minted"@));
                lemma_store_key_waits(run.stepped("litellm:minted"@));
            },
            Stage::KeyStoredNoted => {
                lemma_seek_provider_moves_on(run.stepped("bao:litellm_written"@));
                lemma_seek_provider_waits(run.stepped("bao:litellm_written"@));
            },
            Stage::ProviderNoted => {
                let next = run.stepped("authentik:created"@).stepped("bao:auth_written"@);
                lemma_seek_role_moves_on(next, 0);
                lemma_seek_role_waits(next, 0);
            },
            Stage::RoleNoted(at) => {
                let next = run.stepped("jwt:created:"@ + run.role_at(at as int));
                lemma_seek_role_moves_on(next, at + 1);
                lemma_seek_role_waits(next, at + 1);
            },
            _ => {},
        }
    }
}

/// Only a failed action makes a run give up. Where every action succeeds, a run
/// ends with a result, whatever an earlier attempt left behind.
pub proof fn law_only_failures_make_a_run_give_up(run: RunView, event: EventView)
    requires
        run.request.mcp_scopes.len() <= usize::MAX,
        run.in_range(),
        answers(run.stage, event),
    ensures
        run.next(event).1 is GiveUp <==> event is Failed,
        !(event is Failed) && run.next(event).0.stage == Stage::Over ==> run.next(
            event,
        ).1 is Finish,
{
    law_run_comes_to_an_end(run, event);
    if !(event is Failed) {
        match run.stage {
            Stage::KeyRead => {
                lemma_store_key_waits(RunView { virt_key: event->Text_0, ..run });
            },
            Stage::KeyNoted => {
                lemma_store_key_waits(run.stepped("litellm:minted"@));
            },
            Stage::KeyStoredNoted => {
                lemma_seek_provider_waits(run.stepped("bao:litellm_written"@));
            },
            Stage::ProviderNoted => {
                lemma_seek_role_waits(
                    run.stepped("authentik:created"@).stepped("bao:auth_written"@),
                    0,
                );
            },
            Stage::RoleNoted(at) => {
                lemma_seek_role_waits(
                    run.stepped("jwt:created:"@ + run.role_at(at as int)),
                    at + 1,
                );
            },
            _ => {},
        }
    }
}

/// A key that was minted but never stored does not hold a retry up: the run mints
/// another, and stores what the mint answers under the tenant's path.
pub proof fn law_unstored_key_is_minted_and_stored(
    request: TenantView,
    state: StateView,
    state_dir: Seq<char>,
    template_name: Seq<char>,
    key: Seq<char>,
)
    requires
        !state.litellm_secret_written,
    ensures
        begun(request, state, state_dir, template_name).seek_key().1 is MintKey,
        ({
            let minted = begun(request, state, state_dir, template_name).seek_key().0.next(
                EventView::Text(key),
            );
            &&& minted.1 is SaveState
            &&& minted.0.next(EventView::Done).1 == (ActionView::PutSecret {
                path: secret_path(request.secret_prefix, request.name, "/litellm"@),
                fields: map!["api_key"@ => key],
            })
        }),
{
}

// ---- what requests, states and results say ----------------------------

/// What is said of a request, a state, a result and a run is what their fields hold, each
/// under its own name.
pub proof fn law_views_show_the_fields(
    q: TenantRequest,
    s: TenantState,
    out: TenantProvisioned,
    run: Provisioning,
)
    ensures
        q@.name == q.name@ && q@.secret_prefix == q.secret_prefix@ && q@.monthly_budget_usd
            == q.monthly_budget_usd@ && q@.uid_base == q.uid_base,
        q@.models == text::texts(q.models@) && q@.mcp_scopes == text::texts(q.mcp_scopes@),
        s@.litellm_key_minted == s.litellm_key_minted && s@.litellm_secret_written
            == s.litellm_secret_written && s@.authentik_provider_created
            == s.authentik_provider_created && s@.authentik_secret_written
            == s.authentik_secret_written && s@.orchestrator_bearer_generated
            == s.orchestrator_bearer_generated,
        s@.jwt_roles_created == text::texts(s.jwt_roles_created@),
        out@.name == out.name@ && out@.provider_pk == out.provider_pk && out@.paired_bearer
            == out.paired_bearer@ && out@.hub_policy_snippet == out.hub_policy_snippet@,
        out@.steps_completed == text::texts(out.steps_completed@),
        run@.request == run.request@ && run@.state == run.state@ && run@.stage == run.stage,
        run@.template_name == run.template_name@ && run@.state_dir == run.state_dir@
            && run@.virt_key == run.virt_key@ && run@.provider_pk == run.provider_pk && run@.bearer
            == run.bearer@ && run@.steps == text::texts(run.steps@),
{
}

/// What is said of an action is what it carries, each part under its own name.
pub proof fn law_actions_say_what_they_carry(a: Action)
    ensures
        a matches Action::ReadField { path, field } ==> a@ == (ActionView::ReadField {
            path: path@,
            field: field@,
        }),
        a matches Action::MintKey { tenant, models, monthly_budget_usd } ==> a@
            == (ActionView::MintKey {
            tenant: tenant@,
            models: text::texts(models@),
            monthly_budget_usd: monthly_budget_usd@,
        }),
        a matches Action::PutSecret { path, fields } ==> (a@ matches ActionView::PutSecret {
            path: p,
            fields: m,
        } && p == path@ && m.dom() =~= fields@.dom() && forall|k: Seq<char>| #[trigger]
            m.dom().contains(k) ==> m[k] == fields@[k]@),
        a matches Action::CreateOauth { tenant, template } ==> a@ == (ActionView::CreateOauth {
            tenant: tenant@,
            template: template@,
        }),
        a matches Action::UpsertRole { role, bound_audiences, policies, user_claim, ttl_seconds }
            ==> (a@ matches ActionView::UpsertRole {
            role: rr,
            bound_audiences: b,
            policies: p,
            user_claim: u,
            ttl_seconds: t,
        } && rr == role@ && b == text::texts(bound_audiences@) && p == text::texts(policies@) && u
            == user_claim@ && t == ttl_seconds),
        a matches Action::WriteBearer { path, bearer } ==> a@ == (ActionView::WriteBearer {
            path: path@,
            bearer: bearer@,
        }),
        a matches Action::SaveState { path, state } ==> a@ == (ActionView::SaveState {
            path: path@,
            state: state@,
        }),
        a matches Action::ReadBearer { path } ==> a@ == (ActionView::ReadBearer { path: path@ }),
        a matches Action::FetchTemplate { name } ==> a@ == (ActionView::FetchTemplate {
            name: name@,
        }),
        a matches Action::Finish(out) ==> a@ == ActionView::Finish(out@),
        a matches Action::GiveUp(f) ==> a@ == ActionView::GiveUp(f@),
        a is DrawBearer ==> a@ is DrawBearer,
{
}

/// What is said of an event is what it reports.
pub proof fn law_events_say_what_they_report(e: Event)
    ensures
        e matches Event::Text(s) ==> e@ == EventView::Text(s@),
        e matches Event::Template(t) ==> e@ == EventView::Template(t@),
        e matches Event::Created(c) ==> e@ == EventView::Created(c@),
        e matches Event::Failed(f) ==> e@ == EventView::Failed(f@),
        e is Done ==> e@ is Done,
{
}

// ---- what the actions of a run are about ------------------------------

/// What identifies a run does not change on the way, and what has been learned is
/// kept until it is learned anew.
spec fn same_run(run: RunView, later: RunView) -> bool {
    &&& later.request == run.request
    &&& later.template_name == run.template_name
    &&& later.state_dir == run.state_dir
    &&& later.virt_key == run.virt_key
    &&& later.bearer == run.bearer
}

/// The step asks for a role of the tenant or goes on to the bearer.
spec fn role_or_bearer(run: RunView, at: int, step: (RunView, ActionView)) -> bool {
    let name = run.request.name;
    match step.1 {
        ActionView::UpsertRole { role, bound_audiences, policies, user_claim, ttl_seconds } => {
            &&& step.0.stage matches Stage::RoleUpserted(k) && {
                &&& at <= k < run.request.mcp_scopes.len()
                &&& role == "mcp-"@ + run.request.mcp_scopes[k as int] + "-"@ + name
                &&& bound_audiences == seq!["mcp-"@ + name]
                &&& policies == seq![role]
                &&& user_claim == "sub"@
                &&& ttl_seconds == 3600
                &&& !run.state.jwt_roles_created.contains(role)
            }
        },
        ActionView::ReadBearer { path } => {
            &&& step.0.stage == Stage::BearerRead
            &&& run.state.orchestrator_bearer_generated
            &&& path == paths::joined(
                paths::joined(paths::joined(run.state_dir, "tenants"@), name),
                "bearer.txt"@,
            )
        },
        ActionView::DrawBearer => {
            &&& step.0.stage == Stage::BearerDrawn
            &&& !run.state.orchestrator_bearer_generated
        },
        _ => false,
    }
}

proof fn lemma_role_or_bearer(run: RunView, at: int)
    requires
        0 <= at <= run.request.mcp_scopes.len(),
        run.request.mcp_scopes.len() <= usize::MAX,
    ensures
        role_or_bearer(run, at, run.seek_role(at)),
        same_run(run, run.seek_role(at).0),
        run.seek_role(at).0.state == run.state,
        run.seek_role(at).0.provider_pk == run.provider_pk,
        run.steps.is_prefix_of(run.seek_role(at).0.steps),
    decreases run.request.mcp_scopes.len() - at,
{
    if at < run.request.mcp_scopes.len() && run.state.jwt_roles_created.contains(run.role_at(at)) {
        lemma_role_or_bearer(run.stepped("jwt:already_created:"@ + run.role_at(at)), at + 1);
    }
}

/// The key that was read or minted is the one that goes into the secret store,
/// under the tenant's path and the field `api_key`, unless it is there already.
pub proof fn law_key_is_stored(run: RunView, key: Seq<char>)
    requires
        run.stage == Stage::KeyMinted,
        !run.state.litellm_secret_written,
    ensures
        run.next(EventView::Text(key)).0.next(EventView::Done).1 == (ActionView::PutSecret {
            path: run.request.secret_prefix + "/"@ + run.request.name + "/litellm"@,
            fields: map!["api_key"@ => key],
        }),
        run.next(EventView::Text(key)).0.next(EventView::Done).0.steps == run.steps.push(
            "litellm:minted"@,
        ),
{
}

/// The secret of the tenant's new provider, and nothing else, goes into the secret
/// store: under the tenant's path, in the field `client_secret`. Once it is there,
/// the provider itself is noted and saved.
pub proof fn law_provider_secret_is_stored(run: RunView, c: authentik::CreatedView)
    requires
        run.stage == Stage::ProviderCreated,
    ensures
        run.next(EventView::Created(c)).1 == (ActionView::PutSecret {
            path: run.request.secret_prefix + "/"@ + run.request.name + "/papehouse"@,
            fields: map!["client_secret"@ => c.client_secret],
        }),
        run.next(EventView::Created(c)).0.next(EventView::Done).1 == (ActionView::SaveState {
            path: state_path(run.state_dir, run.request.name),
            state: StateView {
                authentik_provider_created: Some(c.provider_pk),
                authentik_secret_written: true,
                ..run.state
            },
        }),
{
}

/// As [`law_provider_secret_is_stored`], of the run that a request leads to after
/// any orderly sequence of events: the path and the fields come from the request
/// and from the created provider alone.
pub proof fn law_provider_secret_is_stored_in_every_run(
    request: TenantView,
    state: StateView,
    state_dir: Seq<char>,
    template_name: Seq<char>,
    events: Seq<EventView>,
    c: authentik::CreatedView,
)
    requires
        request.mcp_scopes.len() <= usize::MAX,
        orderly_run(request, state, state_dir, template_name, events.push(EventView::Created(c))),
    ensures
        run_of(request, state, state_dir, template_name, events).next(EventView::Created(c)).1 == (
        ActionView::PutSecret {
            path: request.secret_prefix + "/"@ + request.name + "/papehouse"@,
            fields: map!["client_secret"@ => c.client_secret],
        }),
{
    assert(events.push(EventView::Created(c)).drop_last() =~= events);
    law_runs_keep_what_was_achieved(request, state, state_dir, template_name, events);
    law_provider_secret_is_stored(
        run_of(request, state, state_dir, template_name, events),
        c,
    );
}

/// The provider is made for the tenant, after the template that was found.
pub proof fn law_provider_is_made_after_the_template(run: RunView, t: authentik::TemplateView)
    requires
        run.stage == Stage::TemplateFetched,
    ensures
        run.next(EventView::Template(t)).1 == (ActionView::CreateOauth {
            tenant: run.request.name,
            template: t,
        }),
        run.next(EventView::Template(t)).0.stage == Stage::ProviderCreated,
        run.next(EventView::Template(t)).0.state == run.state,
{
}

/// The bearer that is drawn is the one that is written into the tenant's file and
/// the one that is handed to the operator at the end, with the provider's key.
pub proof fn law_drawn_bearer_is_kept_and_handed_out(run: RunView, bearer: Seq<char>)
    requires
        run.stage == Stage::BearerDrawn,
    ensures
        run.next(EventView::Text(bearer)).1 == (ActionView::WriteBearer {
            path: paths::joined(
                paths::joined(
                    paths::joined(run.state_dir, "tenants"@),
                    run.request.name,
                ),
                "bearer.txt"@,
            ),
            bearer,
        }),
        ({
            let written = run.next(EventView::Text(bearer)).0;
            let noted = written.next(EventView::Done);
            &&& noted.1 == (ActionView::SaveState {
                path: state_path(run.state_dir, run.request.name),
                state: StateView { orchestrator_bearer_generated: true, ..run.state },
            })
            &&& noted.0.next(EventView::Done).1 matches ActionView::Finish(out) && {
                &&& out.paired_bearer == bearer
                &&& out.name == run.request.name
                &&& out.provider_pk == run.provider_pk
                &&& out.steps_completed == run.steps.push("bearer:generated"@)
            }
        }),
{
}

/// A bearer that was drawn earlier is handed to the operator as its file has it,
/// without the white space around it.
pub proof fn law_earlier_bearer_is_handed_out(
    run: RunView,
    before: Seq<char>,
    bearer: Seq<char>,
    after: Seq<char>,
)
    requires
        run.stage == Stage::BearerRead,
        forall|i: int| 0 <= i < before.len() ==> text::is_white_space(#[trigger] before[i]),
        forall|i: int| 0 <= i < after.len() ==> text::is_white_space(#[trigger] after[i]),
        bearer.len() > 0,
        !text::is_white_space(bearer[0]),
        !text::is_white_space(bearer.last()),
    ensures
        run.next(EventView::Text(before + bearer + after)).1 matches ActionView::Finish(out) && {
            &&& out.paired_bearer == bearer
            &&& out.name == run.request.name
            &&& out.provider_pk == run.provider_pk
            &&& out.steps_completed == run.steps
        },
{
    text::law_trimming_frees_what_stands_in_white_space(before, bearer, after);
}

/// What a run asks for is about its tenant and comes from the request, whatever the
/// run has gone through: keys, roles, addresses and files carry the tenant's name,
/// and what is saved is the state that the run then has.
pub proof fn law_actions_are_about_the_tenant(run: RunView, event: EventView)
    requires
        run.request.mcp_scopes.len() <= usize::MAX,
        run.in_range(),
        answers(run.stage, event),
    ensures
        ({
            let q = run.request;
            let later = run.next(event).0;
            let dir = paths::joined(paths::joined(run.state_dir, "tenants"@), q.name);
            match run.next(event).1 {
                ActionView::FetchTemplate { name } => {
                    &&& name == run.template_name
                    &&& later.stage == Stage::TemplateFetched
                },
                ActionView::UpsertRole {
                    role,
                    bound_audiences,
                    policies,
                    user_claim,
                    ttl_seconds,
                } => later.stage matches Stage::RoleUpserted(k) && {
                    &&& k < q.mcp_scopes.len()
                    &&& role == "mcp-"@ + q.mcp_scopes[k as int] + "-"@ + q.name
                    &&& bound_audiences == seq!["mcp-"@ + q.name]
                    &&& policies == seq![role]
                    &&& user_claim == "sub"@
                    &&& ttl_seconds == 3600
                },
                ActionView::PutSecret { path, fields } => {
                    ||| later.stage == Stage::KeyStored && path == q.secret_prefix + "/"@ + q.name
                        + "/litellm"@ && fields == map!["api_key"@ => later.virt_key]
                    ||| event matches EventView::Created(c) && later.stage == Stage::SecretStored
                        && path == q.secret_prefix + "/"@ + q.name + "/papehouse"@ && fields
                        == map!["client_secret"@ => c.client_secret]
                },
                ActionView::CreateOauth { tenant, template } => {
                    &&& tenant == q.name
                    &&& event == EventView::Template(template)
                },
                ActionView::ReadBearer { path } => path == paths::joined(dir, "bearer.txt"@)
                    && later.stage == Stage::BearerRead,
                ActionView::WriteBearer { path, bearer } => path == paths::joined(
                    dir,
                    "bearer.txt"@,
                ) && event == EventView::Text(bearer) && later.bearer == bearer,
                ActionView::SaveState { path, state } => path == paths::joined(dir, "state.json"@)
                    && state == later.state,
                ActionView::Finish(out) => out.name == q.name && out.provider_pk
                    == run.provider_pk,
                ActionView::DrawBearer => later.stage == Stage::BearerDrawn,
                ActionView::GiveUp(_) => event is Failed,
                ActionView::ReadField { .. } => false,
                ActionView::MintKey { .. } => false,
            }
        }),
        run.next(event).0.request == run.request,
        run.next(event).0.state_dir == run.state_dir,
        run.next(event).0.template_name == run.template_name,
        run.steps.is_prefix_of(run.next(event).0.steps),
{
    if !(event is Failed) {
        match run.stage {
            Stage::KeyRead => {
                lemma_store_key_is_about(RunView { virt_key: event->Text_0, ..run });
            },
            Stage::KeyNoted => {
                lemma_store_key_is_about(run.stepped("litellm:minted"@));
            },
            Stage::KeyStoredNoted => {
                lemma_seek_provider_is_about(run.stepped("bao:litellm_written"@));
            },
            Stage::ProviderNoted => {
                lemma_role_or_bearer(
                    run.stepped("authentik:created"@).stepped("bao:auth_written"@),
                    0,
                );
            },
            Stage::RoleNoted(at) => {
                lemma_role_or_bearer(
                    run.stepped("jwt:created:"@ + run.role_at(at as int)),
                    at + 1,
                );
            },
            _ => {},
        }
    }
}

proof fn lemma_seek_provider_is_about(run: RunView)
    requires
        run.request.mcp_scopes.len() <= usize::MAX,
    ensures
        match run.seek_provider().1 {
            ActionView::FetchTemplate { name } => name == run.template_name
                && run.seek_provider().0.stage == Stage::TemplateFetched,
            _ => role_or_bearer(run, 0, run.seek_provider()),
        },
        same_run(run, run.seek_provider().0),
        run.seek_provider().0.state == run.state,
        run.steps.is_prefix_of(run.seek_provider().0.steps),
{
    if let Some(pk) = run.state.authentik_provider_created {
        let next = (RunView { provider_pk: pk, ..run }).stepped("authentik:already_created"@);
        lemma_role_or_bearer(next, 0);
    }
}

proof fn lemma_store_key_is_about(run: RunView)
    requires
        run.request.mcp_scopes.len() <= usize::MAX,
    ensures
        match run.store_key().1 {
            ActionView::PutSecret { path, fields } => {
                &&& run.store_key().0.stage == Stage::KeyStored
                &&& path == run.request.secret_prefix + "/"@ + run.request.name + "/litellm"@
                &&& fields == map!["api_key"@ => run.virt_key]
            },
            ActionView::FetchTemplate { name } => name == run.template_name
                && run.store_key().0.stage == Stage::TemplateFetched,
            _ => role_or_bearer(run, 0, run.store_key()),
        },
        same_run(run, run.store_key().0),
        run.store_key().0.state == run.state,
        run.steps.is_prefix_of(run.store_key().0.steps),
{
    if run.state.litellm_secret_written {
        lemma_seek_provider_is_about(run.stepped("bao:litellm_already_written"@));
    }
}

/// A run begins with the tenant's key: it is read back from where it was stored,
/// or asked for with the models and the budget that the request names.
pub proof fn law_run_begins_with_the_key(
    request: TenantRequest,
    state: TenantState,
    state_dir: &str,
    template_name: &str,
    r: (Provisioning, Action),
)
    requires
        call_ensures(provision, (request, state, state_dir, template_name), r),
    ensures
        state.litellm_key_minted && state.litellm_secret_written ==> r.1@
            == (ActionView::ReadField {
            path: request.secret_prefix@ + "/"@ + request.name@ + "/litellm"@,
            field: "api_key"@,
        }) && r.0.stage == Stage::KeyRead,
        !(state.litellm_key_minted && state.litellm_secret_written) ==> r.1@
            == (ActionView::MintKey {
            tenant: request.name@,
            models: text::texts(request.models@),
            monthly_budget_usd: request.monthly_budget_usd@,
        }) && r.0.stage == Stage::KeyMinted,
        r.0.request@ == request@,
        r.0.state@ == state@,
        r.0.state_dir@ == state_dir@,
        r.0.template_name@ == template_name@,
{
}

/// A tenant of whom no state was saved has nothing: no key, no provider, no role and no
/// bearer, and a run for them begins by asking for a key. A state that was saved is taken
/// as it is.
pub proof fn law_new_tenant_has_nothing(
    saved: TenantState,
    fresh: TenantState,
    kept: TenantState,
    request: TenantRequest,
    state_dir: &str,
    template_name: &str,
    r: (Provisioning, Action),
)
    requires
        call_ensures(TenantState::load, (None::<TenantState>,), fresh),
        call_ensures(TenantState::load, (Some(saved),), kept),
        call_ensures(provision, (request, fresh, state_dir, template_name), r),
    ensures
        !fresh.litellm_key_minted && !fresh.litellm_secret_written,
        fresh.authentik_provider_created is None && !fresh.authentik_secret_written,
        fresh.jwt_roles_created@.len() == 0,
        !fresh.orchestrator_bearer_generated,
        kept == saved,
        r.1 is MintKey,
        r.0.steps@.len() == 0,
{
    assert(fresh@.jwt_roles_created.len() == fresh.jwt_roles_created@.len());
    assert(r.0@.steps.len() == r.0.steps@.len());
}

/// Each step adds to the saved state the one thing that it achieved, and a step
/// that achieves nothing leaves it as it was.
pub proof fn law_state_notes_what_was_achieved_and_no_more(run: RunView, event: EventView)
    requires
        run.request.mcp_scopes.len() <= usize::MAX,
        run.in_range(),
        answers(run.stage, event),
    ensures
        run.next(event).0.state == (if event is Failed {
            run.state
        } else {
            match run.stage {
                Stage::KeyMinted => StateView { litellm_key_minted: true, ..run.state },
                Stage::KeyStored => StateView { litellm_secret_written: true, ..run.state },
                Stage::SecretStored => StateView {
                    authentik_provider_created: Some(run.provider_pk),
                    authentik_secret_written: true,
                    ..run.state
                },
                Stage::RoleUpserted(k) => StateView {
                    jwt_roles_created: run.state.jwt_roles_created.push(
                        "mcp-"@ + run.request.mcp_scopes[k as int] + "-"@ + run.request.name,
                    ),
                    ..run.state
                },
                Stage::BearerWritten => StateView {
                    orchestrator_bearer_generated: true,
                    ..run.state
                },
                _ => run.state,
            }
        }),
{
    if !(event is Failed) {
        match run.stage {
            Stage::KeyRead => {
                lemma_store_key_is_about(RunView { virt_key: event->Text_0, ..run });
            },
            Stage::KeyNoted => {
                lemma_store_key_is_about(run.stepped("litellm:minted"@));
            },
            Stage::KeyStoredNoted => {
                lemma_seek_provider_is_about(run.stepped("bao:litellm_written"@));
            },
            Stage::ProviderNoted => {
                lemma_role_or_bearer(
                    run.stepped("authentik:created"@).stepped("bao:auth_written"@),
                    0,
                );
            },
            Stage::RoleNoted(at) => {
                lemma_role_or_bearer(
                    run.stepped("jwt:created:"@ + run.role_at(at as int)),
                    at + 1,
                );
            },
            _ => {},
        }
    }
}

/// A failure ends the run with what went wrong and the whole chain behind it; where
/// the stage has a task of its own, the task comes first.
pub proof fn law_failure_is_reported_whole(run: RunView, f: failure::FailureView)
    ensures
        run.next(EventView::Failed(f)).1 matches ActionView::GiveUp(g) && {
            let chain = seq![f.message] + f.causes;
            match run.stage {
                Stage::KeyMinted => g.message == "litellm key mint"@ && g.causes == chain,
                Stage::KeyStored => g.message == "bao kv put litellm"@ && g.causes == chain,
                Stage::TemplateFetched => g.message == "fetch Authentik template provider "@
                    + run.template_name && g.causes == chain,
                Stage::SecretStored => g.message == "bao kv put auth"@ && g.causes == chain,
                Stage::RoleUpserted(k) => g.message == "bao jwt role "@ + ("mcp-"@
                    + run.request.mcp_scopes[k as int] + "-"@ + run.request.name) && g.causes
                    == chain,
                Stage::BearerRead => g.message == "read existing paired bearer "@ + paths::joined(
                    paths::joined(
                        paths::joined(run.state_dir, "tenants"@),
                        run.request.name,
                    ),
                    "bearer.txt"@,
                ) && g.causes == chain,
                _ => g == f,
            }
        },
        run.next(EventView::Failed(f)).0.stage == Stage::Over,
        run.next(EventView::Failed(f)).0.state == run.state,
{
}

/// The fragment that a run hands to the operator is the block of its tenant: the
/// tenant's name and audience, the user id that the request names, and the tools and
/// the token of every scope.
pub proof fn law_snippet_is_the_tenants_block(run: RunView)
    ensures
        exists|b: hub_policy::BlockView|
            #![trigger hub_policy::quoted_texts(b.allowed_tools)]
            {
                &&& run.snippet() == hub_policy::block_yaml(
                    b,
                    hub_policy::quoted_texts(b.allowed_tools),
                )
                &&& b.name == run.request.name
                &&& b.aud == "mcp-"@ + run.request.name
                &&& b.uid_base == run.request.uid_base
                &&& b.allowed_tools.len() == run.request.mcp_scopes.len()
                &&& b.secrets.len() == run.request.mcp_scopes.len()
                &&& forall|i: int|
                    0 <= i < run.request.mcp_scopes.len() ==> #[trigger] b.allowed_tools[i]
                        == run.request.mcp_scopes[i] + "_*"@
                &&& forall|i: int|
                    0 <= i < run.request.mcp_scopes.len() ==> #[trigger] b.secrets[i] == (
                        run.request.mcp_scopes[i],
                        run.request.secret_prefix + "/"@ + run.request.mcp_scopes[i] + "/"@
                            + run.request.name,
                        "api_token"@,
                    )
            },
{
    let b = hub_policy::tenant_block(
        run.request.name,
        run.request.uid_base,
        run.request.mcp_scopes,
        run.request.secret_prefix,
    );
    assert(run.snippet() == hub_policy::block_yaml(b, hub_policy::quoted_texts(b.allowed_tools)));
}

/// The steps that a run tells of say what was done: each is told when the state
/// that notes it has been saved, and what was found done before is told as such.
pub proof fn law_steps_tell_what_was_done(run: RunView)
    requires
        run.request.mcp_scopes.len() <= usize::MAX,
        run.in_range(),
        answers(run.stage, EventView::Done),
    ensures
        ({
            let told = run.next(EventView::Done).0.steps;
            match run.stage {
                Stage::KeyNoted => run.steps.push("litellm:minted"@).is_prefix_of(told),
                Stage::KeyStoredNoted => run.steps.push("bao:litellm_written"@).is_prefix_of(told),
                Stage::ProviderNoted => run.steps.push("authentik:created"@).push(
                    "bao:auth_written"@,
                ).is_prefix_of(told),
                Stage::RoleNoted(k) => run.steps.push(
                    "jwt:created:"@ + ("mcp-"@ + run.request.mcp_scopes[k as int] + "-"@
                        + run.request.name),
                ).is_prefix_of(told),
                Stage::BearerNoted => told == run.steps.push("bearer:generated"@),
                _ => told == run.steps,
            }
        }),
{
    match run.stage {
        Stage::KeyNoted => {
            lemma_store_key_is_about(run.stepped("litellm:minted"@));
        },
        Stage::KeyStoredNoted => {
            lemma_seek_provider_is_about(run.stepped("bao:litellm_written"@));
        },
        Stage::ProviderNoted => {
            lemma_role_or_bearer(
                run.stepped("authentik:created"@).stepped("bao:auth_written"@),
                0,
            );
        },
        Stage::RoleNoted(at) => {
            lemma_role_or_bearer(run.stepped("jwt:created:"@ + run.role_at(at as int)), at + 1);
        },
        _ => {},
    }
}

/// What a run finds done before it tells as such: a key that was minted and stored, and a
/// provider that was created, whose key it then hands on.
pub proof fn law_what_was_done_before_is_told(
    request: TenantView,
    state: StateView,
    state_dir: Seq<char>,
    template_name: Seq<char>,
    key: Seq<char>,
)
    requires
        request.mcp_scopes.len() <= usize::MAX,
        state.litellm_key_minted && state.litellm_secret_written,
    ensures
        ({
            let begun = begun(request, state, state_dir, template_name).seek_key().0;
            let later = begun.next(EventView::Text(key)).0;
            &&& begun.steps == seq!["litellm:already_minted"@]
            &&& seq!["litellm:already_minted"@, "bao:litellm_already_written"@].is_prefix_of(
                later.steps,
            )
            &&& state.authentik_provider_created is None ==> later.steps.len() == 2
            &&& state.authentik_provider_created matches Some(pk) ==> later.provider_pk == pk && seq![
                "litellm:already_minted"@,
                "bao:litellm_already_written"@,
                "authentik:already_created"@,
            ].is_prefix_of(later.steps)
        }),
{
    let started = begun(request, state, state_dir, template_name).seek_key().0;
    assert(started.steps =~= seq!["litellm:already_minted"@]);
    let read = RunView { virt_key: key, ..started };
    let stored = read.stepped("bao:litellm_already_written"@);
    assert(stored.steps =~= seq!["litellm:already_minted"@, "bao:litellm_already_written"@]);
    assert(started.next(EventView::Text(key)) == stored.seek_provider());
    lemma_seek_provider_is_about(stored);
    if let Some(pk) = state.authentik_provider_created {
        let made = (RunView { provider_pk: pk, ..stored }).stepped("authentik:already_created"@);
        assert(made.steps =~= seq![
            "litellm:already_minted"@,
            "bao:litellm_already_written"@,
            "authentik:already_created"@,
        ]);
        lemma_role_or_bearer(made, 0);
    }
}

/// Where the roles of all scopes are there, a run tells so, scope by scope, and
/// goes on to the bearer.
pub proof fn law_roles_found_are_told(run: RunView, at: int)
    requires
        0 <= at <= run.request.mcp_scopes.len(),
        forall|j: int|
            at <= j < run.request.mcp_scopes.len() ==> run.state.jwt_roles_created.contains(
                "mcp-"@ + #[trigger] run.request.mcp_scopes[j] + "-"@ + run.request.name,
            ),
    ensures
        ({
            let told = run.seek_role(at).0.steps;
            let n = run.request.mcp_scopes.len() - at;
            &&& told.len() == run.steps.len() + n + 1
            &&& run.steps.is_prefix_of(told)
            &&& forall|j: int|
                at <= j < run.request.mcp_scopes.len() ==> told[run.steps.len() + j - at]
                    == "jwt:already_created:"@ + ("mcp-"@ + #[trigger] run.request.mcp_scopes[j]
                    + "-"@ + run.request.name)
            &&& told.last() == "hub_policy:snippet_generated"@
            &&& run.seek_role(at).1 is DrawBearer || run.seek_role(at).1 is ReadBearer
        }),
    decreases run.request.mcp_scopes.len() - at,
{
    if at < run.request.mcp_scopes.len() {
        let scope = run.request.mcp_scopes[at];
        let next = run.stepped("jwt:already_created:"@ + run.role_at(at));
        law_roles_found_are_told(next, at + 1);
        let told = run.seek_role(at).0.steps;
        assert(told[run.steps.len() as int] == next.steps[run.steps.len() as int]);
        assert forall|j: int| at <= j < run.request.mcp_scopes.len() implies told[run.steps.len()
            + j - at] == "jwt:already_created:"@ + ("mcp-"@ + #[trigger] run.request.mcp_scopes[j]
            + "-"@ + run.request.name) by {
            if j > at {
                assert(told[next.steps.len() + j - (at + 1)] == "jwt:already_created:"@ + ("mcp-"@
                    + next.request.mcp_scopes[j] + "-"@ + next.request.name));
            }
        }
    }
}

/// The run waits for an answer to its action.
spec fn waits(step: (RunView, ActionView)) -> bool {
    step.0.stage != Stage::Over && !(step.1 is Finish) && !(step.1 is GiveUp)
}

proof fn lemma_seek_role_waits(run: RunView, at: int)
    ensures
        waits(run.seek_role(at)),
    decreases run.request.mcp_scopes.len() - at,
{
    if at < run.request.mcp_scopes.len() && run.state.jwt_roles_created.contains(
        run.role_at(at),
    ) {
        lemma_seek_role_waits(run.stepped("jwt:already_created:"@ + run.role_at(at)), at + 1);
    }
}

proof fn lemma_seek_provider_waits(run: RunView)
    ensures
        waits(run.seek_provider()),
{
    if let Some(pk) = run.state.authentik_provider_created {
        lemma_seek_role_waits(
            (RunView { provider_pk: pk, ..run }).stepped("authentik:already_created"@),
            0,
        );
    }
}

proof fn lemma_store_key_waits(run: RunView)
    ensures
        waits(run.store_key()),
{
    if run.state.litellm_secret_written {
        lemma_seek_provider_waits(run.stepped("bao:litellm_already_written"@));
    }
}

} // verus!
