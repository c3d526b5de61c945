//! Removal of tenants.
//!
//! [`Deprovisioning`] undoes what provisioning did. It does what it can: what
//! fails is noted as a warning and the removal goes on.

use vstd::prelude::*;
use vstd::string::*;
use crate::failure::Failure;
use crate::provision;
use crate::{failure, paths, text};

verus! {

/// What a removal hands to the operator.
#[derive(Debug)]
pub struct TenantDeprovisioned {
    pub name: String,
    pub hub_policy_removal_snippet: String,
    pub fleet_manifest_removal_snippet: String,
    pub steps_completed: Vec<String>,
    pub warnings: Vec<String>,
}

/// What the result of a removal says.
pub struct DeprovisionedView {
    pub name: Seq<char>,
    pub hub_policy_removal_snippet: Seq<char>,
    pub fleet_manifest_removal_snippet: Seq<char>,
    pub steps_completed: Seq<Seq<char>>,
    pub warnings: Seq<Seq<char>>,
}

impl View for TenantDeprovisioned {
    type V = DeprovisionedView;

    open spec fn view(&self) -> DeprovisionedView {
        DeprovisionedView {
            name: self.name@,
            hub_policy_removal_snippet: self.hub_policy_removal_snippet@,
            fleet_manifest_removal_snippet: self.fleet_manifest_removal_snippet@,
            steps_completed: text::texts(self.steps_completed@),
            warnings: text::texts(self.warnings@),
        }
    }
}

/// What a removal asks the program to do.
pub enum RemovalAction {
    /// Read one field of a secret; answered by a text.
    ReadField { path: String, field: String },
    /// Delete a model key.
    DeleteKey { key: String },
    /// Delete the tenant's application and provider.
    DeleteOauth { tenant: String },
    /// Delete a secret.
    DeleteSecret { path: String },
    /// Delete a JWT role.
    DeleteRole { role: String },
    /// Remove the directory of the tenant's state.
    WipeState { dir: String },
    /// The removal is over.
    Finish(TenantDeprovisioned),
}

/// What an action says.
pub enum RemovalActionView {
    ReadField { path: Seq<char>, field: Seq<char> },
    DeleteKey { key: Seq<char> },
    DeleteOauth { tenant: Seq<char> },
    DeleteSecret { path: Seq<char> },
    DeleteRole { role: Seq<char> },
    WipeState { dir: Seq<char> },
    Finish(DeprovisionedView),
}

impl View for RemovalAction {
    type V = RemovalActionView;

    open spec fn view(&self) -> RemovalActionView {
        match *self {
            RemovalAction::ReadField { path, field } => RemovalActionView::ReadField {
                path: path@,
                field: field@,
            },
            RemovalAction::DeleteKey { key } => RemovalActionView::DeleteKey { key: key@ },
            RemovalAction::DeleteOauth { tenant } => RemovalActionView::DeleteOauth {
                tenant: tenant@,
            },
            RemovalAction::DeleteSecret { path } => RemovalActionView::DeleteSecret { path: path@ },
            RemovalAction::DeleteRole { role } => RemovalActionView::DeleteRole { role: role@ },
            RemovalAction::WipeState { dir } => RemovalActionView::WipeState { dir: dir@ },
            RemovalAction::Finish(out) => RemovalActionView::Finish(out@),
        }
    }
}

/// What the program reports of an action.
pub enum RemovalEvent {
    Done,
    Text(String),
    /// There was nothing to remove.
    Absent,
    Failed(Failure),
}

/// What an event says.
pub enum RemovalEventView {
    Done,
    Text(Seq<char>),
    Absent,
    Failed(failure::FailureView),
}

impl View for RemovalEvent {
    type V = RemovalEventView;

    open spec fn view(&self) -> RemovalEventView {
        match *self {
            RemovalEvent::Done => RemovalEventView::Done,
            RemovalEvent::Text(s) => RemovalEventView::Text(s@),
            RemovalEvent::Absent => RemovalEventView::Absent,
            RemovalEvent::Failed(f) => RemovalEventView::Failed(f@),
        }
    }
}

/// What the reply to the deletion of a role reports: that it was deleted, that
/// there was none, or that the deletion failed.
pub fn role_event(reply: Result<bool, Failure>) -> (r: RemovalEvent)
    ensures
        r@ == match reply {
            Ok(true) => RemovalEventView::Done,
            Ok(false) => RemovalEventView::Absent,
            Err(f) => RemovalEventView::Failed(f@),
        },
{
    match reply {
        Ok(true) => RemovalEvent::Done,
        Ok(false) => RemovalEvent::Absent,
        Err(f) => RemovalEvent::Failed(f),
    }
}

/// What a removal waits for.
#[derive(Clone, Copy, PartialEq, Eq, Structural)]
pub enum RemovalStage {
    KeyRead,
    KeyDeleted,
    OauthDeleted,
    KeySecretDeleted,
    AuthSecretDeleted,
    /// The deletion of the role of the scope at this place.
    RoleDeleted(usize),
    StateWiped,
    Over,
}

/// The events that answer the action of a stage.
pub open spec fn answers_removal(stage: RemovalStage, event: RemovalEventView) -> bool {
    match stage {
        RemovalStage::KeyRead => event is Text || event is Failed,
        RemovalStage::RoleDeleted(_) | RemovalStage::StateWiped => event is Done || event is Absent
            || event is Failed,
        RemovalStage::Over => false,
        _ => event is Done || event is Failed,
    }
}

/// A removal.
pub struct Deprovisioning {
    pub name: String,
    pub mcp_scopes: Vec<String>,
    pub secret_prefix: String,
    pub state_dir: String,
    /// The instruction to remove the tenant from the hub's policy.
    pub hub_policy_removal_snippet: String,
    pub steps: Vec<String>,
    pub warnings: Vec<String>,
    pub stage: RemovalStage,
}

/// Where a removal stands.
pub struct RemovalView {
    pub name: Seq<char>,
    pub mcp_scopes: Seq<Seq<char>>,
    pub secret_prefix: Seq<char>,
    pub state_dir: Seq<char>,
    pub hub_policy_removal_snippet: Seq<char>,
    pub steps: Seq<Seq<char>>,
    pub warnings: Seq<Seq<char>>,
    pub stage: RemovalStage,
}

impl View for Deprovisioning {
    type V = RemovalView;

    open spec fn view(&self) -> RemovalView {
        RemovalView {
            name: self.name@,
            mcp_scopes: text::texts(self.mcp_scopes@),
            secret_prefix: self.secret_prefix@,
            state_dir: self.state_dir@,
            hub_policy_removal_snippet: self.hub_policy_removal_snippet@,
            steps: text::texts(self.steps@),
            warnings: text::texts(self.warnings@),
            stage: self.stage,
        }
    }
}

/// The instruction to remove the tenant from the fleet's files.
pub open spec fn manifest_removal(name: Seq<char>) -> Seq<char> {
    "# Remove `- "@ + name + "` from fleet.yaml `claws:` list, and delete claws/"@ + name
        + ".toml.\n# Then commit + push.\n"@
}

impl RemovalView {
    pub open spec fn stepped(self, step: Seq<char>) -> RemovalView {
        RemovalView { steps: self.steps.push(step), ..self }
    }

    pub open spec fn warned(self, warning: Seq<char>) -> RemovalView {
        RemovalView { warnings: self.warnings.push(warning), ..self }
    }

    /// The step, or the warning with what the failure says.
    pub open spec fn noted(
        self,
        event: RemovalEventView,
        step: Seq<char>,
        warning: Seq<char>,
    ) -> RemovalView {
        match event {
            RemovalEventView::Failed(f) => self.warned(warning + ": "@ + f.message),
            _ => self.stepped(step),
        }
    }

    pub open spec fn secret(self, leaf: Seq<char>) -> Seq<char> {
        provision::secret_path(self.secret_prefix, self.name, leaf)
    }

    pub open spec fn role_at(self, at: int) -> Seq<char> {
        provision::role_name(self.mcp_scopes[at], self.name)
    }

    pub open spec fn tenant_dir(self) -> Seq<char> {
        provision::tenant_dir(self.state_dir, self.name)
    }

    /// The action that a stage waits for.
    pub open spec fn asking(self, stage: RemovalStage) -> (RemovalView, RemovalActionView) {
        (
            RemovalView { stage, ..self },
            match stage {
                RemovalStage::KeyRead => RemovalActionView::ReadField {
                    path: self.secret("/litellm"@),
                    field: "api_key"@,
                },
                RemovalStage::OauthDeleted => RemovalActionView::DeleteOauth { tenant: self.name },
                RemovalStage::KeySecretDeleted => RemovalActionView::DeleteSecret {
                    path: self.secret("/litellm"@),
                },
                RemovalStage::AuthSecretDeleted => RemovalActionView::DeleteSecret {
                    path: self.secret("/papehouse"@),
                },
                RemovalStage::RoleDeleted(at) => RemovalActionView::DeleteRole {
                    role: self.role_at(at as int),
                },
                RemovalStage::StateWiped => RemovalActionView::WipeState { dir: self.tenant_dir() },
                _ => RemovalActionView::Finish(
                    DeprovisionedView {
                        name: self.name,
                        hub_policy_removal_snippet: self.hub_policy_removal_snippet,
                        fleet_manifest_removal_snippet: manifest_removal(self.name),
                        steps_completed: self.steps,
                        warnings: self.warnings,
                    },
                ),
            },
        )
    }

    /// The roles from the scope at `at` on, then the state.
    pub open spec fn role_stage(self, at: int) -> RemovalStage {
        if at < self.mcp_scopes.len() {
            RemovalStage::RoleDeleted(at as usize)
        } else {
            RemovalStage::StateWiped
        }
    }

    /// The removal after an event, and the action that it asks for next.
    pub open spec fn next(self, event: RemovalEventView) -> (RemovalView, RemovalActionView) {
        match self.stage {
            RemovalStage::KeyRead => match event {
                RemovalEventView::Text(key) => (
                    RemovalView { stage: RemovalStage::KeyDeleted, ..self },
                    RemovalActionView::DeleteKey { key },
                ),
                _ => self.noted(
                    event,
                    Seq::empty(),
                    "could not read litellm key for delete"@,
                ).asking(RemovalStage::OauthDeleted),
            },
            RemovalStage::KeyDeleted => self.noted(
                event,
                "litellm:deleted"@,
                "litellm delete_key"@,
            ).asking(RemovalStage::OauthDeleted),
            RemovalStage::OauthDeleted => self.noted(
                event,
                "authentik:deleted"@,
                "authentik delete_oauth"@,
            ).asking(RemovalStage::KeySecretDeleted),
            RemovalStage::KeySecretDeleted => self.noted(
                event,
                "bao:deleted:"@ + self.secret("/litellm"@),
                "bao kv_delete "@ + self.secret("/litellm"@),
            ).asking(RemovalStage::AuthSecretDeleted),
            RemovalStage::AuthSecretDeleted => self.noted(
                event,
                "bao:deleted:"@ + self.secret("/papehouse"@),
                "bao kv_delete "@ + self.secret("/papehouse"@),
            ).asking(self.role_stage(0)),
            RemovalStage::RoleDeleted(at) => (if event is Absent {
                self.warned("jwt_role_delete "@ + self.role_at(at as int) + ": no such role"@)
            } else {
                self.noted(
                    event,
                    "jwt:deleted:"@ + self.role_at(at as int),
                    "jwt_role_delete "@ + self.role_at(at as int),
                )
            }).asking(self.role_stage(at + 1)),
            _ => self.noted(
                event,
                if event is Absent {
                    "state:already_absent"@
                } else {
                    "state:wiped"@
                },
                "remove state dir "@ + self.tenant_dir(),
            ).asking(RemovalStage::Over),
        }
    }

    /// The place of a role under way is that of a scope.
    pub open spec fn in_range(self) -> bool {
        self.stage matches RemovalStage::RoleDeleted(at) ==> at < self.mcp_scopes.len()
    }
}

/// A removal that begins.
pub open spec fn removal_begun(
    name: Seq<char>,
    mcp_scopes: Seq<Seq<char>>,
    secret_prefix: Seq<char>,
    state_dir: Seq<char>,
    hub_policy_removal_snippet: Seq<char>,
) -> RemovalView {
    RemovalView {
        name,
        mcp_scopes,
        secret_prefix,
        state_dir,
        hub_policy_removal_snippet,
        steps: Seq::empty(),
        warnings: Seq::empty(),
        stage: RemovalStage::Over,
    }
}

impl Deprovisioning {
    fn note(&mut self, event: &RemovalEvent, step: String, warning: String)
        ensures
            final(self)@ == old(self)@.noted(event@, step@, warning@),
    {
        broadcast use text::lemma_texts_push;

        match event {
            RemovalEvent::Failed(f) => {
                let mut out = warning;
                out.append(": ");
                out.append(f.message.as_str());
                self.warnings.push(out);
            },
            _ => {
                self.steps.push(step);
            },
        }
    }

    fn note_role(&mut self, event: &RemovalEvent, role: &str)
        ensures
            final(self)@ == if event@ is Absent {
                old(self)@.warned("jwt_role_delete "@ + role@ + ": no such role"@)
            } else {
                old(self)@.noted(event@, "jwt:deleted:"@ + role@, "jwt_role_delete "@ + role@)
            },
    {
        broadcast use text::lemma_texts_push;

        let mut warning = text::labelled("jwt_role_delete ", role);
        match event {
            RemovalEvent::Absent => {
                warning.append(": no such role");
                self.warnings.push(warning);
            },
            _ => {
                self.note(event, text::labelled("jwt:deleted:", role), warning);
            },
        }
    }

    fn secret_for(&self, leaf: &str) -> (r: String)
        ensures
            r@ == self@.secret(leaf@),
    {
        provision::secret_at(self.secret_prefix.as_str(), self.name.as_str(), leaf)
    }

    fn role_for(&self, at: usize) -> (r: String)
        requires
            at < self@.mcp_scopes.len(),
        ensures
            r@ == self@.role_at(at as int),
    {
        provision::role_of(self.mcp_scopes[at].as_str(), self.name.as_str())
    }

    fn dir(&self) -> (r: String)
        ensures
            r@ == self@.tenant_dir(),
    {
        let tenants = paths::join(self.state_dir.as_str(), "tenants");
        paths::join(tenants.as_str(), self.name.as_str())
    }

    fn ask(&mut self, stage: RemovalStage) -> (r: RemovalAction)
        requires
            stage matches RemovalStage::RoleDeleted(at) ==> at < old(self)@.mcp_scopes.len(),
            !(stage is KeyDeleted),
        ensures
            (final(self)@, r@) == old(self)@.asking(stage),
    {
        self.stage = stage;
        match stage {
            RemovalStage::KeyRead => RemovalAction::ReadField {
                path: self.secret_for("/litellm"),
                field: "api_key".to_owned(),
            },
            RemovalStage::OauthDeleted => RemovalAction::DeleteOauth { tenant: self.name.clone() },
            RemovalStage::KeySecretDeleted => RemovalAction::DeleteSecret {
                path: self.secret_for("/litellm"),
            },
            RemovalStage::AuthSecretDeleted => RemovalAction::DeleteSecret {
                path: self.secret_for("/papehouse"),
            },
            RemovalStage::RoleDeleted(at) => RemovalAction::DeleteRole { role: self.role_for(at) },
            RemovalStage::StateWiped => RemovalAction::WipeState { dir: self.dir() },
            _ => {
                let mut manifest = text::labelled("# Remove `- ", self.name.as_str());
                manifest.append("` from fleet.yaml `claws:` list, and delete claws/");
                manifest.append(self.name.as_str());
                manifest.append(".toml.\n# Then commit + push.\n");
                RemovalAction::Finish(
                    TenantDeprovisioned {
                        name: self.name.clone(),
                        hub_policy_removal_snippet: self.hub_policy_removal_snippet.clone(),
                        fleet_manifest_removal_snippet: manifest,
                        steps_completed: text::copy_texts(&self.steps),
                        warnings: text::copy_texts(&self.warnings),
                    },
                )
            },
        }
    }

    fn next_role(&self, at: usize) -> (r: RemovalStage)
        ensures
            r == self@.role_stage(at as int),
    {
        if at < self.mcp_scopes.len() {
            RemovalStage::RoleDeleted(at)
        } else {
            RemovalStage::StateWiped
        }
    }

    /// Takes the removal one step on: from what came of the last action to the
    /// next.
    pub fn step(&mut self, event: RemovalEvent) -> (r: RemovalAction)
        requires
            old(self)@.in_range(),
            answers_removal(old(self)@.stage, event@),
        ensures
            (final(self)@, r@) == old(self)@.next(event@),
            final(self)@.in_range(),
    {
        match self.stage {
            RemovalStage::KeyRead => match event {
                RemovalEvent::Text(key) => {
                    self.stage = RemovalStage::KeyDeleted;
                    RemovalAction::DeleteKey { key }
                },
                _ => {
                    self.note(
                        &event,
                        String::new(),
                        "could not read litellm key for delete".to_owned(),
                    );
                    self.ask(RemovalStage::OauthDeleted)
                },
            },
            RemovalStage::KeyDeleted => {
                self.note(&event, "litellm:deleted".to_owned(), "litellm delete_key".to_owned());
                self.ask(RemovalStage::OauthDeleted)
            },
            RemovalStage::OauthDeleted => {
                self.note(
                    &event,
                    "authentik:deleted".to_owned(),
                    "authentik delete_oauth".to_owned(),
                );
                self.ask(RemovalStage::KeySecretDeleted)
            },
            RemovalStage::KeySecretDeleted => {
                let p = self.secret_for("/litellm");
                self.note(
                    &event,
                    text::labelled("bao:deleted:", p.as_str()),
                    text::labelled("bao kv_delete ", p.as_str()),
                );
                self.ask(RemovalStage::AuthSecretDeleted)
            },
            RemovalStage::AuthSecretDeleted => {
                let p = self.secret_for("/papehouse");
                self.note(
                    &event,
                    text::labelled("bao:deleted:", p.as_str()),
                    text::labelled("bao kv_delete ", p.as_str()),
                );
                let stage = self.next_role(0);
                self.ask(stage)
            },
            RemovalStage::RoleDeleted(at) => {
                let role = self.role_for(at);
                self.note_role(&event, role.as_str());
                let count: usize = self.mcp_scopes.len();
                assert(at < count);
                let stage = self.next_role(at + 1);
                self.ask(stage)
            },
            _ => {
                let step = match &event {
                    RemovalEvent::Absent => "state:already_absent".to_owned(),
                    _ => "state:wiped".to_owned(),
                };
                let dir = self.dir();
                self.note(&event, step, text::labelled("remove state dir ", dir.as_str()));
                self.ask(RemovalStage::Over)
            },
        }
    }
}

/// Begins to remove a tenant. The scopes are those that the tenant was given; a
/// role that does not exist is noted as a warning. Gives the removal and its first
/// action.
pub fn deprovision(
    name: &str,
    mcp_scopes: &Vec<String>,
    secret_prefix: &str,
    state_dir: &str,
    hub_policy_removal_snippet: String,
) -> (r: (Deprovisioning, RemovalAction))
    ensures
        (r.0@, r.1@) == removal_begun(
            name@,
            text::texts(mcp_scopes@),
            secret_prefix@,
            state_dir@,
            hub_policy_removal_snippet@,
        ).asking(RemovalStage::KeyRead),
        r.0@.in_range(),
{
    let mut run = Deprovisioning {
        name: name.to_owned(),
        mcp_scopes: text::copy_texts(mcp_scopes),
        secret_prefix: secret_prefix.to_owned(),
        state_dir: state_dir.to_owned(),
        hub_policy_removal_snippet,
        steps: Vec::new(),
        warnings: Vec::new(),
        stage: RemovalStage::Over,
    };
    assert(run@.steps =~= Seq::<Seq<char>>::empty());
    assert(run@.warnings =~= Seq::<Seq<char>>::empty());
    let first = run.ask(RemovalStage::KeyRead);
    (run, first)
}

// ---- what holds of every removal --------------------------------------

/// How many tasks lie before a stage, out of five and one per scope.
pub open spec fn tasks_before(run: RemovalView) -> int {
    match run.stage {
        RemovalStage::KeyRead | RemovalStage::KeyDeleted => 0,
        RemovalStage::OauthDeleted => 1,
        RemovalStage::KeySecretDeleted => 2,
        RemovalStage::AuthSecretDeleted => 3,
        RemovalStage::RoleDeleted(at) => 4 + at,
        RemovalStage::StateWiped => 4 + run.mcp_scopes.len() as int,
        RemovalStage::Over => 5 + run.mcp_scopes.len() as int,
    }
}

/// Whatever an event says, the removal goes on with the task after the one that
/// it reports: each task leaves one step or one warning, and nothing that was
/// noted is lost.
pub proof fn law_removal_always_goes_on(run: RemovalView, event: RemovalEventView)
    requires
        run.mcp_scopes.len() <= usize::MAX,
        run.in_range(),
        answers_removal(run.stage, event),
    ensures
        run.next(event).0.in_range(),
        if event is Text {
            &&& run.next(event).0.stage == RemovalStage::KeyDeleted
            &&& run.next(event).0.steps == run.steps
            &&& run.next(event).0.warnings == run.warnings
        } else {
            &&& tasks_before(run.next(event).0) == tasks_before(run) + 1
            &&& run.next(event).0.steps.len() + run.next(event).0.warnings.len() == run.steps.len()
                + run.warnings.len() + 1
            &&& event is Failed || (event is Absent && run.stage is RoleDeleted)
                <==> run.next(event).0.warnings.len() == run.warnings.len() + 1
        },
        run.next(event).0.steps.take(run.steps.len() as int) == run.steps,
        run.next(event).0.warnings.take(run.warnings.len() as int) == run.warnings,
        run.next(event).1 is Finish <==> run.next(event).0.stage == RemovalStage::Over,
{
    let later = run.next(event).0;
    assert(later.steps.take(run.steps.len() as int) =~= run.steps);
    assert(later.warnings.take(run.warnings.len() as int) =~= run.warnings);
}

/// A role that is already gone leaves a warning that names it and no step, and
/// the removal goes on as after any other role.
pub proof fn law_missing_role_is_a_warning(run: RemovalView, at: usize)
    requires
        run.stage == RemovalStage::RoleDeleted(at),
        run.in_range(),
    ensures
        ({
            let later = run.next(RemovalEventView::Absent);
            &&& later.0.warnings == run.warnings.push(
                "jwt_role_delete "@ + provision::role_name(run.mcp_scopes[at as int], run.name)
                    + ": no such role"@,
            )
            &&& later.0.steps == run.steps
            &&& later.0.stage == run.next(RemovalEventView::Done).0.stage
            &&& later.1 == run.next(RemovalEventView::Done).1
        }),
{
}

/// Failures change nothing of what the removal asks for next, once the model
/// key has been dealt with.
pub proof fn law_failures_do_not_divert_a_removal(run: RemovalView, f: failure::FailureView)
    requires
        run.in_range(),
        run.stage != RemovalStage::KeyRead,
        run.stage != RemovalStage::StateWiped,
        run.stage != RemovalStage::Over,
    ensures
        run.next(RemovalEventView::Failed(f)).0.stage == run.next(RemovalEventView::Done).0.stage,
        run.next(RemovalEventView::Failed(f)).1 == run.next(RemovalEventView::Done).1,
{
}

/// A removal begins with the model key, which it reads from where provisioning
/// stores it.
pub proof fn law_removal_begins_with_the_key(
    name: &str,
    mcp_scopes: Vec<String>,
    secret_prefix: &str,
    state_dir: &str,
    hub_policy_removal_snippet: String,
    r: (Deprovisioning, RemovalAction),
)
    requires
        call_ensures(
            deprovision,
            (name, &mcp_scopes, secret_prefix, state_dir, hub_policy_removal_snippet),
            r,
        ),
    ensures
        r.1@ == (RemovalActionView::ReadField {
            path: secret_prefix@ + "/"@ + name@ + "/litellm"@,
            field: "api_key"@,
        }),
        r.0.stage == RemovalStage::KeyRead,
        r.0@.name == name@ && r.0@.mcp_scopes == text::texts(mcp_scopes@),
        r.0@.secret_prefix == secret_prefix@ && r.0@.state_dir == state_dir@,
        r.0@.hub_policy_removal_snippet == hub_policy_removal_snippet@,
        r.0@.steps.len() == 0 && r.0@.warnings.len() == 0,
{
}

/// Everything that a removal asks for is the tenant's: the key that was read, the
/// provider, the two secrets, the role of each scope and the directory of its state.
/// In the end it tells what it did and what went wrong.
pub proof fn law_removal_is_about_the_tenant(run: RemovalView, event: RemovalEventView)
    requires
        run.mcp_scopes.len() <= usize::MAX,
        run.in_range(),
        answers_removal(run.stage, event),
    ensures
        ({
            let later = run.next(event).0;
            match run.next(event).1 {
                RemovalActionView::ReadField { .. } => false,
                RemovalActionView::DeleteKey { key } => event == RemovalEventView::Text(key)
                    && later.stage == RemovalStage::KeyDeleted,
                RemovalActionView::DeleteOauth { tenant } => tenant == run.name && later.stage
                    == RemovalStage::OauthDeleted,
                RemovalActionView::DeleteSecret { path } => {
                    ||| later.stage == RemovalStage::KeySecretDeleted && path == run.secret_prefix
                        + "/"@ + run.name + "/litellm"@
                    ||| later.stage == RemovalStage::AuthSecretDeleted && path == run.secret_prefix
                        + "/"@ + run.name + "/papehouse"@
                },
                RemovalActionView::DeleteRole { role } => later.stage matches RemovalStage::RoleDeleted(
                    k,
                ) && k < run.mcp_scopes.len() && role == "mcp-"@ + run.mcp_scopes[k as int] + "-"@
                    + run.name,
                RemovalActionView::WipeState { dir } => later.stage == RemovalStage::StateWiped
                    && dir == paths::joined(
                    paths::joined(run.state_dir, "tenants"@),
                    run.name,
                ),
                RemovalActionView::Finish(out) => {
                    &&& out.name == run.name
                    &&& out.hub_policy_removal_snippet == run.hub_policy_removal_snippet
                    &&& out.fleet_manifest_removal_snippet == "# Remove `- "@ + run.name
                        + "` from fleet.yaml `claws:` list, and delete claws/"@ + run.name
                        + ".toml.\n# Then commit + push.\n"@
                    &&& out.steps_completed == later.steps
                    &&& out.warnings == later.warnings
                },
            }
        }),
        run.next(event).0 == (RemovalView {
            stage: run.next(event).0.stage,
            steps: run.next(event).0.steps,
            warnings: run.next(event).0.warnings,
            ..run
        }),
{
}

/// What a removal notes of each task: a step that says what was removed, or a
/// warning that says what was tried and what went wrong.
pub proof fn law_removal_notes_each_task(run: RemovalView, f: failure::FailureView)
    requires
        run.in_range(),
        run.stage != RemovalStage::Over,
    ensures
        run.stage != RemovalStage::KeyRead ==> run.next(RemovalEventView::Done).0.steps
            == run.steps.push(
            match run.stage {
                RemovalStage::KeyDeleted => "litellm:deleted"@,
                RemovalStage::OauthDeleted => "authentik:deleted"@,
                RemovalStage::KeySecretDeleted => "bao:deleted:"@ + (run.secret_prefix + "/"@
                    + run.name + "/litellm"@),
                RemovalStage::AuthSecretDeleted => "bao:deleted:"@ + (run.secret_prefix + "/"@
                    + run.name + "/papehouse"@),
                RemovalStage::RoleDeleted(k) => "jwt:deleted:"@ + ("mcp-"@
                    + run.mcp_scopes[k as int] + "-"@ + run.name),
                _ => "state:wiped"@,
            },
        ),
        run.next(RemovalEventView::Failed(f)).0.warnings == run.warnings.push(
            match run.stage {
                RemovalStage::KeyRead => "could not read litellm key for delete"@,
                RemovalStage::KeyDeleted => "litellm delete_key"@,
                RemovalStage::OauthDeleted => "authentik delete_oauth"@,
                RemovalStage::KeySecretDeleted => "bao kv_delete "@ + (run.secret_prefix + "/"@
                    + run.name + "/litellm"@),
                RemovalStage::AuthSecretDeleted => "bao kv_delete "@ + (run.secret_prefix + "/"@
                    + run.name + "/papehouse"@),
                RemovalStage::RoleDeleted(k) => "jwt_role_delete "@ + ("mcp-"@
                    + run.mcp_scopes[k as int] + "-"@ + run.name),
                _ => "remove state dir "@ + paths::joined(
                    paths::joined(run.state_dir, "tenants"@),
                    run.name,
                ),
            } + ": "@ + f.message,
        ),
        run.stage == RemovalStage::StateWiped ==> run.next(RemovalEventView::Absent).0.steps
            == run.steps.push("state:already_absent"@),
        run.stage == RemovalStage::KeyRead ==> run.next(RemovalEventView::Failed(f)).1 is DeleteOauth,
{
}

/// What provisioning stores for a tenant is what its removal deletes: the secrets
/// stand under the same paths and the roles have the same names.
pub proof fn law_removal_undoes_provisioning(
    run: provision::RunView,
    removal: RemovalView,
    c: provision::authentik::CreatedView,
    k: int,
)
    requires
        run.request.name == removal.name,
        run.request.secret_prefix == removal.secret_prefix,
        run.request.mcp_scopes == removal.mcp_scopes,
        run.stage == provision::Stage::ProviderCreated,
        removal.stage == RemovalStage::KeySecretDeleted,
        0 <= k < run.request.mcp_scopes.len() <= usize::MAX,
    ensures
        run.next(provision::EventView::Created(c)).1 matches provision::ActionView::PutSecret {
            path,
            ..
        } && removal.next(RemovalEventView::Done).1 == (RemovalActionView::DeleteSecret { path }),
        removal.asking(RemovalStage::RoleDeleted(k as usize)).1 == (RemovalActionView::DeleteRole {
            role: run.role_at(k),
        }),
{
}

/// What is said of a removal, its actions and its result is what their fields hold, each
/// under its own name.
pub proof fn law_removal_views_show_the_fields(
    run: Deprovisioning,
    a: RemovalAction,
    out: TenantDeprovisioned,
)
    ensures
        run@.name == run.name@ && run@.secret_prefix == run.secret_prefix@ && run@.state_dir
            == run.state_dir@ && run@.hub_policy_removal_snippet
            == run.hub_policy_removal_snippet@ && run@.stage == run.stage,
        run@.mcp_scopes == text::texts(run.mcp_scopes@) && run@.steps == text::texts(run.steps@)
            && run@.warnings == text::texts(run.warnings@),
        out@.name == out.name@ && out@.hub_policy_removal_snippet
            == out.hub_policy_removal_snippet@ && out@.fleet_manifest_removal_snippet
            == out.fleet_manifest_removal_snippet@,
        out@.steps_completed == text::texts(out.steps_completed@) && out@.warnings == text::texts(
            out.warnings@,
        ),
        a matches RemovalAction::ReadField { path, field } ==> a@
            == (RemovalActionView::ReadField { path: path@, field: field@ }),
        a matches RemovalAction::DeleteKey { key } ==> a@ == (RemovalActionView::DeleteKey {
            key: key@,
        }),
        a matches RemovalAction::DeleteOauth { tenant } ==> a@ == (RemovalActionView::DeleteOauth {
            tenant: tenant@,
        }),
        a matches RemovalAction::DeleteSecret { path } ==> a@ == (RemovalActionView::DeleteSecret {
            path: path@,
        }),
        a matches RemovalAction::DeleteRole { role } ==> a@ == (RemovalActionView::DeleteRole {
            role: role@,
        }),
        a matches RemovalAction::WipeState { dir } ==> a@ == (RemovalActionView::WipeState {
            dir: dir@,
        }),
        a matches RemovalAction::Finish(done) ==> a@ == RemovalActionView::Finish(done@),
{
}

} // verus!
