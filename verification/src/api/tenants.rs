//! Provisioning of tenants.

use vstd::prelude::*;
use vstd::string::*;
use crate::api::{Answer, AnswerBody};
use crate::failure::Failure;
use crate::keymap::KeyMap;
use crate::manifest::ClawOverlay;
use crate::provision::TenantProvisioned;
use crate::wire::Field;
use crate::{failure, wire};

verus! {

/// The answer carries the object under the status.
pub open spec fn tells<T>(
    a: Answer<T>,
    status: u16,
    fields: Map<Seq<char>, wire::FieldView>,
) -> bool {
    a.status == status && (a.body matches AnswerBody::Fields(m) && wire::object(m@) == fields)
}

/// The answer where provisioning was not set up.
pub fn disabled() -> (r: Answer<TenantProvisioned>)
    ensures
        tells(
            r,
            503,
            map![
                "error"@ => wire::FieldView::Text(
                    "provisioning disabled — orchestrator missing bao/authentik/litellm bootstrap"@,
                ),
                "hint"@ => wire::FieldView::Text(
                    "configure FLEET_BAO_TOKEN + the bao paths the orchestrator reads for litellm/authentik creds"@,
                ),
            ],
        ),
{
    broadcast use {wire::lemma_object_insert, wire::lemma_object_empty};

    let mut out: KeyMap<Field> = KeyMap::new();
    out.insert(
        "error".to_owned(),
        Field::Text(
            "provisioning disabled — orchestrator missing bao/authentik/litellm bootstrap".to_owned(),
        ),
    );
    out.insert(
        "hint".to_owned(),
        Field::Text(
            "configure FLEET_BAO_TOKEN + the bao paths the orchestrator reads for litellm/authentik creds".to_owned(),
        ),
    );
    Answer { status: 503, body: AnswerBody::Fields(out) }
}

/// Whether a tenant's claw was imported: it has its identity and its secrets
/// already, and provisioning is skipped.
pub fn is_imported(overlay: Option<&ClawOverlay>) -> (r: bool)
    ensures
        r == (overlay matches Some(o) && o.fleet.import),
{
    match overlay {
        Some(o) => o.fleet.import,
        None => false,
    }
}

/// The answer where provisioning is skipped because the claw was imported.
pub fn skipped(tenant: &str) -> (r: Answer<TenantProvisioned>)
    ensures
        tells(
            r,
            200,
            map![
                "tenant"@ => wire::FieldView::Text(tenant@),
                "note"@ => wire::FieldView::Text("imported claw — provisioning skipped"@),
            ],
        ),
{
    broadcast use {wire::lemma_object_insert, wire::lemma_object_empty};

    let mut out: KeyMap<Field> = KeyMap::new();
    out.insert("tenant".to_owned(), Field::Text(tenant.to_owned()));
    out.insert("note".to_owned(), Field::Text("imported claw — provisioning skipped".to_owned()));
    Answer { status: 200, body: AnswerBody::Fields(out) }
}

/// The answer to a request to provision a tenant, from what came of the run. A
/// failure is told with everything that lies behind it.
pub fn create(tenant: &str, run: Result<TenantProvisioned, Failure>) -> (r: Answer<
    TenantProvisioned,
>)
    ensures
        match run {
            Ok(out) => r.status == 200 && r.body == AnswerBody::Value(out),
            Err(f) => tells(
                r,
                500,
                map![
                    "error"@ => wire::FieldView::Text(
                        f@.message + failure::after_colons(f@.causes),
                    ),
                    "tenant"@ => wire::FieldView::Text(tenant@),
                    "note"@ => wire::FieldView::Text(
                        "this call is idempotent — re-POSTing the same body resumes from the last successful step"@,
                    ),
                ],
            ),
        },
{
    broadcast use {wire::lemma_object_insert, wire::lemma_object_empty};

    match run {
        Ok(out) => Answer { status: 200, body: AnswerBody::Value(out) },
        Err(f) => {
            let mut out: KeyMap<Field> = KeyMap::new();
            out.insert("error".to_owned(), Field::Text(f.detail()));
            out.insert("tenant".to_owned(), Field::Text(tenant.to_owned()));
            out.insert(
                "note".to_owned(),
                Field::Text(
                    "this call is idempotent — re-POSTing the same body resumes from the last successful step".to_owned(),
                ),
            );
            Answer { status: 500, body: AnswerBody::Fields(out) }
        },
    }
}

// ---- what holds of the answers ----------------------------------------

/// A tenant that was provisioned is sent with 200. A failed run is answered with 500, with
/// the tenant, everything that lies behind the failure, and the note that the call can be
/// repeated.
pub proof fn law_run_is_answered(
    tenant: &str,
    run: Result<TenantProvisioned, Failure>,
    r: Answer<TenantProvisioned>,
    told: String,
)
    requires
        call_ensures(create, (tenant, run), r),
        run matches Err(f) ==> call_ensures(Failure::detail, (&f,), told),
    ensures
        run matches Ok(out) ==> r.status == 200 && r.body == AnswerBody::Value(out),
        run is Err ==> r.status == 500 && (r.body matches AnswerBody::Fields(m) && {
            let o = wire::object(m@);
            &&& o.dom() == set!["error"@, "tenant"@, "note"@]
            &&& o["error"@] == wire::FieldView::Text(told@)
            &&& o["tenant"@] == wire::FieldView::Text(tenant@)
        }),
{
    lemma_answer_fields_differ();
    if let Err(f) = run {
        let o = wire::object(r.body->Fields_0@);
        assert(o.dom() =~= set!["error"@, "tenant"@, "note"@]);
    }
}

proof fn lemma_answer_fields_differ()
    ensures
        "error"@ != "tenant"@,
        "error"@ != "note"@,
        "tenant"@ != "note"@,
        "error"@ != "hint"@,
{
    reveal_strlit("error");
    reveal_strlit("tenant");
    reveal_strlit("note");
    reveal_strlit("hint");
    assert("error"@.len() == 5 && "tenant"@.len() == 6 && "note"@.len() == 4 && "hint"@.len() == 4);
}

/// Where provisioning is not set up, the answer is 503, with an error and a hint; for an
/// imported claw it is skipped, which is told with 200 and the tenant's name.
pub proof fn law_nothing_is_provisioned(
    tenant: &str,
    off: Answer<TenantProvisioned>,
    skip: Answer<TenantProvisioned>,
)
    requires
        call_ensures(disabled, (), off),
        call_ensures(skipped, (tenant,), skip),
    ensures
        off.status == 503 && (off.body matches AnswerBody::Fields(m) && wire::object(m@).dom()
            == set!["error"@, "hint"@]),
        skip.status == 200 && (skip.body matches AnswerBody::Fields(m) && wire::object(m@).dom()
            == set!["tenant"@, "note"@] && wire::object(m@)["tenant"@] == wire::FieldView::Text(
            tenant@,
        )),
{
    lemma_answer_fields_differ();
    assert(wire::object(off.body->Fields_0@).dom() =~= set!["error"@, "hint"@]);
    assert(wire::object(skip.body->Fields_0@).dom() =~= set!["tenant"@, "note"@]);
}

} // verus!
