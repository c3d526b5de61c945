//! The model gateway: one virtual key per tenant, with a monthly budget.

use vstd::prelude::*;
use vstd::string::*;
use crate::failure::Failure;
use crate::keymap::KeyMap;
use crate::wire::{Body, Exchange, Field, Method, Request};
use crate::{text, wire};

verus! {

/// A client of the model gateway.
#[derive(Debug)]
pub struct LiteLlmClient {
    pub base_url: String,
    pub master_key: String,
}

impl LiteLlmClient {
    /// A client for the gateway at `base_url`, with its master key.
    pub fn new(base_url: &str, master_key: &str) -> (r: Self)
        ensures
            r.base_url@ == text::strip_back(base_url@, text::CharClass::Exactly('/')),
            r.master_key@ == master_key@,
    {
        LiteLlmClient {
            base_url: text::trim_end_matches(base_url, '/'),
            master_key: master_key.to_owned(),
        }
    }

    /// The request that generates a tenant's virtual key. No model named means
    /// every model. The budget, in US dollars in JSON notation, is a hard cap
    /// over thirty days.
    pub fn generate_key(&self, tenant: &str, models: &Vec<String>, monthly_budget_usd: &str) -> (r:
        Request)
        ensures
            r@ == (wire::RequestView {
                method: Method::Post,
                url: self.base_url@ + "/key/generate"@,
                header: Some(("Authorization"@, "Bearer "@ + self.master_key@)),
                body: wire::BodyView::Json(
                    map![
                        "user_id"@ => wire::FieldView::Text(tenant@),
                        "key_alias"@ => wire::FieldView::Text("claw-"@ + tenant@),
                        "models"@ => wire::FieldView::Texts(text::texts(models@)),
                        "max_budget"@ => wire::FieldView::Number(monthly_budget_usd@),
                        "budget_duration"@ => wire::FieldView::Text("30d"@),
                    ],
                ),
            }),
    {
        broadcast use {wire::lemma_object_insert, wire::lemma_object_empty};

        let mut url = self.base_url.clone();
        url.append("/key/generate");
        let mut bearer = "Bearer ".to_owned();
        bearer.append(self.master_key.as_str());
        let mut alias = "claw-".to_owned();
        alias.append(tenant);
        let mut body: KeyMap<Field> = KeyMap::new();
        body.insert("user_id".to_owned(), Field::Text(tenant.to_owned()));
        body.insert("key_alias".to_owned(), Field::Text(alias));
        body.insert("models".to_owned(), Field::Texts(text::copy_texts(models)));
        body.insert("max_budget".to_owned(), Field::Number(monthly_budget_usd.to_owned()));
        body.insert("budget_duration".to_owned(), Field::Text("30d".to_owned()));
        Request {
            method: Method::Post,
            url,
            header: Some(("Authorization".to_owned(), bearer)),
            body: Body::Json(body),
        }
    }

    /// The key, from the answer to [`LiteLlmClient::generate_key`].
    pub fn generate_key_reply(&self, ex: Exchange<String>) -> (r: Result<String, Failure>)
        ensures
            wire::outcome(r) == wire::answer(
                ex,
                "litellm POST /key/generate"@,
                "litellm /key/generate"@,
                "litellm parse"@,
            ),
    {
        wire::read_value(ex, "litellm POST /key/generate", "litellm /key/generate", "litellm parse")
    }
}

/// The client talks to the address that it was given, without the slashes at its end.
pub proof fn law_client_keeps_its_address(
    core: Seq<char>,
    slashes: Seq<char>,
    base_url: &str,
    master_key: &str,
    client: LiteLlmClient,
)
    requires
        core.len() == 0 || core.last() != '/',
        forall|i: int| 0 <= i < slashes.len() ==> #[trigger] slashes[i] == '/',
        base_url@ == core + slashes,
        call_ensures(LiteLlmClient::new, (base_url, master_key), client),
    ensures
        client.base_url@ == core,
        client.master_key@ == master_key@,
{
    text::law_stripping_leaves_the_text(core, slashes, text::CharClass::Exactly('/'));
}

} // verus!
