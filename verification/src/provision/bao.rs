//! The secret store: key-value secrets of version 2 and JWT roles.

use vstd::prelude::*;
use vstd::string::*;
use crate::failure::Failure;
use crate::keymap::KeyMap;
use crate::wire::{Body, Exchange, Field, Method, Request};
use crate::{failure, text, wire};

verus! {

/// A client of the secret store.
#[derive(Debug)]
pub struct BaoClient {
    pub base_url: String,
    pub token: String,
    pub kv_mount: String,
}

impl BaoClient {
    /// A client for the store at `base_url`, with the token that it presents.
    /// Secrets are mounted at `secret`.
    pub fn new(base_url: &str, token: &str) -> (r: Self)
        ensures
            r.base_url@ == text::strip_back(base_url@, text::CharClass::Exactly('/')),
            r.token@ == token@,
            r.kv_mount@ == "secret"@,
    {
        BaoClient {
            base_url: text::trim_end_matches(base_url, '/'),
            token: token.to_owned(),
            kv_mount: "secret".to_owned(),
        }
    }

    /// The same client with the secrets mounted elsewhere.
    pub fn with_mount(self, mount: &str) -> (r: Self)
        ensures
            r.base_url@ == self.base_url@,
            r.token@ == self.token@,
            r.kv_mount@ == mount@,
    {
        BaoClient { base_url: self.base_url, token: self.token, kv_mount: mount.to_owned() }
    }

    /// The address of a secret in a section of the mount; leading slashes of
    /// the path do not count.
    pub open spec fn kv_address(self, section: Seq<char>, path: Seq<char>) -> Seq<char> {
        self.base_url@ + "/v1/"@ + self.kv_mount@ + section + text::strip_front(
            path,
            text::CharClass::Exactly('/'),
        )
    }

    /// The address of a JWT role.
    pub open spec fn role_address(self, role: Seq<char>) -> Seq<char> {
        self.base_url@ + "/v1/auth/jwt/role/"@ + role
    }

    /// The header that every request carries.
    pub open spec fn token_header(self) -> (Seq<char>, Seq<char>) {
        ("X-Vault-Token"@, self.token@)
    }

    fn kv_section_url(&self, section: &str, path: &str) -> (r: String)
        ensures
            r@ == self.kv_address(section@, path@),
    {
        let mut out = self.base_url.clone();
        out.append("/v1/");
        out.append(self.kv_mount.as_str());
        out.append(section);
        out.append(text::trim_start_matches(path, '/').as_str());
        out
    }

    fn role_url(&self, role: &str) -> (r: String)
        ensures
            r@ == self.role_address(role@),
    {
        let mut out = self.base_url.clone();
        out.append("/v1/auth/jwt/role/");
        out.append(role);
        out
    }

    fn header(&self) -> (r: Option<(String, String)>)
        ensures
            r matches Some(h) && (h.0@, h.1@) == self.token_header(),
    {
        Some(("X-Vault-Token".to_owned(), self.token.clone()))
    }

    /// The address at which a secret is read and written.
    pub fn kv_url(&self, path: &str) -> (r: String)
        ensures
            r@ == self.kv_address("/data/"@, path@),
    {
        self.kv_section_url("/data/", path)
    }

    /// The request that reads a secret.
    pub fn kv_get(&self, path: &str) -> (r: Request)
        ensures
            r@ == (wire::RequestView {
                method: Method::Get,
                url: self.kv_address("/data/"@, path@),
                header: Some(self.token_header()),
                body: wire::BodyView::Empty,
            }),
    {
        Request {
            method: Method::Get,
            url: self.kv_url(path),
            header: self.header(),
            body: Body::Empty,
        }
    }

    /// The fields of a secret, from the answer to [`BaoClient::kv_get`].
    pub fn kv_get_reply(&self, path: &str, ex: Exchange<KeyMap<String>>) -> (r: Result<
        KeyMap<String>,
        Failure,
    >)
        ensures
            wire::outcome(r) == wire::answer(
                ex,
                "bao GET"@,
                "bao GET "@ + self.kv_address("/data/"@, path@),
                "bao GET parse"@,
            ),
    {
        let mut label = "bao GET ".to_owned();
        label.append(self.kv_url(path).as_str());
        wire::read_value(ex, "bao GET", label.as_str(), "bao GET parse")
    }

    /// One field of a secret, from the answer to [`BaoClient::kv_get`].
    pub fn kv_get_field(&self, path: &str, field: &str, ex: Exchange<KeyMap<String>>) -> (r: Result<
        String,
        Failure,
    >)
        ensures
            match wire::answer(
                ex,
                "bao GET"@,
                "bao GET "@ + self.kv_address("/data/"@, path@),
                "bao GET parse"@,
            ) {
                Ok(fields) => if fields@.dom().contains(field@) {
                    r matches Ok(v) && v@ == fields@[field@]@
                } else {
                    r matches Err(f) && f@ == failure::plain_failure(
                        "bao secret "@ + path@ + " missing field "@ + field@,
                    )
                },
                Err(f) => r matches Err(g) && g@ == f,
            },
    {
        match self.kv_get_reply(path, ex) {
            Ok(fields) => match fields.get(field) {
                Some(v) => Ok(v.clone()),
                None => {
                    let mut out = "bao secret ".to_owned();
                    out.append(path);
                    out.append(" missing field ");
                    out.append(field);
                    Err(Failure::new(out))
                },
            },
            Err(f) => Err(f),
        }
    }

    /// The request that writes a secret.
    pub fn kv_put(&self, path: &str, fields: KeyMap<String>) -> (r: Request)
        ensures
            r@ == (wire::RequestView {
                method: Method::Post,
                url: self.kv_address("/data/"@, path@),
                header: Some(self.token_header()),
                body: wire::BodyView::Json(
                    map!["data"@ => wire::FieldView::Fields(wire::text_map(fields@))],
                ),
            }),
    {
        broadcast use {wire::lemma_object_insert, wire::lemma_object_empty};

        let mut body: KeyMap<Field> = KeyMap::new();
        body.insert("data".to_owned(), Field::Fields(fields));
        Request {
            method: Method::Post,
            url: self.kv_url(path),
            header: self.header(),
            body: Body::Json(body),
        }
    }

    /// What came of [`BaoClient::kv_put`].
    pub fn kv_put_reply<T>(&self, path: &str, ex: Exchange<T>) -> (r: Result<(), Failure>)
        ensures
            wire::outcome(r) == wire::completion(
                ex,
                "bao POST"@,
                "bao POST "@ + self.kv_address("/data/"@, path@),
                false,
            ),
    {
        let mut label = "bao POST ".to_owned();
        label.append(self.kv_url(path).as_str());
        wire::read_outcome(ex, "bao POST", label.as_str(), false)
    }

    /// The request that deletes every version of a secret.
    pub fn kv_delete(&self, path: &str) -> (r: Request)
        ensures
            r@ == (wire::RequestView {
                method: Method::Delete,
                url: self.kv_address("/metadata/"@, path@),
                header: Some(self.token_header()),
                body: wire::BodyView::Empty,
            }),
    {
        Request {
            method: Method::Delete,
            url: self.kv_section_url("/metadata/", path),
            header: self.header(),
            body: Body::Empty,
        }
    }

    /// What came of [`BaoClient::kv_delete`]. A secret that is already gone
    /// counts as deleted.
    pub fn kv_delete_reply<T>(&self, path: &str, ex: Exchange<T>) -> (r: Result<(), Failure>)
        ensures
            wire::outcome(r) == wire::completion(
                ex,
                "bao DELETE metadata"@,
                "bao DELETE "@ + self.kv_address("/metadata/"@, path@),
                true,
            ),
    {
        let mut label = "bao DELETE ".to_owned();
        label.append(self.kv_section_url("/metadata/", path).as_str());
        wire::read_outcome(ex, "bao DELETE metadata", label.as_str(), true)
    }

    /// The request that deletes a JWT role.
    pub fn jwt_role_delete(&self, role: &str) -> (r: Request)
        ensures
            r@ == (wire::RequestView {
                method: Method::Delete,
                url: self.role_address(role@),
                header: Some(self.token_header()),
                body: wire::BodyView::Empty,
            }),
    {
        Request {
            method: Method::Delete,
            url: self.role_url(role),
            header: self.header(),
            body: Body::Empty,
        }
    }

    /// What came of [`BaoClient::jwt_role_delete`]: whether there was such a role.
    /// One that is already gone is no failure.
    pub fn jwt_role_delete_reply<T>(&self, role: &str, ex: Exchange<T>) -> (r: Result<
        bool,
        Failure,
    >)
        ensures
            wire::outcome(r) == wire::deletion(
                ex,
                "bao DELETE jwt role"@,
                "bao DELETE "@ + self.role_address(role@),
            ),
    {
        let mut label = "bao DELETE ".to_owned();
        label.append(self.role_url(role).as_str());
        wire::read_deletion(ex, "bao DELETE jwt role", label.as_str())
    }

    /// The request that creates or updates a JWT role.
    pub fn jwt_role_upsert(
        &self,
        role: &str,
        bound_audiences: Vec<String>,
        policies: Vec<String>,
        user_claim: &str,
        ttl_seconds: u64,
    ) -> (r: Request)
        ensures
            r@ == (wire::RequestView {
                method: Method::Post,
                url: self.role_address(role@),
                header: Some(self.token_header()),
                body: wire::BodyView::Json(
                    map![
                        "role_type"@ => wire::FieldView::Text("jwt"@),
                        "bound_audiences"@ => wire::FieldView::Texts(text::texts(bound_audiences@)),
                        "user_claim"@ => wire::FieldView::Text(user_claim@),
                        "policies"@ => wire::FieldView::Texts(text::texts(policies@)),
                        "ttl"@ => wire::FieldView::Text(
                            text::decimal_text(ttl_seconds as nat) + "s"@,
                        ),
                    ],
                ),
            }),
    {
        broadcast use {wire::lemma_object_insert, wire::lemma_object_empty};

        let mut ttl = text::decimal(ttl_seconds);
        ttl.append("s");
        let mut body: KeyMap<Field> = KeyMap::new();
        body.insert("role_type".to_owned(), Field::Text("jwt".to_owned()));
        body.insert("bound_audiences".to_owned(), Field::Texts(bound_audiences));
        body.insert("user_claim".to_owned(), Field::Text(user_claim.to_owned()));
        body.insert("policies".to_owned(), Field::Texts(policies));
        body.insert("ttl".to_owned(), Field::Text(ttl));
        Request {
            method: Method::Post,
            url: self.role_url(role),
            header: self.header(),
            body: Body::Json(body),
        }
    }

    /// What came of [`BaoClient::jwt_role_upsert`].
    pub fn jwt_role_upsert_reply<T>(&self, role: &str, ex: Exchange<T>) -> (r: Result<(), Failure>)
        ensures
            wire::outcome(r) == wire::completion(
                ex,
                "bao jwt role POST"@,
                "bao jwt role POST "@ + self.role_address(role@),
                false,
            ),
    {
        let mut label = "bao jwt role POST ".to_owned();
        label.append(self.role_url(role).as_str());
        wire::read_outcome(ex, "bao jwt role POST", label.as_str(), false)
    }
}

/// The client talks to the address that it was given, without the slashes at its end,
/// and presents the token that it was given.
pub proof fn law_client_keeps_its_address(
    core: Seq<char>,
    slashes: Seq<char>,
    base_url: &str,
    token: &str,
    client: BaoClient,
)
    requires
        core.len() == 0 || core.last() != '/',
        forall|i: int| 0 <= i < slashes.len() ==> #[trigger] slashes[i] == '/',
        base_url@ == core + slashes,
        call_ensures(BaoClient::new, (base_url, token), client),
    ensures
        client.base_url@ == core,
        client.token@ == token@,
{
    text::law_stripping_leaves_the_text(core, slashes, text::CharClass::Exactly('/'));
}

/// A secret is written and read at one address, under the mount's data, and deleted
/// with all its versions at another, under its metadata. Slashes before the path do not
/// count, and every request presents the client's token.
pub proof fn law_secrets_are_read_where_they_are_written(
    bao: BaoClient,
    slashes: Seq<char>,
    core: Seq<char>,
    path: &str,
    fields: KeyMap<String>,
    get: Request,
    put: Request,
    delete: Request,
)
    requires
        core.len() == 0 || core[0] != '/',
        forall|i: int| 0 <= i < slashes.len() ==> #[trigger] slashes[i] == '/',
        path@ == slashes + core,
        call_ensures(BaoClient::kv_get, (&bao, path), get),
        call_ensures(BaoClient::kv_put, (&bao, path, fields), put),
        call_ensures(BaoClient::kv_delete, (&bao, path), delete),
    ensures
        get@.url == put@.url,
        get@.url == bao.base_url@ + "/v1/"@ + bao.kv_mount@ + "/data/"@ + core,
        delete@.url == bao.base_url@ + "/v1/"@ + bao.kv_mount@ + "/metadata/"@ + core,
        get@.method == Method::Get && put@.method == Method::Post && delete@.method
            == Method::Delete,
        get@.header == Some(("X-Vault-Token"@, bao.token@)),
        put@.header == get@.header && delete@.header == get@.header,
        put@.body == wire::BodyView::Json(
            map!["data"@ => wire::FieldView::Fields(wire::text_map(fields@))],
        ),
        get@.body is Empty && delete@.body is Empty,
{
    text::law_stripping_leaves_the_text(core, slashes, text::CharClass::Exactly('/'));
}

/// A role is created and deleted at one address, that of its name, and every request
/// presents the client's token.
pub proof fn law_roles_are_deleted_where_they_are_created(
    bao: BaoClient,
    role: &str,
    bound_audiences: Vec<String>,
    policies: Vec<String>,
    user_claim: &str,
    ttl_seconds: u64,
    upsert: Request,
    delete: Request,
)
    requires
        call_ensures(
            BaoClient::jwt_role_upsert,
            (&bao, role, bound_audiences, policies, user_claim, ttl_seconds),
            upsert,
        ),
        call_ensures(BaoClient::jwt_role_delete, (&bao, role), delete),
    ensures
        upsert@.url == bao.base_url@ + "/v1/auth/jwt/role/"@ + role@,
        delete@.url == upsert@.url,
        upsert@.method == Method::Post && delete@.method == Method::Delete,
        upsert@.header == Some(("X-Vault-Token"@, bao.token@)),
        delete@.header == upsert@.header,
        delete@.body is Empty,
{
}

/// A field that was written is the one that is read: the answer's field of that name,
/// and a failure that names secret and field where the answer has none.
pub proof fn law_field_is_read_by_its_name(
    bao: BaoClient,
    path: &str,
    field: &str,
    status: u16,
    status_line: String,
    text: String,
    fields: KeyMap<String>,
    r: Result<String, Failure>,
)
    requires
        200 <= status <= 299,
        call_ensures(
            BaoClient::kv_get_field,
            (
                &bao,
                path,
                field,
                Exchange::Answered { status, status_line, text, value: Ok(fields) },
            ),
            r,
        ),
    ensures
        fields@.dom().contains(field@) ==> (r matches Ok(v) && v@ == fields@[field@]@),
        !fields@.dom().contains(field@) ==> (r matches Err(f) && f@.message == "bao secret "@
            + path@ + " missing field "@ + field@),
{
    let ex = Exchange::Answered { status, status_line, text, value: Ok::<
        KeyMap<String>,
        String,
    >(fields) };
    assert(wire::answer(
        ex,
        "bao GET"@,
        "bao GET "@ + bao.kv_address("/data/"@, path@),
        "bao GET parse"@,
    ) == Ok::<KeyMap<String>, failure::FailureView>(fields));
}

} // verus!
