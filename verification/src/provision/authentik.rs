//! The identity provider: one OAuth2 provider and one application per tenant.
//!
//! A tenant's provider is made after a template, whose signing key and
//! authorization flow it takes over.

use vstd::prelude::*;
use vstd::string::*;
use crate::failure::Failure;
use crate::keymap::KeyMap;
use crate::wire::{Body, Exchange, Field, Method, Request};
use crate::{failure, text, wire};

verus! {

/// A client of the identity provider's administration.
#[derive(Debug)]
pub struct AuthentikClient {
    pub base_url: String,
    pub token: String,
}

/// What a tenant's provider takes over from the template.
#[derive(Debug)]
pub struct ProviderTemplate {
    pub authorization_flow: Option<String>,
    pub property_mappings: Option<Vec<String>>,
    pub signing_key: Option<String>,
}

/// What a template says.
pub struct TemplateView {
    pub authorization_flow: Option<Seq<char>>,
    pub property_mappings: Option<Seq<Seq<char>>>,
    pub signing_key: Option<Seq<char>>,
}

impl View for ProviderTemplate {
    type V = TemplateView;

    open spec fn view(&self) -> TemplateView {
        TemplateView {
            authorization_flow: text::opt_text(self.authorization_flow),
            property_mappings: match self.property_mappings {
                Some(v) => Some(text::texts(v@)),
                None => None,
            },
            signing_key: text::opt_text(self.signing_key),
        }
    }
}

impl Default for ProviderTemplate {
    /// A template that fixes nothing.
    fn default() -> (r: Self)
        ensures
            r@ == (TemplateView {
                authorization_flow: None,
                property_mappings: None,
                signing_key: None,
            }),
    {
        ProviderTemplate { authorization_flow: None, property_mappings: None, signing_key: None }
    }
}

/// A provider as the administration reports it.
#[derive(Debug)]
pub struct OAuthProvider {
    pub pk: i64,
    pub client_secret: String,
}

/// A provider and its application, created for a tenant.
#[derive(Debug)]
pub struct OAuthProviderCreated {
    pub provider_pk: i64,
    pub application_slug: String,
    pub client_id: String,
    pub client_secret: String,
}

/// What a created provider says.
pub struct CreatedView {
    pub provider_pk: i64,
    pub application_slug: Seq<char>,
    pub client_id: Seq<char>,
    pub client_secret: Seq<char>,
}

impl View for OAuthProviderCreated {
    type V = CreatedView;

    open spec fn view(&self) -> CreatedView {
        CreatedView {
            provider_pk: self.provider_pk,
            application_slug: self.application_slug@,
            client_id: self.client_id@,
            client_secret: self.client_secret@,
        }
    }
}

// ---- query strings ----------------------------------------------------

/// Whether a byte stands for itself in a query string.
pub open spec fn unreserved(b: u8) -> bool {
    ||| 0x41 <= b <= 0x5a
    ||| 0x61 <= b <= 0x7a
    ||| 0x30 <= b <= 0x39
    ||| b == 0x2d
    ||| b == 0x5f
    ||| b == 0x2e
    ||| b == 0x7e
}

/// The upper-case hexadecimal digit of value `d`.
pub open spec fn upper_hex(d: u8) -> char {
    if d < 10 {
        (0x30 + d) as char
    } else {
        (0x37 + d) as char
    }
}

/// How one byte is written in a query string.
pub open spec fn encoded_byte(b: u8) -> Seq<char> {
    if unreserved(b) {
        seq![b as char]
    } else {
        seq!['%', upper_hex(b / 16), upper_hex(b % 16)]
    }
}

/// How a run of bytes is written in a query string.
pub open spec fn encoded(bytes: Seq<u8>) -> Seq<char>
    decreases bytes.len(),
{
    if bytes.len() == 0 {
        Seq::empty()
    } else {
        encoded(bytes.drop_last()) + encoded_byte(bytes.last())
    }
}

fn upper_hex_digit(d: u8) -> (r: char)
    requires
        d < 16,
    ensures
        r == upper_hex(d),
{
    if d < 10 {
        (0x30 + d) as char
    } else {
        (0x37 + d) as char
    }
}

/// Encodes a text for a query string: every byte of its UTF-8 form that is not
/// unreserved becomes a percent sign and two digits.
pub fn urlencoding(s: &str) -> (r: String)
    ensures
        r@ == encoded(vstd::utf8::encode_utf8(s@)),
{
    let bytes = s.as_bytes();
    let ghost all = bytes@;
    let mut out = String::new();
    let mut i: usize = 0;
    while i < bytes.len()
        invariant
            i <= bytes.len(),
            all == bytes@,
            out@ == encoded(all.take(i as int)),
        decreases bytes.len() - i,
    {
        assert(all.take(i + 1).drop_last() =~= all.take(i as int));
        let b = bytes[i];
        if (0x41 <= b && b <= 0x5a) || (0x61 <= b && b <= 0x7a) || (0x30 <= b && b <= 0x39) || b
            == 0x2d || b == 0x5f || b == 0x2e || b == 0x7e {
            out.push(b as char);
        } else {
            out.push('%');
            out.push(upper_hex_digit(b / 16));
            out.push(upper_hex_digit(b % 16));
        }
        assert(out@ =~= encoded(all.take(i + 1)));
        i = i + 1;
    }
    assert(all.take(all.len() as int) =~= all);
    out
}

/// A text that is made of unreserved characters only is its own encoding.
pub proof fn law_unreserved_text_is_kept(s: Seq<char>)
    requires
        forall|i: int|
            0 <= i < s.len() ==> '\0' <= #[trigger] s[i] <= '\u{7f}' && unreserved(s[i] as u8),
    ensures
        encoded(vstd::utf8::encode_utf8(s)) == s,
{
    assert(vstd::utf8::is_ascii_chars(s));
    vstd::utf8::is_ascii_chars_encode_utf8(s);
    lemma_unreserved_bytes(vstd::utf8::encode_utf8(s), s);
}

proof fn lemma_unreserved_bytes(bytes: Seq<u8>, s: Seq<char>)
    requires
        bytes.len() == s.len(),
        forall|i: int| 0 <= i < s.len() ==> bytes[i] == #[trigger] s[i] as u8,
        forall|i: int|
            0 <= i < s.len() ==> '\0' <= #[trigger] s[i] <= '\u{7f}' && unreserved(s[i] as u8),
    ensures
        encoded(bytes) == s,
    decreases s.len(),
{
    if s.len() > 0 {
        lemma_unreserved_bytes(bytes.drop_last(), s.drop_last());
        let c = s.last();
        assert(s[s.len() - 1] == c);
        assert((c as u8) as char == c);
        assert(encoded(bytes) =~= s);
    } else {
        assert(encoded(bytes) =~= s);
    }
}

proof fn lemma_encoded_first(bytes: Seq<u8>)
    requires
        bytes.len() > 0,
    ensures
        encoded(bytes) == encoded_byte(bytes[0]) + encoded(bytes.drop_first()),
    decreases bytes.len(),
{
    if bytes.len() == 1 {
        assert(bytes.drop_last() =~= Seq::<u8>::empty());
        assert(bytes.drop_first() =~= Seq::<u8>::empty());
        assert(encoded(bytes) =~= encoded_byte(bytes[0]) + encoded(bytes.drop_first()));
    } else {
        lemma_encoded_first(bytes.drop_last());
        assert(bytes.drop_last().drop_first() =~= bytes.drop_first().drop_last());
        assert(encoded(bytes) =~= encoded_byte(bytes[0]) + encoded(bytes.drop_first()));
    }
}

proof fn lemma_encoded_distinguishes(a: Seq<u8>, b: Seq<u8>)
    requires
        encoded(a) == encoded(b),
    ensures
        a == b,
    decreases a.len(),
{
    if a.len() > 0 {
        lemma_encoded_first(a);
    }
    if b.len() > 0 {
        lemma_encoded_first(b);
    }
    if a.len() == 0 || b.len() == 0 {
        if a.len() > 0 {
            assert(encoded(a).len() > 0);
        }
        if b.len() > 0 {
            assert(encoded(b).len() > 0);
        }
        assert(a =~= b);
    } else {
        let x = a[0];
        let y = b[0];
        assert(encoded(a)[0] == encoded_byte(x)[0]);
        assert(encoded(b)[0] == encoded_byte(y)[0]);
        if !unreserved(x) {
            assert(!unreserved(y));
            assert(encoded(a)[1] == encoded_byte(x)[1]);
            assert(encoded(b)[1] == encoded_byte(y)[1]);
            assert(encoded(a)[2] == encoded_byte(x)[2]);
            assert(encoded(b)[2] == encoded_byte(y)[2]);
            assert(x / 16 == y / 16);
            assert(x % 16 == y % 16);
        }
        assert(x == y);
        let n = encoded_byte(x).len() as int;
        assert(encoded(a).skip(n) =~= encoded(a.drop_first()));
        assert(encoded(b).skip(n) =~= encoded(b.drop_first()));
        lemma_encoded_distinguishes(a.drop_first(), b.drop_first());
        assert(a =~= seq![x] + a.drop_first());
        assert(b =~= seq![y] + b.drop_first());
    }
}

/// Texts with the same encoding are the same text.
pub proof fn law_encoding_loses_nothing(a: Seq<char>, b: Seq<char>)
    requires
        encoded(vstd::utf8::encode_utf8(a)) == encoded(vstd::utf8::encode_utf8(b)),
    ensures
        a == b,
{
    lemma_encoded_distinguishes(vstd::utf8::encode_utf8(a), vstd::utf8::encode_utf8(b));
    vstd::utf8::encode_utf8_decode_utf8(a);
    vstd::utf8::encode_utf8_decode_utf8(b);
}

// ---- the client -------------------------------------------------------

/// The name under which everything of a tenant is registered.
pub open spec fn registered_name(tenant: Seq<char>) -> Seq<char> {
    "mcp-"@ + tenant
}

fn register_name(tenant: &str) -> (r: String)
    ensures
        r@ == registered_name(tenant@),
{
    let mut out = "mcp-".to_owned();
    out.append(tenant);
    out
}

/// A text, or null where there is none.
pub open spec fn text_or_null(o: Option<Seq<char>>) -> wire::FieldView {
    match o {
        Some(s) => wire::FieldView::Text(s),
        None => wire::FieldView::Null,
    }
}

fn optional_field(o: &Option<String>) -> (r: Field)
    ensures
        r@ == text_or_null(text::opt_text(*o)),
{
    match o {
        Some(s) => Field::Text(s.clone()),
        None => Field::Null,
    }
}

impl AuthentikClient {
    /// A client for the identity provider at `base_url`, with the token that it
    /// presents.
    pub fn new(base_url: &str, token: &str) -> (r: Self)
        ensures
            r.base_url@ == text::strip_back(base_url@, text::CharClass::Exactly('/')),
            r.token@ == token@,
    {
        AuthentikClient {
            base_url: text::trim_end_matches(base_url, '/'),
            token: token.to_owned(),
        }
    }

    /// The header that every request carries.
    pub open spec fn token_header(self) -> (Seq<char>, Seq<char>) {
        ("Authorization"@, "Bearer "@ + self.token@)
    }

    /// The address that looks a provider up by name.
    pub open spec fn lookup_address(self, name: Seq<char>) -> Seq<char> {
        self.base_url@ + "/api/v3/providers/oauth2/?name="@ + encoded(
            vstd::utf8::encode_utf8(name),
        )
    }

    /// The address of a tenant's application.
    pub open spec fn application_address(self, tenant: Seq<char>) -> Seq<char> {
        self.base_url@ + "/api/v3/core/applications/"@ + registered_name(tenant) + "/"@
    }

    /// The address of a provider.
    pub open spec fn provider_address(self, pk: int) -> Seq<char> {
        self.base_url@ + "/api/v3/providers/oauth2/"@ + text::integer_text(pk) + "/"@
    }

    /// A request without a body.
    pub open spec fn bare_request(self, method: Method, url: Seq<char>) -> wire::RequestView {
        wire::RequestView {
            method,
            url,
            header: Some(self.token_header()),
            body: wire::BodyView::Empty,
        }
    }

    fn request(&self, method: Method, url: String, body: Body) -> (r: Request)
        ensures
            r@ == (wire::RequestView {
                method,
                url: url@,
                header: Some(self.token_header()),
                body: body@,
            }),
    {
        let mut bearer = "Bearer ".to_owned();
        bearer.append(self.token.as_str());
        Request { method, url, header: Some(("Authorization".to_owned(), bearer)), body }
    }

    fn lookup_url(&self, name: &str) -> (r: String)
        ensures
            r@ == self.lookup_address(name@),
    {
        let mut out = self.base_url.clone();
        out.append("/api/v3/providers/oauth2/?name=");
        out.append(urlencoding(name).as_str());
        out
    }

    fn application_url(&self, tenant: &str) -> (r: String)
        ensures
            r@ == self.application_address(tenant@),
    {
        let mut out = self.base_url.clone();
        out.append("/api/v3/core/applications/");
        out.append(register_name(tenant).as_str());
        out.append("/");
        out
    }

    fn provider_url(&self, pk: i64) -> (r: String)
        ensures
            r@ == self.provider_address(pk as int),
    {
        let mut out = self.base_url.clone();
        out.append("/api/v3/providers/oauth2/");
        out.append(text::integer(pk).as_str());
        out.append("/");
        out
    }

    /// The request that looks the template up.
    pub fn fetch_provider_template(&self, name: &str) -> (r: Request)
        ensures
            r@ == self.bare_request(Method::Get, self.lookup_address(name@)),
    {
        let url = self.lookup_url(name);
        self.request(Method::Get, url, Body::Empty)
    }

    /// The template, from the answer to
    /// [`AuthentikClient::fetch_provider_template`]: the first provider found.
    pub fn fetch_provider_template_reply(
        &self,
        name: &str,
        ex: Exchange<Vec<ProviderTemplate>>,
    ) -> (r: Result<ProviderTemplate, Failure>)
        ensures
            match wire::answer(
                ex,
                "authentik GET provider"@,
                "authentik GET provider "@ + self.lookup_address(name@),
                "authentik parse provider"@,
            ) {
                Ok(found) => if found@.len() > 0 {
                    r == Ok::<ProviderTemplate, Failure>(found@[0])
                } else {
                    r matches Err(f) && f@ == failure::plain_failure(
                        "no authentik provider named "@ + name@,
                    )
                },
                Err(f) => r matches Err(g) && g@ == f,
            },
    {
        let mut label = "authentik GET provider ".to_owned();
        label.append(self.lookup_url(name).as_str());
        match wire::read_value(
            ex,
            "authentik GET provider",
            label.as_str(),
            "authentik parse provider",
        ) {
            Ok(found) => {
                let mut found = found;
                if found.len() > 0 {
                    Ok(found.remove(0))
                } else {
                    let mut out = "no authentik provider named ".to_owned();
                    out.append(name);
                    Err(Failure::new(out))
                }
            },
            Err(f) => Err(f),
        }
    }

    /// The request that creates a tenant's provider after the template.
    pub fn create_oauth(&self, tenant: &str, template: &ProviderTemplate) -> (r: Request)
        ensures
            r@ == (wire::RequestView {
                method: Method::Post,
                url: self.base_url@ + "/api/v3/providers/oauth2/"@,
                header: Some(self.token_header()),
                body: wire::BodyView::Json(
                    map![
                        "name"@ => wire::FieldView::Text(registered_name(tenant@)),
                        "client_type"@ => wire::FieldView::Text("confidential"@),
                        "client_id"@ => wire::FieldView::Text(registered_name(tenant@)),
                        "authorization_flow"@ => text_or_null(template@.authorization_flow),
                        "property_mappings"@ => wire::FieldView::Texts(
                            match template@.property_mappings {
                                Some(m) => m,
                                None => Seq::empty(),
                            },
                        ),
                        "signing_key"@ => text_or_null(template@.signing_key),
                        "issuer_mode"@ => wire::FieldView::Text("per_provider"@),
                        "redirect_uris"@ => wire::FieldView::Texts(Seq::empty()),
                    ],
                ),
            }),
    {
        broadcast use {wire::lemma_object_insert, wire::lemma_object_empty};

        let mut url = self.base_url.clone();
        url.append("/api/v3/providers/oauth2/");
        let mappings = match &template.property_mappings {
            Some(m) => text::copy_texts(m),
            None => {
                let none: Vec<String> = Vec::new();
                assert(text::texts(none@) =~= Seq::<Seq<char>>::empty());
                none
            },
        };
        let uris: Vec<String> = Vec::new();
        assert(text::texts(uris@) =~= Seq::<Seq<char>>::empty());
        let mut body: KeyMap<Field> = KeyMap::new();
        body.insert("name".to_owned(), Field::Text(register_name(tenant)));
        body.insert("client_type".to_owned(), Field::Text("confidential".to_owned()));
        body.insert("client_id".to_owned(), Field::Text(register_name(tenant)));
        body.insert("authorization_flow".to_owned(), optional_field(&template.authorization_flow));
        body.insert("property_mappings".to_owned(), Field::Texts(mappings));
        body.insert("signing_key".to_owned(), optional_field(&template.signing_key));
        body.insert("issuer_mode".to_owned(), Field::Text("per_provider".to_owned()));
        body.insert("redirect_uris".to_owned(), Field::Texts(uris));
        self.request(Method::Post, url, Body::Json(body))
    }

    /// The provider, from the answer to [`AuthentikClient::create_oauth`].
    pub fn create_oauth_reply(&self, ex: Exchange<OAuthProvider>) -> (r: Result<
        OAuthProvider,
        Failure,
    >)
        ensures
            wire::outcome(r) == wire::answer(
                ex,
                "authentik POST provider"@,
                "authentik POST provider"@,
                "authentik parse created provider"@,
            ),
    {
        wire::read_value(
            ex,
            "authentik POST provider",
            "authentik POST provider",
            "authentik parse created provider",
        )
    }

    /// The request that binds a new application to the created provider.
    pub fn bind_application(&self, tenant: &str, provider: &OAuthProvider) -> (r: Request)
        ensures
            r@ == (wire::RequestView {
                method: Method::Post,
                url: self.base_url@ + "/api/v3/core/applications/"@,
                header: Some(self.token_header()),
                body: wire::BodyView::Json(
                    map![
                        "name"@ => wire::FieldView::Text(registered_name(tenant@)),
                        "slug"@ => wire::FieldView::Text(registered_name(tenant@)),
                        "provider"@ => wire::FieldView::Integer(provider.pk as int),
                    ],
                ),
            }),
    {
        broadcast use {wire::lemma_object_insert, wire::lemma_object_empty};

        let mut url = self.base_url.clone();
        url.append("/api/v3/core/applications/");
        let mut body: KeyMap<Field> = KeyMap::new();
        body.insert("name".to_owned(), Field::Text(register_name(tenant)));
        body.insert("slug".to_owned(), Field::Text(register_name(tenant)));
        body.insert("provider".to_owned(), Field::Integer(provider.pk));
        self.request(Method::Post, url, Body::Json(body))
    }

    /// What was created, from the answer to
    /// [`AuthentikClient::bind_application`].
    pub fn bind_application_reply<T>(
        &self,
        tenant: &str,
        provider: OAuthProvider,
        ex: Exchange<T>,
    ) -> (r: Result<OAuthProviderCreated, Failure>)
        ensures
            match wire::completion(
                ex,
                "authentik POST application"@,
                "authentik POST application"@,
                false,
            ) {
                Ok(_) => r matches Ok(created) && created@ == (CreatedView {
                    provider_pk: provider.pk,
                    application_slug: registered_name(tenant@),
                    client_id: registered_name(tenant@),
                    client_secret: provider.client_secret@,
                }),
                Err(f) => r matches Err(g) && g@ == f,
            },
    {
        match wire::read_outcome(
            ex,
            "authentik POST application",
            "authentik POST application",
            false,
        ) {
            Ok(_) => Ok(
                OAuthProviderCreated {
                    provider_pk: provider.pk,
                    application_slug: register_name(tenant),
                    client_id: register_name(tenant),
                    client_secret: provider.client_secret,
                },
            ),
            Err(f) => Err(f),
        }
    }

    /// The request that deletes a tenant's application, which comes before its
    /// provider.
    pub fn delete_oauth(&self, tenant: &str) -> (r: Request)
        ensures
            r@ == self.bare_request(Method::Delete, self.application_address(tenant@)),
    {
        let url = self.application_url(tenant);
        self.request(Method::Delete, url, Body::Empty)
    }

    /// The request that looks the tenant's provider up, from the answer to
    /// [`AuthentikClient::delete_oauth`]. An application that is already gone
    /// counts as deleted.
    pub fn delete_oauth_lookup<T>(&self, tenant: &str, ex: Exchange<T>) -> (r: Result<
        Request,
        Failure,
    >)
        ensures
            match wire::completion(
                ex,
                "authentik DELETE application"@,
                "authentik DELETE application "@ + self.application_address(tenant@),
                true,
            ) {
                Ok(_) => r matches Ok(q) && q@ == self.bare_request(
                    Method::Get,
                    self.lookup_address(registered_name(tenant@)),
                ),
                Err(f) => r matches Err(g) && g@ == f,
            },
    {
        let mut label = "authentik DELETE application ".to_owned();
        label.append(self.application_url(tenant).as_str());
        match wire::read_outcome(ex, "authentik DELETE application", label.as_str(), true) {
            Ok(_) => {
                let url = self.lookup_url(register_name(tenant).as_str());
                Ok(self.request(Method::Get, url, Body::Empty))
            },
            Err(f) => Err(f),
        }
    }

    /// The request that deletes the provider, from the answer to
    /// [`AuthentikClient::delete_oauth_lookup`]; none where no provider is
    /// found or the lookup is refused.
    pub fn delete_oauth_provider(&self, ex: Exchange<Vec<OAuthProvider>>) -> (r: Result<
        Option<Request>,
        Failure,
    >)
        ensures
            match ex {
                Exchange::Unsent(cause) => r matches Err(f) && f@ == failure::caused_failure(
                    "authentik GET provider for delete"@,
                    cause@,
                ),
                Exchange::Answered { status, value, .. } => if !wire::success(status) {
                    r matches Ok(None)
                } else {
                    match value {
                        Ok(found) => if found@.len() == 0 {
                            r matches Ok(None)
                        } else {
                            r matches Ok(Some(q)) && q@ == self.bare_request(
                                Method::Delete,
                                self.provider_address(found@[0].pk as int),
                            )
                        },
                        Err(cause) => r matches Err(f) && f@ == failure::plain_failure(cause@),
                    }
                },
            },
    {
        match ex {
            Exchange::Unsent(cause) => Err(
                Failure::caused("authentik GET provider for delete", cause),
            ),
            Exchange::Answered { status, status_line, text, value } => {
                if !(200 <= status && status < 300) {
                    return Ok(None);
                }
                match value {
                    Ok(found) => {
                        if found.len() == 0 {
                            Ok(None)
                        } else {
                            let url = self.provider_url(found[0].pk);
                            Ok(Some(self.request(Method::Delete, url, Body::Empty)))
                        }
                    },
                    Err(cause) => Err(Failure::new(cause)),
                }
            },
        }
    }

    /// What came of the request that [`AuthentikClient::delete_oauth_provider`]
    /// made. A provider that is already gone counts as deleted.
    pub fn delete_oauth_reply<T>(&self, deletion: &Request, ex: Exchange<T>) -> (r: Result<
        (),
        Failure,
    >)
        ensures
            wire::outcome(r) == wire::completion(
                ex,
                "authentik DELETE provider"@,
                "authentik DELETE provider "@ + deletion@.url,
                true,
            ),
    {
        let mut label = "authentik DELETE provider ".to_owned();
        label.append(deletion.url.as_str());
        wire::read_outcome(ex, "authentik DELETE provider", label.as_str(), true)
    }
}

// ---- what holds of the client -----------------------------------------

/// The client talks to the address that it was given, without the slashes at its end,
/// and presents the token that it was given.
pub proof fn law_client_keeps_its_address(
    core: Seq<char>,
    slashes: Seq<char>,
    base_url: &str,
    token: &str,
    client: AuthentikClient,
)
    requires
        core.len() == 0 || core.last() != '/',
        forall|i: int| 0 <= i < slashes.len() ==> #[trigger] slashes[i] == '/',
        base_url@ == core + slashes,
        call_ensures(AuthentikClient::new, (base_url, token), client),
    ensures
        client.base_url@ == core,
        client.token@ == token@,
{
    text::law_stripping_leaves_the_text(core, slashes, text::CharClass::Exactly('/'));
}

/// Everything of a tenant is registered under one name, and what is created for a
/// tenant under that name is what is deleted: the application by its slug, the provider
/// by the name under which it is looked up. Every request presents the client's token.
pub proof fn law_tenant_is_deleted_under_the_name_it_was_created(
    client: AuthentikClient,
    tenant: &str,
    template: ProviderTemplate,
    provider: OAuthProvider,
    create: Request,
    bind: Request,
    delete: Request,
)
    requires
        call_ensures(AuthentikClient::create_oauth, (&client, tenant, &template), create),
        call_ensures(AuthentikClient::bind_application, (&client, tenant, &provider), bind),
        call_ensures(AuthentikClient::delete_oauth, (&client, tenant), delete),
    ensures
        create@.body matches wire::BodyView::Json(body) && {
            &&& body["name"@] == wire::FieldView::Text("mcp-"@ + tenant@)
            &&& body["client_id"@] == wire::FieldView::Text("mcp-"@ + tenant@)
            &&& body["authorization_flow"@] == (match template@.authorization_flow {
                Some(s) => wire::FieldView::Text(s),
                None => wire::FieldView::Null,
            })
            &&& body["signing_key"@] == (match template@.signing_key {
                Some(s) => wire::FieldView::Text(s),
                None => wire::FieldView::Null,
            })
        },
        bind@.body matches wire::BodyView::Json(body) && {
            &&& body["slug"@] == wire::FieldView::Text("mcp-"@ + tenant@)
            &&& body["provider"@] == wire::FieldView::Integer(provider.pk as int)
        },
        delete@.url == client.base_url@ + "/api/v3/core/applications/"@ + ("mcp-"@ + tenant@)
            + "/"@,
        delete@.method == Method::Delete && create@.method == Method::Post && bind@.method
            == Method::Post,
        create@.header == Some(("Authorization"@, "Bearer "@ + client.token@)),
        bind@.header == create@.header && delete@.header == create@.header,
{
    lemma_field_names_differ();
}

proof fn lemma_field_names_differ()
    ensures
        "name"@ != "client_id"@,
        "name"@ != "authorization_flow"@,
        "name"@ != "signing_key"@,
        "client_id"@ != "authorization_flow"@,
        "client_id"@ != "signing_key"@,
        "authorization_flow"@ != "signing_key"@,
        "client_type"@ != "name"@,
        "property_mappings"@ != "name"@,
        "issuer_mode"@ != "name"@,
        "redirect_uris"@ != "name"@,
        "client_type"@ != "client_id"@,
        "property_mappings"@ != "client_id"@,
        "issuer_mode"@ != "client_id"@,
        "redirect_uris"@ != "client_id"@,
        "property_mappings"@ != "authorization_flow"@,
        "issuer_mode"@ != "authorization_flow"@,
        "redirect_uris"@ != "authorization_flow"@,
        "issuer_mode"@ != "signing_key"@,
        "redirect_uris"@ != "signing_key"@,
        "slug"@ != "provider"@,
        "slug"@ != "name"@,
{
    reveal_strlit("name");
    reveal_strlit("client_id");
    reveal_strlit("authorization_flow");
    reveal_strlit("signing_key");
    reveal_strlit("client_type");
    reveal_strlit("property_mappings");
    reveal_strlit("issuer_mode");
    reveal_strlit("redirect_uris");
    reveal_strlit("slug");
    reveal_strlit("provider");
    assert("name"@.len() == 4 && "client_id"@.len() == 9 && "authorization_flow"@.len() == 18
        && "signing_key"@.len() == 11 && "client_type"@.len() == 11 && "property_mappings"@.len()
        == 17 && "issuer_mode"@.len() == 11 && "redirect_uris"@.len() == 13 && "slug"@.len() == 4
        && "provider"@.len() == 8);
    assert("issuer_mode"@[0] != "signing_key"@[0]);
    assert("slug"@[0] != "name"@[0]);
}

/// A provider is looked up by its name in a query, and the template by the name that
/// the operator gave; the name is written so that it can be told from every other.
pub proof fn law_lookup_asks_for_the_name(client: AuthentikClient, name: &str, r: Request)
    requires
        call_ensures(AuthentikClient::fetch_provider_template, (&client, name), r),
    ensures
        r@.url == client.base_url@ + "/api/v3/providers/oauth2/?name="@ + encoded(
            vstd::utf8::encode_utf8(name@),
        ),
        r@.method == Method::Get,
        r@.header == Some(("Authorization"@, "Bearer "@ + client.token@)),
        r@.body is Empty,
{
}

/// Once its application is gone, the tenant's provider is looked up under the tenant's
/// name; the first that is found is deleted by its key.
pub proof fn law_provider_found_is_deleted<T>(
    client: AuthentikClient,
    tenant: &str,
    gone: Exchange<T>,
    lookup: Request,
    status: u16,
    status_line: String,
    text: String,
    found: Vec<OAuthProvider>,
    r: Result<Option<Request>, Failure>,
)
    requires
        call_ensures(AuthentikClient::delete_oauth_lookup::<T>, (&client, tenant, gone), Ok(lookup)),
        200 <= status <= 299,
        call_ensures(
            AuthentikClient::delete_oauth_provider,
            (
                &client,
                Exchange::Answered { status, status_line, text, value: Ok(found) },
            ),
            r,
        ),
    ensures
        lookup@.url == client.base_url@ + "/api/v3/providers/oauth2/?name="@ + encoded(
            vstd::utf8::encode_utf8("mcp-"@ + tenant@),
        ),
        lookup@.method == Method::Get,
        lookup@.header == Some(("Authorization"@, "Bearer "@ + client.token@)),
        found@.len() == 0 ==> r matches Ok(None),
        found@.len() > 0 ==> (r matches Ok(Some(q)) && q@.method == Method::Delete && q@.url
            == client.base_url@ + "/api/v3/providers/oauth2/"@ + text::integer_text(
            found@[0].pk as int,
        ) + "/"@ && q@.header == Some(("Authorization"@, "Bearer "@ + client.token@))),
{
}

/// In a query a byte is written as itself, where it is a letter, a digit or one of
/// `-_.~`, and else as a percent sign and two digits that spell it.
pub proof fn law_byte_is_spelled(b: u8)
    ensures
        ({
            let c = b as char;
            let kept = 'A' <= c <= 'Z' || 'a' <= c <= 'z' || '0' <= c <= '9' || c == '-' || c == '_'
                || c == '.' || c == '~';
            &&& kept ==> encoded_byte(b) == seq![c]
            &&& !kept ==> encoded_byte(b).len() == 3 && encoded_byte(b)[0] == '%' && 16
                * upper_value(encoded_byte(b)[1]) + upper_value(encoded_byte(b)[2]) == b
        }),
{
}

/// The number that an upper-case hexadecimal digit stands for.
pub open spec fn upper_value(c: char) -> int {
    if '0' <= c <= '9' {
        c as int - '0' as int
    } else {
        c as int - 'A' as int + 10
    }
}

/// What is said of a created provider and of a template is what their fields hold, each
/// under its own name.
pub proof fn law_views_show_the_fields(c: OAuthProviderCreated, t: ProviderTemplate)
    ensures
        c@.provider_pk == c.provider_pk,
        c@.application_slug == c.application_slug@,
        c@.client_id == c.client_id@,
        c@.client_secret == c.client_secret@,
        t@.authorization_flow == text::opt_text(t.authorization_flow),
        t@.signing_key == text::opt_text(t.signing_key),
        t.property_mappings matches Some(m) ==> t@.property_mappings == Some(text::texts(m@)),
        t.property_mappings is None ==> t@.property_mappings is None,
{
}

/// What was created for a tenant has the key and the secret that the provider was created
/// with, and the name under which the tenant is registered.
pub proof fn law_created_provider_keeps_its_secret<T>(
    client: AuthentikClient,
    tenant: &str,
    provider: OAuthProvider,
    ex: Exchange<T>,
    c: OAuthProviderCreated,
)
    requires
        call_ensures(
            AuthentikClient::bind_application_reply::<T>,
            (&client, tenant, provider, ex),
            Ok(c),
        ),
    ensures
        c.provider_pk == provider.pk,
        c.client_secret@ == provider.client_secret@,
        c.client_id@ == "mcp-"@ + tenant@,
        c.application_slug@ == "mcp-"@ + tenant@,
{
    law_views_show_the_fields(c, arbitrary());
}

} // verus!
