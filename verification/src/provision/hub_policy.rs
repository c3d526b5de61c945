//! The identity block that registers a tenant with the MCP hub.
//!
//! The block is handed to the operator as a fragment of YAML, who pastes it into
//! the hub's `policy.yaml` and commits it; nothing here writes to a repository.

use vstd::prelude::*;
use vstd::string::*;
use crate::text;

verus! {

/// A tenant's identity block in the hub's `policy.yaml`: the fields that the
/// orchestrator generates.
#[derive(Debug)]
pub struct HubIdentityBlock {
    pub name: String,
    pub aud: String,
    pub uid_base: u32,
    pub allowed_tools: Vec<String>,
    pub secrets: Vec<(String, HubSecretRef)>,
}

/// Where the hub finds a secret.
#[derive(Debug)]
pub struct HubSecretRef {
    pub path: String,
    pub field: String,
}

/// What an identity block says. A secret is its scope, its path and its field.
pub struct BlockView {
    pub name: Seq<char>,
    pub aud: Seq<char>,
    pub uid_base: nat,
    pub allowed_tools: Seq<Seq<char>>,
    pub secrets: Seq<(Seq<char>, Seq<char>, Seq<char>)>,
}

impl View for HubIdentityBlock {
    type V = BlockView;

    open spec fn view(&self) -> BlockView {
        BlockView {
            name: self.name@,
            aud: self.aud@,
            uid_base: self.uid_base as nat,
            allowed_tools: text::texts(self.allowed_tools@),
            secrets: secrets_view(self.secrets@),
        }
    }
}

/// What a list of secrets says.
pub open spec fn secrets_view(secrets: Seq<(String, HubSecretRef)>) -> Seq<
    (Seq<char>, Seq<char>, Seq<char>),
> {
    secrets.map_values(|p: (String, HubSecretRef)| (p.0@, p.1.path@, p.1.field@))
}

// ---- YAML -------------------------------------------------------------

/// A text in double quotes, escaped as `Debug` of `str` does it.
pub uninterp spec fn debug_text(s: Seq<char>) -> Seq<char>;

/// Every character is printable ASCII that stands for itself between double
/// quotes.
pub open spec fn needs_no_escape(s: Seq<char>) -> bool {
    forall|i: int|
        0 <= i < s.len() ==> ' ' <= #[trigger] s[i] <= '~' && s[i] != '"' && s[i] != '\\'
}

/// Formats a text with the `Debug` of `str`. The result is named [`debug_text`]
/// of the text; a text that needs no escape is only put between double quotes.
#[verifier::external_body]
fn quote(s: &str) -> (r: String)
    ensures
        r@ == debug_text(s@),
        needs_no_escape(s@) ==> r@ == seq!['"'] + s@ + seq!['"'],
{
    format!("{:?}", s)
}

/// One list item per quoted tool.
pub open spec fn tool_lines(quoted: Seq<Seq<char>>) -> Seq<char>
    decreases quoted.len(),
{
    if quoted.len() == 0 {
        Seq::empty()
    } else {
        tool_lines(quoted.drop_last()) + "      - "@ + quoted.last() + "\n"@
    }
}

/// Three lines per secret.
pub open spec fn secret_lines(secrets: Seq<(Seq<char>, Seq<char>, Seq<char>)>) -> Seq<char>
    decreases secrets.len(),
{
    if secrets.len() == 0 {
        Seq::empty()
    } else {
        secret_lines(secrets.drop_last()) + "      "@ + secrets.last().0 + ":\n"@
            + "        path: "@ + secrets.last().1 + "\n"@ + "        field: "@ + secrets.last().2
            + "\n"@
    }
}

/// The fragment for a block whose tools are written as `quoted`.
pub open spec fn block_yaml(b: BlockView, quoted: Seq<Seq<char>>) -> Seq<char> {
    "  "@ + b.name + ":\n"@ + "    aud: "@ + b.aud + "\n"@ + "    uid_base: "@ + text::decimal_text(
        b.uid_base,
    ) + "\n"@ + "    allowed_tools:\n"@ + tool_lines(quoted) + if b.secrets.len() == 0 {
        Seq::empty()
    } else {
        "    secrets:\n"@ + secret_lines(b.secrets)
    }
}

/// The tools between double quotes.
pub open spec fn plain_quoted(tools: Seq<Seq<char>>) -> Seq<Seq<char>> {
    tools.map_values(|t: Seq<char>| seq!['"'] + t + seq!['"'])
}

/// The tools as they are written.
pub open spec fn quoted_texts(tools: Seq<Seq<char>>) -> Seq<Seq<char>> {
    tools.map_values(|t: Seq<char>| debug_text(t))
}

impl HubIdentityBlock {
    /// The block as a YAML fragment, ready to paste under `identities:`,
    /// indented by two spaces.
    pub fn to_yaml(&self) -> (r: String)
        ensures
            r@ == block_yaml(self@, quoted_texts(self@.allowed_tools)),
            (forall|i: int|
                0 <= i < self@.allowed_tools.len() ==> needs_no_escape(
                    #[trigger] self@.allowed_tools[i],
                )) ==> r@ == block_yaml(self@, plain_quoted(self@.allowed_tools)),
    {
        let mut quoted: Vec<String> = Vec::new();
        let mut i: usize = 0;
        while i < self.allowed_tools.len()
            invariant
                i <= self.allowed_tools.len(),
                quoted@.len() == i,
                forall|j: int|
                    0 <= j < i ==> (#[trigger] quoted@[j])@ == debug_text(self.allowed_tools@[j]@),
                forall|j: int|
                    0 <= j < i && needs_no_escape(self.allowed_tools@[j]@) ==> (
                    #[trigger] quoted@[j])@ == seq!['"'] + self.allowed_tools@[j]@ + seq!['"'],
            decreases self.allowed_tools.len() - i,
        {
            quoted.push(quote(self.allowed_tools[i].as_str()));
            i = i + 1;
        }
        proof {
            let tools = self@.allowed_tools;
            assert(text::texts(quoted@) =~= quoted_texts(tools));
            if forall|i: int| 0 <= i < tools.len() ==> needs_no_escape(#[trigger] tools[i]) {
                assert forall|j: int| 0 <= j < tools.len() implies text::texts(quoted@)[j]
                    == plain_quoted(tools)[j] by {
                    assert(tools[j] == self.allowed_tools@[j]@);
                    assert(needs_no_escape(tools[j]));
                    assert(quoted@[j]@ == seq!['"'] + tools[j] + seq!['"']);
                }
                assert(text::texts(quoted@) =~= plain_quoted(tools));
            }
        }
        self.to_yaml_quoted(&quoted)
    }

    /// The block as a YAML fragment, its tools written as `quoted`.
    pub fn to_yaml_quoted(&self, quoted: &Vec<String>) -> (r: String)
        ensures
            r@ == block_yaml(self@, text::texts(quoted@)),
    {
        let mut out = "  ".to_owned();
        out.append(self.name.as_str());
        out.append(":\n");
        out.append("    aud: ");
        out.append(self.aud.as_str());
        out.append("\n");
        out.append("    uid_base: ");
        out.append(text::decimal(self.uid_base as u64).as_str());
        out.append("\n");
        out.append("    allowed_tools:\n");
        out.append(write_tools(quoted).as_str());
        if self.secrets.len() > 0 {
            out.append("    secrets:\n");
            out.append(write_secrets(&self.secrets).as_str());
        }
        assert(out@ =~= block_yaml(self@, text::texts(quoted@)));
        out
    }
}

fn write_tools(quoted: &Vec<String>) -> (r: String)
    ensures
        r@ == tool_lines(text::texts(quoted@)),
{
    let ghost all = text::texts(quoted@);
    let mut out = String::new();
    let mut i: usize = 0;
    while i < quoted.len()
        invariant
            i <= quoted.len(),
            all == text::texts(quoted@),
            out@ == tool_lines(all.take(i as int)),
        decreases quoted.len() - i,
    {
        assert(all.take(i + 1).drop_last() =~= all.take(i as int));
        out.append("      - ");
        out.append(quoted[i].as_str());
        out.append("\n");
        assert(out@ =~= tool_lines(all.take(i + 1)));
        i = i + 1;
    }
    assert(all.take(all.len() as int) =~= all);
    out
}

fn write_secrets(secrets: &Vec<(String, HubSecretRef)>) -> (r: String)
    ensures
        r@ == secret_lines(secrets_view(secrets@)),
{
    let ghost all = secrets_view(secrets@);
    let mut out = String::new();
    let mut i: usize = 0;
    while i < secrets.len()
        invariant
            i <= secrets.len(),
            all == secrets_view(secrets@),
            out@ == secret_lines(all.take(i as int)),
        decreases secrets.len() - i,
    {
        assert(all.take(i + 1).drop_last() =~= all.take(i as int));
        out.append("      ");
        out.append(secrets[i].0.as_str());
        out.append(":\n");
        out.append("        path: ");
        out.append(secrets[i].1.path.as_str());
        out.append("\n");
        out.append("        field: ");
        out.append(secrets[i].1.field.as_str());
        out.append("\n");
        assert(out@ =~= secret_lines(all.take(i + 1)));
        i = i + 1;
    }
    assert(all.take(all.len() as int) =~= all);
    out
}

// ---- the block of a tenant --------------------------------------------

/// The block of a tenant: every scope opens its tools and has its token in the
/// secret store.
pub open spec fn tenant_block(
    tenant: Seq<char>,
    uid_base: nat,
    mcp_scopes: Seq<Seq<char>>,
    secret_prefix: Seq<char>,
) -> BlockView {
    BlockView {
        name: tenant,
        aud: "mcp-"@ + tenant,
        uid_base,
        allowed_tools: mcp_scopes.map_values(|s: Seq<char>| s + "_*"@),
        secrets: mcp_scopes.map_values(
            |s: Seq<char>| (s, secret_prefix + "/"@ + s + "/"@ + tenant, "api_token"@),
        ),
    }
}

/// Builds the identity block of a tenant.
pub fn build_block(
    tenant: &str,
    uid_base: u32,
    mcp_scopes: &[String],
    secret_prefix: &str,
) -> (r: HubIdentityBlock)
    ensures
        r@ == tenant_block(tenant@, uid_base as nat, text::texts(mcp_scopes@), secret_prefix@),
{
    let mut aud = "mcp-".to_owned();
    aud.append(tenant);
    let mut tools: Vec<String> = Vec::new();
    let mut secrets: Vec<(String, HubSecretRef)> = Vec::new();
    let mut i: usize = 0;
    while i < mcp_scopes.len()
        invariant
            i <= mcp_scopes.len(),
            tools@.len() == i,
            secrets@.len() == i,
            forall|j: int| 0 <= j < i ==> (#[trigger] tools@[j])@ == mcp_scopes@[j]@ + "_*"@,
            forall|j: int|
                #![trigger secrets@[j]]
                0 <= j < i ==> secrets@[j].0@ == mcp_scopes@[j]@ && secrets@[j].1.path@
                    == secret_prefix@ + "/"@ + mcp_scopes@[j]@ + "/"@ + tenant@
                    && secrets@[j].1.field@ == "api_token"@,
        decreases mcp_scopes.len() - i,
    {
        let scope = &mcp_scopes[i];
        let mut tool = scope.clone();
        tool.append("_*");
        tools.push(tool);
        let mut path = secret_prefix.to_owned();
        path.append("/");
        path.append(scope.as_str());
        path.append("/");
        path.append(tenant);
        secrets.push((scope.clone(), HubSecretRef { path, field: "api_token".to_owned() }));
        i = i + 1;
    }
    let r = HubIdentityBlock {
        name: tenant.to_owned(),
        aud,
        uid_base,
        allowed_tools: tools,
        secrets,
    };
    let ghost want = tenant_block(
        tenant@,
        uid_base as nat,
        text::texts(mcp_scopes@),
        secret_prefix@,
    );
    assert(r@.allowed_tools =~= want.allowed_tools);
    assert(r@.secrets =~= want.secrets);
    r
}

// ---- what holds of blocks ---------------------------------------------

/// A tenant's block bears the tenant's name and audience, and for each scope opens the
/// scope's tools and names where its token is kept, in the order of the scopes.
pub proof fn law_block_is_the_tenants(
    tenant: &str,
    uid_base: u32,
    mcp_scopes: &[String],
    secret_prefix: &str,
    b: HubIdentityBlock,
)
    requires
        call_ensures(build_block, (tenant, uid_base, mcp_scopes, secret_prefix), b),
    ensures
        b.name@ == tenant@,
        b.aud@ == "mcp-"@ + tenant@,
        b.uid_base == uid_base,
        b.allowed_tools@.len() == mcp_scopes@.len(),
        b.secrets@.len() == mcp_scopes@.len(),
        forall|i: int|
            0 <= i < mcp_scopes@.len() ==> (#[trigger] b.allowed_tools@[i])@ == mcp_scopes@[i]@
                + "_*"@,
        forall|i: int|
            0 <= i < mcp_scopes@.len() ==> {
                let s = #[trigger] b.secrets@[i];
                &&& s.0@ == mcp_scopes@[i]@
                &&& s.1.path@ == secret_prefix@ + "/"@ + mcp_scopes@[i]@ + "/"@ + tenant@
                &&& s.1.field@ == "api_token"@
            },
{
    let tools = b@.allowed_tools;
    let secrets = b@.secrets;
    assert(tools.len() == b.allowed_tools@.len());
    assert(secrets.len() == b.secrets@.len());
    assert forall|i: int| 0 <= i < mcp_scopes@.len() implies (#[trigger] b.allowed_tools@[i])@
        == mcp_scopes@[i]@ + "_*"@ by {
        assert(tools[i] == b.allowed_tools@[i]@);
    }
    assert forall|i: int| 0 <= i < mcp_scopes@.len() implies {
        let s = #[trigger] b.secrets@[i];
        &&& s.0@ == mcp_scopes@[i]@
        &&& s.1.path@ == secret_prefix@ + "/"@ + mcp_scopes@[i]@ + "/"@ + tenant@
        &&& s.1.field@ == "api_token"@
    } by {
        assert(secrets[i] == (b.secrets@[i].0@, b.secrets@[i].1.path@, b.secrets@[i].1.field@));
    }
}

/// The fragment tells name, audience and first user id, then the tools, then, where
/// there are any, the secrets; each on lines of its own.
pub proof fn law_fragment_tells_the_block(b: BlockView, quoted: Seq<Seq<char>>)
    ensures
        ({
            let head = "  "@ + b.name + ":\n    aud: "@ + b.aud + "\n    uid_base: "@
                + text::decimal_text(b.uid_base) + "\n    allowed_tools:\n"@;
            &&& b.secrets.len() == 0 ==> block_yaml(b, quoted) == head + tool_lines(quoted)
            &&& b.secrets.len() > 0 ==> block_yaml(b, quoted) == head + tool_lines(quoted)
                + "    secrets:\n"@ + secret_lines(b.secrets)
        }),
{
    reveal_strlit(":\n    aud: ");
    reveal_strlit(":\n");
    reveal_strlit("    aud: ");
    reveal_strlit("\n    uid_base: ");
    reveal_strlit("\n");
    reveal_strlit("    uid_base: ");
    reveal_strlit("\n    allowed_tools:\n");
    reveal_strlit("    allowed_tools:\n");
    assert(":\n    aud: "@ =~= ":\n"@ + "    aud: "@);
    assert("\n    uid_base: "@ =~= "\n"@ + "    uid_base: "@);
    assert("\n    allowed_tools:\n"@ =~= "\n"@ + "    allowed_tools:\n"@);
    let head = "  "@ + b.name + ":\n    aud: "@ + b.aud + "\n    uid_base: "@ + text::decimal_text(
        b.uid_base,
    ) + "\n    allowed_tools:\n"@;
    if b.secrets.len() == 0 {
        assert(block_yaml(b, quoted) =~= head + tool_lines(quoted));
    } else {
        assert(block_yaml(b, quoted) =~= head + tool_lines(quoted) + "    secrets:\n"@
            + secret_lines(b.secrets));
    }
}

/// One more tool adds one line behind the others, one more secret adds three: its scope,
/// its path and its field.
pub proof fn law_each_tool_and_secret_has_its_lines(
    quoted: Seq<Seq<char>>,
    tool: Seq<char>,
    secrets: Seq<(Seq<char>, Seq<char>, Seq<char>)>,
    scope: Seq<char>,
    path: Seq<char>,
    field: Seq<char>,
)
    ensures
        tool_lines(Seq::empty()) == Seq::<char>::empty(),
        tool_lines(quoted.push(tool)) == tool_lines(quoted) + "      - "@ + tool + "\n"@,
        secret_lines(Seq::empty()) == Seq::<char>::empty(),
        secret_lines(secrets.push((scope, path, field))) == secret_lines(secrets) + "      "@
            + scope + ":\n        path: "@ + path + "\n        field: "@ + field + "\n"@,
{
    assert(quoted.push(tool).drop_last() =~= quoted);
    assert(secrets.push((scope, path, field)).drop_last() =~= secrets);
    reveal_strlit(":\n        path: ");
    reveal_strlit(":\n");
    reveal_strlit("        path: ");
    reveal_strlit("\n        field: ");
    reveal_strlit("\n");
    reveal_strlit("        field: ");
    assert(":\n        path: "@ =~= ":\n"@ + "        path: "@);
    assert("\n        field: "@ =~= "\n"@ + "        field: "@);
    assert(secret_lines(secrets.push((scope, path, field))) =~= secret_lines(secrets) + "      "@
        + scope + ":\n        path: "@ + path + "\n        field: "@ + field + "\n"@);
}

/// Every tool is written once, in its place, as the quoted text that stands for it.
pub proof fn law_tools_are_quoted_one_by_one(tools: Seq<Seq<char>>, i: int)
    requires
        0 <= i < tools.len(),
    ensures
        quoted_texts(tools).len() == tools.len(),
        quoted_texts(tools)[i] == debug_text(tools[i]),
        plain_quoted(tools).len() == tools.len(),
        plain_quoted(tools)[i].len() == tools[i].len() + 2,
        plain_quoted(tools)[i].subrange(1, tools[i].len() as int + 1) == tools[i],
        plain_quoted(tools)[i][0] == '"' && plain_quoted(tools)[i].last() == '"',
{
    assert(plain_quoted(tools)[i].subrange(1, tools[i].len() as int + 1) =~= tools[i]);
}

} // verus!
