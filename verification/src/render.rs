//! Rendering of a claw's final `config.toml`.
//!
//! The fleet-wide base document is overlaid with the claw's own body, then the
//! fields that the orchestrator controls are written over the result, so that
//! no overlay can shadow them.

use vstd::prelude::*;
use vstd::string::*;
use crate::document::{Item, Table};
use crate::keymap::KeyMap;
use crate::manifest::ClawOverlay;
use crate::{document, keymap, text};

verus! {

// ---- merging ----------------------------------------------------------

/// The deep merge of two items: two tables merge key by key, and anything else
/// is replaced by what is laid over it. Arrays are never merged by element.
pub open spec fn merged(
    target: document::ItemView,
    source: document::ItemView,
) -> document::ItemView
    decreases source,
{
    match (target, source) {
        (document::ItemView::Table(t), document::ItemView::Table(s)) => document::ItemView::Table(
            Map::new(
                |k: Seq<char>| t.dom().contains(k) || s.dom().contains(k),
                |k: Seq<char>|
                    if !s.dom().contains(k) {
                        t[k]
                    } else if t.dom().contains(k) {
                        merged(t[k], s[k])
                    } else {
                        s[k]
                    },
            ),
        ),
        _ => source,
    }
}

/// The deep merge of two tables.
pub open spec fn overlaid(
    target: Map<Seq<char>, document::ItemView>,
    source: Map<Seq<char>, document::ItemView>,
) -> Map<Seq<char>, document::ItemView> {
    merged(document::ItemView::Table(target), document::ItemView::Table(source))->Table_0
}

/// `k` is one of the keys from the `n`-th on.
spec fn key_from(keys: Seq<Seq<char>>, n: int, k: Seq<char>) -> bool {
    exists|i: int| n <= i < keys.len() && keys[i] == k
}

/// Recursively merges `source` into `target`. Tables merge; everything else is
/// replaced.
pub fn deep_merge(target: &mut Table, source: Table)
    ensures
        document::contents(*final(target)) == overlaid(
            document::contents(*old(target)),
            document::contents(source),
        ),
    decreases source,
{
    broadcast use document::lemma_item_view;

    let ghost first = document::contents(*target);
    let ghost over = document::contents(source);
    let ghost goal = overlaid(first, over);
    let mut rest = source.into_entries();
    let ghost all = rest@;
    while rest.len() > 0
        invariant
            rest@ == all.take(rest@.len() as int),
            rest@.len() <= all.len(),
            all.len() == source.keys().len(),
            all.len() == source.values().len(),
            keymap::ascending(source.keys()),
            forall|i: int|
                #![trigger all[i]]
                0 <= i < all.len() ==> all[i].0@ == source.keys()[i] && all[i].1
                    == source.values()[i],
            over == document::contents(source),
            goal == overlaid(first, over),
            forall|k: Seq<char>|
                #![trigger key_from(source.keys(), rest@.len() as int, k)]
                key_from(source.keys(), rest@.len() as int, k) ==> {
                    &&& document::contents(*target).dom().contains(k)
                    &&& document::contents(*target)[k] == goal[k]
                },
            forall|k: Seq<char>|
                #![trigger key_from(source.keys(), rest@.len() as int, k)]
                !key_from(source.keys(), rest@.len() as int, k) ==> {
                    &&& document::contents(*target).dom().contains(k) == first.dom().contains(k)
                    &&& first.dom().contains(k) ==> document::contents(*target)[k] == first[k]
                },
        decreases rest.len(),
    {
        broadcast use document::lemma_item_view;

        let ghost before = document::contents(*target);
        let ghost n = rest@.len() as int;
        match rest.pop() {
            Some((key, value)) => {
                proof {
                    assert(rest@ =~= all.take(n - 1));
                    keymap::lemma_item(source, n - 1);
                    keymap::lemma_value_smaller(source, n - 1);
                    assert(all[n - 1].0@ == source.keys()[n - 1]);
                    assert(source.keys()[n - 1] == key@);
                    assert(over.dom().contains(key@));
                    assert(over[key@] == value@);
                    assert forall|i: int| n <= i < all.len() implies source.keys()[i] != key@ by {
                        if source.keys()[i] == key@ {
                            keymap::lemma_ascending_distinct(source.keys(), i, n - 1);
                        }
                    }
                    assert(!key_from(source.keys(), n, key@));
                    assert(before.dom().contains(key@) == first.dom().contains(key@));
                }
                let prior = target.remove(key.as_str());
                let ghost name = key@;
                assert(prior is Some <==> first.dom().contains(name));
                assert(prior is Some ==> prior->0@ == first[name]);
                match (prior, value) {
                    (Some(Item::Table(inner)), Item::Table(layer)) => {
                        let mut inner = inner;
                        assert(goal[name] == merged(first[name], over[name]));
                        deep_merge(&mut inner, layer);
                        target.insert(key, Item::Table(inner));
                    },
                    (_, v) => {
                        assert(goal[name] == v@);
                        target.insert(key, v);
                    },
                }
                proof {
                    let now = document::contents(*target);
                    assert(now.dom().contains(name));
                    assert(now[name] == goal[name]);
                    assert forall|k: Seq<char>| k != name implies #[trigger] now.dom().contains(k)
                        == before.dom().contains(k) && (now.dom().contains(k) ==> now[k]
                        == before[k]) by {}
                    assert forall|k: Seq<char>| #[trigger]
                        key_from(source.keys(), n - 1, k) == (key_from(source.keys(), n, k) || k
                            == name) by {
                        assert(source.keys()[n - 1] == name);
                    }
                }
            },
            None => {},
        }
    }
    assert(document::contents(*target) =~= goal) by {
        assert forall|k: Seq<char>| #[trigger]
            key_from(source.keys(), 0, k) == over.dom().contains(k) by {
            if key_from(source.keys(), 0, k) {
                let i = choose|i: int| 0 <= i < source.keys().len() && source.keys()[i] == k;
                keymap::lemma_item(source, i);
            } else if over.dom().contains(k) {
                let i = source.keys().index_of(k);
                assert(source.keys()[i] == k);
            }
        }
        assert forall|k: Seq<char>|
            #![trigger document::contents(*target).dom().contains(k)]
            #![trigger goal.dom().contains(k)]
            #![trigger goal[k]]
            document::contents(*target).dom().contains(k) == goal.dom().contains(k) && (goal.dom().contains(k) ==> document::contents(*target)[k]
            == goal[k]) by {
            assert(key_from(source.keys(), 0, k) == over.dom().contains(k));
        }
        assert(document::contents(*target).dom() =~= goal.dom());
    }
}

// ---- dotted paths -----------------------------------------------------

/// The table `t` with `value` at the end of `path`. A step that is missing or
/// is no table becomes a table.
pub open spec fn set_at(
    t: Map<Seq<char>, document::ItemView>,
    path: Seq<Seq<char>>,
    value: document::ItemView,
) -> Map<Seq<char>, document::ItemView>
    decreases path.len(),
{
    if path.len() == 0 {
        t
    } else if path.len() == 1 {
        t.insert(path[0], value)
    } else {
        t.insert(
            path[0],
            document::ItemView::Table(set_at(subtable(t, path[0]), path.skip(1), value)),
        )
    }
}

/// The table under `k`, empty where there is none.
pub open spec fn subtable(t: Map<Seq<char>, document::ItemView>, k: Seq<char>) -> Map<
    Seq<char>,
    document::ItemView,
> {
    if t.dom().contains(k) && t[k] is Table {
        t[k]->Table_0
    } else {
        Map::empty()
    }
}

/// What stands at the end of `path` in `t`.
pub open spec fn at_path(t: Map<Seq<char>, document::ItemView>, path: Seq<Seq<char>>) -> Option<
    document::ItemView,
>
    decreases path.len(),
{
    if path.len() == 0 || !t.dom().contains(path[0]) {
        None
    } else if path.len() == 1 {
        Some(t[path[0]])
    } else if t[path[0]] is Table {
        at_path(t[path[0]]->Table_0, path.skip(1))
    } else {
        None
    }
}

/// Neither path leads through the other: they part at some step.
pub open spec fn paths_part(p: Seq<Seq<char>>, q: Seq<Seq<char>>) -> bool {
    exists|i: int|
        0 <= i < p.len() && i < q.len() && #[trigger] p[i] != q[i] && p.take(i) == q.take(i)
}

fn set_path(table: &mut Table, parts: &Vec<String>, from: usize, value: Item)
    requires
        from < parts.len(),
    ensures
        document::contents(*final(table)) == set_at(
            document::contents(*old(table)),
            text::texts(parts@).skip(from as int),
            value@,
        ),
    decreases parts.len() - from,
{
    broadcast use document::lemma_item_view;

    let ghost t = document::contents(*table);
    let ghost path = text::texts(parts@).skip(from as int);
    if from + 1 == parts.len() {
        table.insert(parts[from].clone(), value);
        assert(document::contents(*table) =~= t.insert(path[0], value@));
        return ;
    }
    let prior = table.remove(parts[from].as_str());
    let mut inner: Table = match prior {
        Some(Item::Table(found)) => found,
        _ => KeyMap::new(),
    };
    assert(document::contents(inner) =~= subtable(t, path[0]));
    set_path(&mut inner, parts, from + 1, value);
    assert(path.skip(1) =~= text::texts(parts@).skip(from + 1));
    table.insert(parts[from].clone(), Item::Table(inner));
    assert(document::contents(*table) =~= t.insert(
        path[0],
        document::ItemView::Table(set_at(subtable(t, path[0]), path.skip(1), value@)),
    ));
}

/// Sets a dotted key path, creating intermediate tables as needed: with the
/// path `channels.telegram.bot_token`, the value is put under `bot_token` in
/// the table `telegram` of the table `channels`.
pub fn set_dotted_path(table: &mut Table, path: &str, value: Item)
    ensures
        document::contents(*final(table)) == set_at(
            document::contents(*old(table)),
            text::split_on(path@, '.'),
            value@,
        ),
{
    let parts = text::split(path, '.');
    assert(text::texts(parts@).skip(0) =~= text::texts(parts@));
    set_path(table, &parts, 0, value);
}

/// What was set is found again: the path leads to the value.
pub proof fn law_set_path_is_read_back(
    t: Map<Seq<char>, document::ItemView>,
    path: Seq<Seq<char>>,
    value: document::ItemView,
)
    requires
        path.len() > 0,
    ensures
        at_path(set_at(t, path, value), path) == Some(value),
    decreases path.len(),
{
    if path.len() > 1 {
        law_set_path_is_read_back(subtable(t, path[0]), path.skip(1), value);
    }
}

/// Setting a path leaves alone what every path holds that parts from it.
pub proof fn law_set_path_keeps_other_paths(
    t: Map<Seq<char>, document::ItemView>,
    path: Seq<Seq<char>>,
    other: Seq<Seq<char>>,
    value: document::ItemView,
)
    requires
        paths_part(path, other),
    ensures
        at_path(set_at(t, path, value), other) == at_path(t, other),
    decreases path.len(),
{
    let i = choose|i: int|
        0 <= i < path.len() && i < other.len() && #[trigger] path[i] != other[i] && path.take(i)
            == other.take(i);
    if i > 0 {
        assert(path[0] == path.take(i)[0]);
        assert(other[0] == other.take(i)[0]);
        let p = path.skip(1);
        let q = other.skip(1);
        assert(p[i - 1] != q[i - 1]);
        assert(p.take(i - 1) =~= path.take(i).skip(1));
        assert(q.take(i - 1) =~= other.take(i).skip(1));
        law_set_path_keeps_other_paths(subtable(t, path[0]), p, q, value);
        if !(t.dom().contains(path[0]) && t[path[0]] is Table) {
            assert(at_path(subtable(t, path[0]), q) is None);
        }
    }
}

// ---- bearer hash ------------------------------------------------------

/// The SHA-256 digest of some bytes.
pub uninterp spec fn sha256(data: Seq<u8>) -> Seq<u8>;

/// The hexadecimal digit of value `n`, in lower case.
pub open spec fn hex_digit(n: u8) -> char {
    if n < 10 {
        (48 + n) as char
    } else {
        (87 + n) as char
    }
}

/// Two lower-case hexadecimal digits for each byte, the high one first.
pub open spec fn hex_text(data: Seq<u8>) -> Seq<char> {
    Seq::new(
        2 * data.len(),
        |i: int|
            if i % 2 == 0 {
                hex_digit((data[i / 2] / 16) as u8)
            } else {
                hex_digit((data[i / 2] % 16) as u8)
            },
    )
}

/// `sha2::Sha256::digest`: 32 bytes that depend on the data alone, named
/// [`sha256`] of it.
#[verifier::external_body]
fn sha256_digest(data: &[u8]) -> (r: Vec<u8>)
    ensures
        r@ == sha256(data@),
        r@.len() == 32,
{
    <sha2::Sha256 as sha2::Digest>::digest(data).to_vec()
}

/// `hex::encode`: two lower-case hexadecimal digits for each byte.
#[verifier::external_body]
fn hex_encode(data: &Vec<u8>) -> (r: String)
    ensures
        r@ == hex_text(data@),
{
    hex::encode(data)
}

/// The hash under which a bearer is known to a claw.
pub open spec fn bearer_hash(bearer: Seq<char>) -> Seq<char> {
    hex_text(sha256(vstd::utf8::encode_utf8(bearer)))
}

/// Hashes a bearer token the way `paired_tokens` expects it: the SHA-256 digest
/// in lower-case hexadecimal, so that the configuration never shows the bearer.
pub fn hash_bearer(bearer: &str) -> (r: String)
    ensures
        r@ == bearer_hash(bearer@),
        r@.len() == 64,
        forall|i: int| 0 <= i < r@.len() ==> is_hex_digit(#[trigger] r@[i]),
{
    let digest = sha256_digest(bearer.as_bytes());
    hex_encode(&digest)
}

/// `0` to `9` and `a` to `f`.
pub open spec fn is_hex_digit(c: char) -> bool {
    '0' <= c <= '9' || 'a' <= c <= 'f'
}

// ---- injections -------------------------------------------------------

/// Fields that the orchestrator controls unconditionally.
#[derive(Debug)]
pub struct Injections {
    /// Bearer with which the orchestrator calls the claw. It is hashed into
    /// `paired_tokens` of the table `gateway`.
    pub orchestrator_bearer: String,
    /// Placeholder that the rotation puts a fresh MCP bearer in place of.
    pub mcp_bearer_placeholder: String,
    /// MCP endpoint of the hub.
    pub mcp_server_url: String,
    /// Name of the MCP server block, which becomes the prefix of its tools.
    pub mcp_server_name: String,
    /// Channel secrets, each a dotted path and the text to put there.
    pub channel_secrets: Vec<(String, String)>,
}

/// The table `base` with the gateway fields for a bearer of hash `hash`.
pub open spec fn with_gateway(
    base: Map<Seq<char>, document::ItemView>,
    hash: Seq<char>,
) -> Map<Seq<char>, document::ItemView> {
    base.insert(
        "gateway"@,
        document::ItemView::Table(
            subtable(base, "gateway"@).insert(
                "paired_tokens"@,
                document::ItemView::Array(seq![document::ItemView::Text(hash)]),
            ).insert("trust_forwarded_headers"@, document::ItemView::Boolean(true)).insert(
                "web_dist_dir"@,
                document::ItemView::Text("/usr/share/zeroclawlabs/web/dist"@),
            ),
        ),
    )
}

/// The block of the hub in the list of MCP servers.
pub open spec fn mcp_server(name: Seq<char>, url: Seq<char>, placeholder: Seq<char>) -> Map<
    Seq<char>,
    document::ItemView,
> {
    Map::<Seq<char>, document::ItemView>::empty().insert(
        "name"@,
        document::ItemView::Text(name),
    ).insert("transport"@, document::ItemView::Text("http"@)).insert(
        "url"@,
        document::ItemView::Text(url),
    ).insert(
        "headers"@,
        document::ItemView::Table(
            Map::<Seq<char>, document::ItemView>::empty().insert(
                "Authorization"@,
                document::ItemView::Text("Bearer "@ + placeholder),
            ),
        ),
    ).insert("tool_timeout_secs"@, document::ItemView::Integer(60))
}

/// The table `base` with the MCP fields. Deferred loading is forced off, so
/// that every tool of the hub surfaces directly.
pub open spec fn with_mcp(
    base: Map<Seq<char>, document::ItemView>,
    server: Map<Seq<char>, document::ItemView>,
) -> Map<Seq<char>, document::ItemView> {
    base.insert(
        "mcp"@,
        document::ItemView::Table(
            subtable(base, "mcp"@).insert("enabled"@, document::ItemView::Boolean(true)).insert(
                "deferred_loading"@,
                document::ItemView::Boolean(false),
            ).insert(
                "servers"@,
                document::ItemView::Array(seq![document::ItemView::Table(server)]),
            ),
        ),
    )
}

/// The table `t` with each secret put at its path, in order.
pub open spec fn with_secrets(
    t: Map<Seq<char>, document::ItemView>,
    secrets: Seq<(String, String)>,
) -> Map<Seq<char>, document::ItemView>
    decreases secrets.len(),
{
    if secrets.len() == 0 {
        t
    } else {
        set_at(
            with_secrets(t, secrets.drop_last()),
            text::split_on(secrets.last().0@, '.'),
            document::ItemView::Text(secrets.last().1@),
        )
    }
}

/// `k` is free or holds a table.
pub open spec fn section_ready(t: Map<Seq<char>, document::ItemView>, k: Seq<char>) -> bool {
    t.dom().contains(k) ==> t[k] is Table
}

/// The orchestrator's fields can be written: neither `gateway` nor `mcp` is
/// taken by something that is no table.
pub open spec fn sections_ready(t: Map<Seq<char>, document::ItemView>) -> bool {
    section_ready(t, "gateway"@) && section_ready(t, "mcp"@)
}

impl Injections {
    /// The table with the fields that the orchestrator controls, before the
    /// channel secrets.
    pub open spec fn applied(self, t: Map<Seq<char>, document::ItemView>) -> Map<
        Seq<char>,
        document::ItemView,
    > {
        with_mcp(
            with_gateway(t, bearer_hash(self.orchestrator_bearer@)),
            mcp_server(
                self.mcp_server_name@,
                self.mcp_server_url@,
                self.mcp_bearer_placeholder@,
            ),
        )
    }

    /// The final document for a base and a body.
    pub open spec fn configured(
        self,
        base: Map<Seq<char>, document::ItemView>,
        body: Map<Seq<char>, document::ItemView>,
    ) -> Map<Seq<char>, document::ItemView> {
        with_secrets(self.applied(overlaid(base, body)), self.channel_secrets@)
    }
}

fn section(base: &mut Table, key: &str) -> (r: Table)
    requires
        section_ready(document::contents(*old(base)), key@),
    ensures
        document::contents(r) == subtable(document::contents(*old(base)), key@),
        document::contents(*final(base)) == document::contents(*old(base)).remove(key@),
{
    broadcast use document::lemma_item_view;

    let ghost before = document::contents(*base);
    let prior = base.remove(key);
    assert(document::contents(*base) =~= before.remove(key@));
    let found: Table = match prior {
        Some(Item::Table(t)) => t,
        _ => KeyMap::new(),
    };
    assert(document::contents(found) =~= subtable(before, key@));
    found
}

fn put(table: &mut Table, key: &str, value: Item)
    ensures
        document::contents(*final(table)) == document::contents(*old(table)).insert(key@, value@),
{
    let ghost before = document::contents(*table);
    table.insert(key.to_owned(), value);
    assert(document::contents(*table) =~= before.insert(key@, value@));
}

fn inject_gateway(base: &mut Table, inj: &Injections)
    requires
        section_ready(document::contents(*old(base)), "gateway"@),
    ensures
        document::contents(*final(base)) == with_gateway(
            document::contents(*old(base)),
            bearer_hash(inj.orchestrator_bearer@),
        ),
{
    broadcast use document::lemma_item_view;

    let ghost before = document::contents(*base);
    let mut gw = section(base, "gateway");
    let hashed = hash_bearer(inj.orchestrator_bearer.as_str());
    let mut tokens: Vec<Item> = Vec::new();
    tokens.push(Item::Text(hashed));
    assert(document::elements(tokens@) =~= seq![document::ItemView::Text(hashed@)]);
    put(&mut gw, "paired_tokens", Item::Array(tokens));
    put(&mut gw, "trust_forwarded_headers", Item::Boolean(true));
    put(&mut gw, "web_dist_dir", Item::Text("/usr/share/zeroclawlabs/web/dist".to_owned()));
    put(base, "gateway", Item::Table(gw));
    assert(document::contents(*base) =~= with_gateway(before, hashed@));
}

fn inject_mcp(base: &mut Table, inj: &Injections)
    requires
        section_ready(document::contents(*old(base)), "mcp"@),
    ensures
        document::contents(*final(base)) == with_mcp(
            document::contents(*old(base)),
            mcp_server(
                inj.mcp_server_name@,
                inj.mcp_server_url@,
                inj.mcp_bearer_placeholder@,
            ),
        ),
{
    broadcast use document::lemma_item_view;

    let ghost before = document::contents(*base);
    let mut mcp = section(base, "mcp");
    put(&mut mcp, "enabled", Item::Boolean(true));
    put(&mut mcp, "deferred_loading", Item::Boolean(false));

    let mut bearer = "Bearer ".to_owned();
    bearer.append(inj.mcp_bearer_placeholder.as_str());
    let mut headers: Table = KeyMap::new();
    assert(document::contents(headers) =~= Map::empty());
    put(&mut headers, "Authorization", Item::Text(bearer));

    let mut server: Table = KeyMap::new();
    assert(document::contents(server) =~= Map::empty());
    put(&mut server, "name", Item::Text(inj.mcp_server_name.clone()));
    put(&mut server, "transport", Item::Text("http".to_owned()));
    put(&mut server, "url", Item::Text(inj.mcp_server_url.clone()));
    put(&mut server, "headers", Item::Table(headers));
    put(&mut server, "tool_timeout_secs", Item::Integer(60));
    let ghost block = document::contents(server);

    let mut servers: Vec<Item> = Vec::new();
    servers.push(Item::Table(server));
    assert(document::elements(servers@) =~= seq![document::ItemView::Table(block)]);
    put(&mut mcp, "servers", Item::Array(servers));
    put(base, "mcp", Item::Table(mcp));
    assert(document::contents(*base) =~= with_mcp(before, block));
}

/// Lays `body` over `base`, then writes the orchestrator's fields and the
/// channel secrets.
pub fn configure(base: Table, body: &Table, inj: &Injections) -> (r: Table)
    requires
        sections_ready(overlaid(document::contents(base), document::contents(*body))),
    ensures
        document::contents(r) == inj.configured(
            document::contents(base),
            document::contents(*body),
        ),
{
    broadcast use document::lemma_item_view;

    let mut out = base;
    deep_merge(&mut out, document::duplicate_table(body));
    inject_gateway(&mut out, inj);
    proof {
        reveal_strlit("gateway");
        reveal_strlit("mcp");
        assert("gateway"@.len() != "mcp"@.len());
    }
    inject_mcp(&mut out, inj);
    let ghost ready = document::contents(out);
    let secrets = &inj.channel_secrets;
    let mut i: usize = 0;
    assert(secrets@.take(0) =~= Seq::empty());
    while i < secrets.len()
        invariant
            i <= secrets.len(),
            document::contents(out) == with_secrets(ready, secrets@.take(i as int)),
        decreases secrets.len() - i,
    {
        broadcast use document::lemma_item_view;

        assert(secrets@.take(i + 1).drop_last() =~= secrets@.take(i as int));
        set_dotted_path(&mut out, secrets[i].0.as_str(), Item::Text(secrets[i].1.clone()));
        i = i + 1;
    }
    assert(secrets@.take(secrets@.len() as int) =~= secrets@);
    out
}

// ---- rendering --------------------------------------------------------

/// Why a configuration cannot be rendered.
#[derive(Debug)]
pub enum RenderError {
    /// `base.toml` is no TOML document; with the parser's message.
    Parse(String),
    /// The merged document cannot be written; with the writer's message.
    Serialize(String),
}

impl RenderError {
    /// What went wrong, in one line.
    pub open spec fn spec_message(self) -> Seq<char> {
        match self {
            RenderError::Parse(_) => "parse base.toml"@,
            RenderError::Serialize(_) => "serialize merged config"@,
        }
    }

    /// The message followed by its cause.
    pub fn detail(&self) -> (r: String)
        ensures
            r@ == self.spec_message() + ": "@ + match *self {
                RenderError::Parse(cause) => cause@,
                RenderError::Serialize(cause) => cause@,
            },
    {
        let (head, cause) = match self {
            RenderError::Parse(cause) => ("parse base.toml", cause),
            RenderError::Serialize(cause) => ("serialize merged config", cause),
        };
        let mut out = head.to_owned();
        out.append(": ");
        out.append(cause.as_str());
        out
    }
}

/// What rendering gives for a base text, a body and the injections: the text of
/// the final document, or the complaint of the parser or the writer.
pub open spec fn rendering(
    base_toml: Seq<char>,
    body: Map<Seq<char>, document::ItemView>,
    inj: Injections,
    r: Result<String, RenderError>,
) -> bool {
    match document::toml_document(base_toml) {
        Err(cause) => r matches Err(RenderError::Parse(c)) && c@ == cause,
        Ok(base) => match document::toml_pretty(inj.configured(base, body)) {
            Ok(out) => r matches Ok(s) && s@ == out,
            Err(cause) => r matches Err(RenderError::Serialize(c)) && c@ == cause,
        },
    }
}

/// A rendered text, read again, gives the final document, wherever that
/// document is plain.
pub open spec fn reads_back(
    base_toml: Seq<char>,
    body: Map<Seq<char>, document::ItemView>,
    inj: Injections,
    rendered: Seq<char>,
) -> bool {
    document::toml_document(base_toml) matches Ok(base) ==> document::plain_document(
        inj.configured(base, body),
    ) ==> document::toml_document(rendered) == Ok::<
        Map<Seq<char>, document::ItemView>,
        Seq<char>,
    >(inj.configured(base, body))
}

/// Nothing stands in the way of rendering: where the base can be read, `gateway`
/// and `mcp` of the merged document can be injected into, and the writer can take
/// every text of the final document.
pub open spec fn renderable(
    base_toml: Seq<char>,
    body: Map<Seq<char>, document::ItemView>,
    inj: Injections,
) -> bool {
    document::toml_document(base_toml) matches Ok(base) ==> sections_ready(overlaid(base, body))
        && document::tame_document(inj.configured(base, body))
}

/// Renders a claw's final `config.toml`.
pub fn render(base_toml: &str, overlay: &ClawOverlay, inj: &Injections) -> (r: Result<
    String,
    RenderError,
>)
    requires
        renderable(base_toml@, document::contents(overlay.body), *inj),
    ensures
        rendering(base_toml@, document::contents(overlay.body), *inj, r),
        r matches Ok(s) ==> reads_back(base_toml@, document::contents(overlay.body), *inj, s@),
{
    let base = match document::parse_document(base_toml) {
        Ok(t) => t,
        Err(cause) => return Err(RenderError::Parse(cause)),
    };
    let merged = configure(base, &overlay.body, inj);
    match document::write_document(&merged) {
        Ok(s) => Ok(s),
        Err(cause) => Err(RenderError::Serialize(cause)),
    }
}

fn is_section_ready(t: &Table, key: &str) -> (r: bool)
    ensures
        r == section_ready(document::contents(*t), key@),
{
    broadcast use document::lemma_item_view;

    match t.get(key) {
        None => true,
        Some(Item::Table(_)) => true,
        Some(_) => false,
    }
}

/// Renders a claw's final `config.toml`, or gives `None` where `gateway` or
/// `mcp` of the merged document is taken by something that is no table, or where
/// a text of the final document holds more equal quotation marks in a row than
/// the writer can count.
pub fn try_render(base_toml: &str, overlay: &ClawOverlay, inj: &Injections) -> (r: Option<
    Result<String, RenderError>,
>)
    ensures
        r is Some <==> renderable(base_toml@, document::contents(overlay.body), *inj),
        r matches Some(out) ==> {
            &&& rendering(base_toml@, document::contents(overlay.body), *inj, out)
            &&& out matches Ok(s) ==> reads_back(
                base_toml@,
                document::contents(overlay.body),
                *inj,
                s@,
            )
        },
{
    let base = match document::parse_document(base_toml) {
        Ok(t) => t,
        Err(cause) => return Some(Err(RenderError::Parse(cause))),
    };
    let mut probe = document::duplicate_table(&base);
    deep_merge(&mut probe, document::duplicate_table(&overlay.body));
    if !is_section_ready(&probe, "gateway") || !is_section_ready(&probe, "mcp") {
        return None;
    }
    if document::is_tame(&configure(base, &overlay.body, inj)) {
        Some(render(base_toml, overlay, inj))
    } else {
        None
    }
}

// ---- laws -------------------------------------------------------------

/// Laying an empty body over a base changes nothing.
pub proof fn law_empty_overlay_changes_nothing(base: Map<Seq<char>, document::ItemView>)
    ensures
        overlaid(base, Map::empty()) == base,
{
    assert(overlaid(base, Map::empty()) =~= base);
}

/// A key that the overlay does not hold keeps what the base has there, and a
/// key that only the overlay holds gets what the overlay has.
pub proof fn law_overlay_is_key_by_key(
    base: Map<Seq<char>, document::ItemView>,
    body: Map<Seq<char>, document::ItemView>,
    k: Seq<char>,
)
    ensures
        !body.dom().contains(k) ==> overlaid(base, body).dom().contains(k) == base.dom().contains(k),
        !body.dom().contains(k) && base.dom().contains(k) ==> overlaid(base, body)[k] == base[k],
        body.dom().contains(k) ==> overlaid(base, body).dom().contains(k),
        body.dom().contains(k) && !base.dom().contains(k) ==> overlaid(base, body)[k] == body[k],
{
}

/// Where both sides hold a table the tables merge; where either side is no
/// table, be it an array, the overlay's item replaces the base's whole.
pub proof fn law_overlay_recurses_or_replaces(
    base: Map<Seq<char>, document::ItemView>,
    body: Map<Seq<char>, document::ItemView>,
    k: Seq<char>,
)
    requires
        base.dom().contains(k),
        body.dom().contains(k),
    ensures
        base[k] is Table && body[k] is Table ==> overlaid(base, body)[k]
            == document::ItemView::Table(overlaid(base[k]->Table_0, body[k]->Table_0)),
        !(base[k] is Table && body[k] is Table) ==> overlaid(base, body)[k] == body[k],
{
    assert(overlaid(base, body)[k] == merged(base[k], body[k]));
}

/// Laying the same item over twice is the same as once.
pub proof fn law_merge_is_idempotent(target: document::ItemView, source: document::ItemView)
    ensures
        merged(merged(target, source), source) == merged(target, source),
    decreases source,
{
    match (target, source) {
        (document::ItemView::Table(t), document::ItemView::Table(s)) => {
            let once = merged(target, source)->Table_0;
            let twice = merged(merged(target, source), source)->Table_0;
            assert forall|k: Seq<char>| twice.dom().contains(k) implies twice[k] == once[k] by {
                if s.dom().contains(k) {
                    if t.dom().contains(k) {
                        law_merge_is_idempotent(t[k], s[k]);
                    } else {
                        lemma_merge_with_itself(s[k]);
                    }
                }
            }
            assert(twice =~= once);
        },
        _ => {
            lemma_merge_with_itself(source);
        },
    }
}

proof fn lemma_merge_with_itself(v: document::ItemView)
    ensures
        merged(v, v) == v,
    decreases v,
{
    if let document::ItemView::Table(m) = v {
        let same = merged(v, v)->Table_0;
        assert forall|k: Seq<char>| same.dom().contains(k) implies same[k] == m[k] by {
            lemma_merge_with_itself(m[k]);
        }
        assert(same =~= m);
    }
}

proof fn lemma_set_at_keeps_other_keys(
    t: Map<Seq<char>, document::ItemView>,
    path: Seq<Seq<char>>,
    value: document::ItemView,
    k: Seq<char>,
)
    requires
        path.len() > 0,
        path[0] != k,
    ensures
        set_at(t, path, value).dom().contains(k) == t.dom().contains(k),
        t.dom().contains(k) ==> set_at(t, path, value)[k] == t[k],
{
}

/// No secret is put at or below the key `k` of the document.
pub open spec fn secrets_avoid(secrets: Seq<(String, String)>, k: Seq<char>) -> bool {
    forall|i: int|
        0 <= i < secrets.len() ==> text::split_on((#[trigger] secrets[i]).0@, '.')[0] != k
}

proof fn lemma_secrets_keep_other_keys(
    t: Map<Seq<char>, document::ItemView>,
    secrets: Seq<(String, String)>,
    k: Seq<char>,
)
    requires
        secrets_avoid(secrets, k),
    ensures
        with_secrets(t, secrets).dom().contains(k) == t.dom().contains(k),
        t.dom().contains(k) ==> with_secrets(t, secrets)[k] == t[k],
    decreases secrets.len(),
{
    if secrets.len() > 0 {
        assert forall|i: int| 0 <= i < secrets.drop_last().len() implies text::split_on(
            (#[trigger] secrets.drop_last()[i]).0@,
            '.',
        )[0] != k by {
            assert(secrets.drop_last()[i] == secrets[i]);
        }
        lemma_secrets_keep_other_keys(t, secrets.drop_last(), k);
        text::lemma_split_on_nonempty(secrets.last().0@, '.');
        assert(secrets[secrets.len() - 1] == secrets.last());
        lemma_set_at_keeps_other_keys(
            with_secrets(t, secrets.drop_last()),
            text::split_on(secrets.last().0@, '.'),
            document::ItemView::Text(secrets.last().1@),
            k,
        );
    }
}

/// Whatever the base and the overlay hold, the gateway of the final document
/// accepts the orchestrator's bearer and nothing else, trusts forwarded
/// headers and serves the built-in pages, unless a channel secret is aimed at
/// the gateway itself.
pub proof fn law_overlay_cannot_shadow_the_gateway(
    base: Map<Seq<char>, document::ItemView>,
    body: Map<Seq<char>, document::ItemView>,
    inj: Injections,
)
    requires
        secrets_avoid(inj.channel_secrets@, "gateway"@),
    ensures
        at_path(inj.configured(base, body), seq!["gateway"@, "paired_tokens"@]) == Some(
            document::ItemView::Array(
                seq![document::ItemView::Text(bearer_hash(inj.orchestrator_bearer@))],
            ),
        ),
        at_path(inj.configured(base, body), seq!["gateway"@, "trust_forwarded_headers"@]) == Some(
            document::ItemView::Boolean(true),
        ),
        at_path(inj.configured(base, body), seq!["gateway"@, "web_dist_dir"@]) == Some(
            document::ItemView::Text("/usr/share/zeroclawlabs/web/dist"@),
        ),
{
    lemma_gateway_section(base, body, inj);
    let gw = inj.configured(base, body)["gateway"@]->Table_0;
    reveal_strlit("paired_tokens");
    reveal_strlit("trust_forwarded_headers");
    reveal_strlit("web_dist_dir");
    assert("paired_tokens"@.len() != "trust_forwarded_headers"@.len());
    assert("paired_tokens"@.len() != "web_dist_dir"@.len());
    assert("trust_forwarded_headers"@.len() != "web_dist_dir"@.len());
    lemma_two_steps(inj.configured(base, body), "gateway"@, "paired_tokens"@);
    lemma_two_steps(inj.configured(base, body), "gateway"@, "trust_forwarded_headers"@);
    lemma_two_steps(inj.configured(base, body), "gateway"@, "web_dist_dir"@);
}

proof fn lemma_two_steps(t: Map<Seq<char>, document::ItemView>, a: Seq<char>, b: Seq<char>)
    requires
        t.dom().contains(a),
        t[a] is Table,
        t[a]->Table_0.dom().contains(b),
    ensures
        at_path(t, seq![a, b]) == Some(t[a]->Table_0[b]),
{
    assert(seq![a, b].skip(1) =~= seq![b]);
    assert(at_path(t[a]->Table_0, seq![b]) == Some(t[a]->Table_0[b]));
}

proof fn lemma_gateway_section(
    base: Map<Seq<char>, document::ItemView>,
    body: Map<Seq<char>, document::ItemView>,
    inj: Injections,
)
    requires
        secrets_avoid(inj.channel_secrets@, "gateway"@),
    ensures
        inj.configured(base, body).dom().contains("gateway"@),
        inj.configured(base, body)["gateway"@] == with_gateway(
            overlaid(base, body),
            bearer_hash(inj.orchestrator_bearer@),
        )["gateway"@],
{
    reveal_strlit("gateway");
    reveal_strlit("mcp");
    assert("gateway"@.len() != "mcp"@.len());
    lemma_secrets_keep_other_keys(
        inj.applied(overlaid(base, body)),
        inj.channel_secrets@,
        "gateway"@,
    );
}

/// Gateway fields that the orchestrator does not control survive as the base
/// and the overlay have them.
pub proof fn law_other_gateway_fields_survive(
    base: Map<Seq<char>, document::ItemView>,
    body: Map<Seq<char>, document::ItemView>,
    inj: Injections,
    field: Seq<char>,
)
    requires
        secrets_avoid(inj.channel_secrets@, "gateway"@),
        field != "paired_tokens"@,
        field != "trust_forwarded_headers"@,
        field != "web_dist_dir"@,
        subtable(overlaid(base, body), "gateway"@).dom().contains(field),
    ensures
        at_path(inj.configured(base, body), seq!["gateway"@, field]) == Some(
            subtable(overlaid(base, body), "gateway"@)[field],
        ),
{
    lemma_gateway_section(base, body, inj);
    lemma_two_steps(inj.configured(base, body), "gateway"@, field);
}

/// Whatever the base and the overlay hold, the final document enables MCP,
/// loads every tool at once and knows exactly one server, the hub, whose
/// `Authorization` header carries the placeholder, unless a channel secret is
/// aimed at the MCP section itself.
pub proof fn law_overlay_cannot_shadow_mcp(
    base: Map<Seq<char>, document::ItemView>,
    body: Map<Seq<char>, document::ItemView>,
    inj: Injections,
)
    requires
        secrets_avoid(inj.channel_secrets@, "mcp"@),
    ensures
        at_path(inj.configured(base, body), seq!["mcp"@, "enabled"@]) == Some(
            document::ItemView::Boolean(true),
        ),
        at_path(inj.configured(base, body), seq!["mcp"@, "deferred_loading"@]) == Some(
            document::ItemView::Boolean(false),
        ),
        at_path(inj.configured(base, body), seq!["mcp"@, "servers"@]) == Some(
            document::ItemView::Array(
                seq![
                    document::ItemView::Table(
                        mcp_server(
                            inj.mcp_server_name@,
                            inj.mcp_server_url@,
                            inj.mcp_bearer_placeholder@,
                        ),
                    ),
                ],
            ),
        ),
{
    lemma_secrets_keep_other_keys(
        inj.applied(overlaid(base, body)),
        inj.channel_secrets@,
        "mcp"@,
    );
    reveal_strlit("enabled");
    reveal_strlit("deferred_loading");
    reveal_strlit("servers");
    assert("enabled"@[0] != "servers"@[0]);
    assert("enabled"@.len() != "deferred_loading"@.len());
    assert("servers"@.len() != "deferred_loading"@.len());
    lemma_two_steps(inj.configured(base, body), "mcp"@, "enabled"@);
    lemma_two_steps(inj.configured(base, body), "mcp"@, "deferred_loading"@);
    lemma_two_steps(inj.configured(base, body), "mcp"@, "servers"@);
}

/// Outside the gateway and the MCP section, a key at which no secret is aimed
/// holds what the overlay over the base gives.
pub proof fn law_other_sections_are_the_overlaid_base(
    base: Map<Seq<char>, document::ItemView>,
    body: Map<Seq<char>, document::ItemView>,
    inj: Injections,
    k: Seq<char>,
)
    requires
        k != "gateway"@,
        k != "mcp"@,
        secrets_avoid(inj.channel_secrets@, k),
    ensures
        inj.configured(base, body).dom().contains(k) == overlaid(base, body).dom().contains(k),
        overlaid(base, body).dom().contains(k) ==> inj.configured(base, body)[k] == overlaid(
            base,
            body,
        )[k],
{
    lemma_secrets_keep_other_keys(inj.applied(overlaid(base, body)), inj.channel_secrets@, k);
}

/// Every channel secret is found at its path, each with its own text, where no
/// secret that is written after it is put on the same way.
pub proof fn law_every_channel_secret_is_found(
    base: Map<Seq<char>, document::ItemView>,
    body: Map<Seq<char>, document::ItemView>,
    inj: Injections,
    i: int,
)
    requires
        0 <= i < inj.channel_secrets@.len(),
        forall|j: int|
            i < j < inj.channel_secrets@.len() ==> paths_part(
                text::split_on((#[trigger] inj.channel_secrets@[j]).0@, '.'),
                text::split_on(inj.channel_secrets@[i].0@, '.'),
            ),
    ensures
        at_path(inj.configured(base, body), text::split_on(inj.channel_secrets@[i].0@, '.'))
            == Some(document::ItemView::Text(inj.channel_secrets@[i].1@)),
{
    lemma_secret_stays(inj.applied(overlaid(base, body)), inj.channel_secrets@, i);
}

proof fn lemma_secret_stays(
    t: Map<Seq<char>, document::ItemView>,
    secrets: Seq<(String, String)>,
    i: int,
)
    requires
        0 <= i < secrets.len(),
        forall|j: int|
            i < j < secrets.len() ==> paths_part(
                text::split_on((#[trigger] secrets[j]).0@, '.'),
                text::split_on(secrets[i].0@, '.'),
            ),
    ensures
        at_path(with_secrets(t, secrets), text::split_on(secrets[i].0@, '.')) == Some(
            document::ItemView::Text(secrets[i].1@),
        ),
    decreases secrets.len(),
{
    if i == secrets.len() - 1 {
        law_channel_secret_is_found(t, secrets);
    } else {
        let front = secrets.drop_last();
        assert forall|j: int| i < j < front.len() implies paths_part(
            text::split_on((#[trigger] front[j]).0@, '.'),
            text::split_on(front[i].0@, '.'),
        ) by {
            assert(front[j] == secrets[j]);
        }
        lemma_secret_stays(t, front, i);
        assert(secrets[secrets.len() - 1] == secrets.last());
        law_set_path_keeps_other_paths(
            with_secrets(t, front),
            text::split_on(secrets.last().0@, '.'),
            text::split_on(secrets[i].0@, '.'),
            document::ItemView::Text(secrets.last().1@),
        );
    }
}

/// What stands on a way that no channel secret is put on is not touched by them:
/// outside the gateway and the MCP section it is what the overlay over the base
/// has there.
pub proof fn law_secrets_leave_other_paths_alone(
    base: Map<Seq<char>, document::ItemView>,
    body: Map<Seq<char>, document::ItemView>,
    inj: Injections,
    path: Seq<Seq<char>>,
)
    requires
        path.len() > 0,
        path[0] != "gateway"@,
        path[0] != "mcp"@,
        forall|j: int|
            0 <= j < inj.channel_secrets@.len() ==> paths_part(
                text::split_on((#[trigger] inj.channel_secrets@[j]).0@, '.'),
                path,
            ),
    ensures
        at_path(inj.configured(base, body), path) == at_path(overlaid(base, body), path),
{
    let t = inj.applied(overlaid(base, body));
    lemma_secrets_leave_path(t, inj.channel_secrets@, path);
    assert(t.dom().contains(path[0]) == overlaid(base, body).dom().contains(path[0]));
}

proof fn lemma_secrets_leave_path(
    t: Map<Seq<char>, document::ItemView>,
    secrets: Seq<(String, String)>,
    path: Seq<Seq<char>>,
)
    requires
        forall|j: int|
            0 <= j < secrets.len() ==> paths_part(
                text::split_on((#[trigger] secrets[j]).0@, '.'),
                path,
            ),
    ensures
        at_path(with_secrets(t, secrets), path) == at_path(t, path),
    decreases secrets.len(),
{
    if secrets.len() > 0 {
        let front = secrets.drop_last();
        assert forall|j: int| 0 <= j < front.len() implies paths_part(
            text::split_on((#[trigger] front[j]).0@, '.'),
            path,
        ) by {
            assert(front[j] == secrets[j]);
        }
        lemma_secrets_leave_path(t, front, path);
        assert(secrets[secrets.len() - 1] == secrets.last());
        law_set_path_keeps_other_paths(
            with_secrets(t, front),
            text::split_on(secrets.last().0@, '.'),
            path,
            document::ItemView::Text(secrets.last().1@),
        );
    }
}

/// The one MCP server of the final document is the hub as the orchestrator names
/// it: its name, its address, plain HTTP, a header that carries the placeholder as
/// a bearer, a minute for each tool, and nothing else.
pub proof fn law_hub_is_the_only_mcp_server(
    base: Map<Seq<char>, document::ItemView>,
    body: Map<Seq<char>, document::ItemView>,
    inj: Injections,
)
    requires
        secrets_avoid(inj.channel_secrets@, "mcp"@),
    ensures
        at_path(inj.configured(base, body), seq!["mcp"@, "servers"@]) matches Some(
            document::ItemView::Array(servers),
        ) && servers.len() == 1 && (servers[0] matches document::ItemView::Table(hub) && {
            &&& hub.dom() == set![
                "name"@,
                "transport"@,
                "url"@,
                "headers"@,
                "tool_timeout_secs"@,
            ]
            &&& hub["name"@] == document::ItemView::Text(inj.mcp_server_name@)
            &&& hub["url"@] == document::ItemView::Text(inj.mcp_server_url@)
            &&& hub["transport"@] == document::ItemView::Text("http"@)
            &&& hub["tool_timeout_secs"@] == document::ItemView::Integer(60)
            &&& hub["headers"@] matches document::ItemView::Table(headers) && headers == map![
                "Authorization"@ => document::ItemView::Text(
                    "Bearer "@ + inj.mcp_bearer_placeholder@,
                ),
            ]
        }),
{
    law_overlay_cannot_shadow_mcp(base, body, inj);
    let hub = mcp_server(
        inj.mcp_server_name@,
        inj.mcp_server_url@,
        inj.mcp_bearer_placeholder@,
    );
    reveal_strlit("name");
    reveal_strlit("transport");
    reveal_strlit("url");
    reveal_strlit("headers");
    reveal_strlit("tool_timeout_secs");
    assert("name"@.len() == 4 && "transport"@.len() == 9 && "url"@.len() == 3 && "headers"@.len()
        == 7 && "tool_timeout_secs"@.len() == 17);
    assert(hub.dom() =~= set![
        "name"@,
        "transport"@,
        "url"@,
        "headers"@,
        "tool_timeout_secs"@,
    ]);
    assert(hub["headers"@]->Table_0 =~= map![
        "Authorization"@ => document::ItemView::Text("Bearer "@ + inj.mcp_bearer_placeholder@),
    ]);
}

/// MCP fields that the orchestrator does not control survive as the base and the
/// overlay have them, and none is added.
pub proof fn law_other_mcp_fields_survive(
    base: Map<Seq<char>, document::ItemView>,
    body: Map<Seq<char>, document::ItemView>,
    inj: Injections,
    field: Seq<char>,
)
    requires
        secrets_avoid(inj.channel_secrets@, "mcp"@),
        field != "enabled"@,
        field != "deferred_loading"@,
        field != "servers"@,
    ensures
        at_path(inj.configured(base, body), seq!["mcp"@, field]) == at_path(
            overlaid(base, body),
            seq!["mcp"@, field],
        ),
{
    reveal_strlit("gateway");
    reveal_strlit("mcp");
    assert("gateway"@.len() != "mcp"@.len());
    let t = inj.applied(overlaid(base, body));
    lemma_secrets_keep_other_keys(t, inj.channel_secrets@, "mcp"@);
    lemma_in_section(inj.configured(base, body), "mcp"@, field);
    lemma_in_section(overlaid(base, body), "mcp"@, field);
}

proof fn lemma_in_section(t: Map<Seq<char>, document::ItemView>, a: Seq<char>, b: Seq<char>)
    ensures
        at_path(t, seq![a, b]) == (if subtable(t, a).dom().contains(b) {
            Some(subtable(t, a)[b])
        } else {
            None
        }),
{
    assert(seq![a, b].skip(1) =~= seq![b]);
    reveal_with_fuel(at_path, 2);
}

/// No gateway field comes in that the base and the overlay do not have, but for
/// those that the orchestrator controls.
pub proof fn law_other_gateway_fields_are_the_overlaid_base(
    base: Map<Seq<char>, document::ItemView>,
    body: Map<Seq<char>, document::ItemView>,
    inj: Injections,
    field: Seq<char>,
)
    requires
        secrets_avoid(inj.channel_secrets@, "gateway"@),
        field != "paired_tokens"@,
        field != "trust_forwarded_headers"@,
        field != "web_dist_dir"@,
    ensures
        at_path(inj.configured(base, body), seq!["gateway"@, field]) == at_path(
            overlaid(base, body),
            seq!["gateway"@, field],
        ),
{
    lemma_gateway_section(base, body, inj);
    lemma_in_section(inj.configured(base, body), "gateway"@, field);
    lemma_in_section(overlaid(base, body), "gateway"@, field);
}

/// What a path leads to in the merged document: what the overlay has there, unless
/// the overlay has nothing on the way, and then what the base has.
pub proof fn law_overlay_wins_on_every_path(
    base: Map<Seq<char>, document::ItemView>,
    body: Map<Seq<char>, document::ItemView>,
    path: Seq<Seq<char>>,
)
    requires
        path.len() > 0,
    ensures
        at_path(body, path) matches Some(v) && !(v is Table) ==> at_path(
            overlaid(base, body),
            path,
        ) == at_path(body, path),
        !body.dom().contains(path[0]) ==> at_path(overlaid(base, body), path) == at_path(
            base,
            path,
        ),
        at_path(overlaid(base, body), path) is Some ==> at_path(base, path) is Some || at_path(
            body,
            path,
        ) is Some,
    decreases path.len(),
{
    let k = path[0];
    law_overlay_is_key_by_key(base, body, k);
    if body.dom().contains(k) && base.dom().contains(k) {
        law_overlay_recurses_or_replaces(base, body, k);
        if path.len() > 1 && base[k] is Table && body[k] is Table {
            law_overlay_wins_on_every_path(base[k]->Table_0, body[k]->Table_0, path.skip(1));
        }
    }
}

/// The number that a lower-case hexadecimal digit stands for.
pub open spec fn hex_value(c: char) -> int {
    if '0' <= c <= '9' {
        c as int - '0' as int
    } else {
        c as int - 'a' as int + 10
    }
}

/// The hash of a bearer spells the SHA-256 digest of the bearer's UTF-8 form: each
/// byte of the digest in two digits, the high one first.
pub proof fn law_hash_spells_the_digest(bearer: &str, r: String, i: int)
    requires
        call_ensures(hash_bearer, (bearer,), r),
        0 <= i < sha256(vstd::utf8::encode_utf8(bearer@)).len(),
    ensures
        r@.len() == 2 * sha256(vstd::utf8::encode_utf8(bearer@)).len(),
        16 * hex_value(r@[2 * i]) + hex_value(r@[2 * i + 1]) == sha256(
            vstd::utf8::encode_utf8(bearer@),
        )[i],
        is_hex_digit(r@[2 * i]) && is_hex_digit(r@[2 * i + 1]),
{
    let data = sha256(vstd::utf8::encode_utf8(bearer@));
    assert((2 * i) / 2 == i && (2 * i + 1) / 2 == i);
    assert((2 * i) % 2 == 0 && (2 * i + 1) % 2 == 1);
    assert(r@[2 * i] == hex_digit((data[i] / 16) as u8));
    assert(r@[2 * i + 1] == hex_digit((data[i] % 16) as u8));
}

/// A base that is no TOML is refused with the parser's words, and a document that
/// cannot be written with the writer's; both are told after what was tried.
pub proof fn law_rendering_tells_why_it_fails(
    base_toml: &str,
    overlay: ClawOverlay,
    inj: Injections,
    e: RenderError,
    told: String,
)
    requires
        call_ensures(render, (base_toml, &overlay, &inj), Err(e)),
        call_ensures(RenderError::detail, (&e,), told),
    ensures
        document::toml_document(base_toml@) matches Err(cause) ==> e is Parse && told@
            == "parse base.toml"@ + ": "@ + cause,
        document::toml_document(base_toml@) is Ok ==> e is Serialize && (exists|cause: Seq<char>|
            #![trigger "serialize merged config"@ + ": "@ + cause]
            told@ == "serialize merged config"@ + ": "@ + cause),
{
}

/// A rendered file, read again, is the overlaid base with the orchestrator's
/// fields: it holds every channel secret at its path and the hash of the bearer.
pub proof fn law_rendered_file_holds_the_injections(
    base_toml: &str,
    overlay: ClawOverlay,
    inj: Injections,
    rendered: String,
    base: Map<Seq<char>, document::ItemView>,
    i: int,
)
    requires
        call_ensures(render, (base_toml, &overlay, &inj), Ok(rendered)),
        document::toml_document(base_toml@) == Ok::<
            Map<Seq<char>, document::ItemView>,
            Seq<char>,
        >(base),
        document::plain_document(inj.configured(base, document::contents(overlay.body))),
        0 <= i < inj.channel_secrets@.len(),
        forall|j: int|
            i < j < inj.channel_secrets@.len() ==> paths_part(
                text::split_on((#[trigger] inj.channel_secrets@[j]).0@, '.'),
                text::split_on(inj.channel_secrets@[i].0@, '.'),
            ),
    ensures
        document::toml_document(rendered@) matches Ok(doc) && {
            &&& at_path(doc, text::split_on(inj.channel_secrets@[i].0@, '.')) == Some(
                document::ItemView::Text(inj.channel_secrets@[i].1@),
            )
            &&& secrets_avoid(inj.channel_secrets@, "gateway"@) ==> at_path(
                doc,
                seq!["gateway"@, "paired_tokens"@],
            ) == Some(
                document::ItemView::Array(
                    seq![
                        document::ItemView::Text(
                            hex_text(
                                sha256(vstd::utf8::encode_utf8(inj.orchestrator_bearer@)),
                            ),
                        ),
                    ],
                ),
            )
        },
{
    let body = document::contents(overlay.body);
    law_every_channel_secret_is_found(base, body, inj, i);
    if secrets_avoid(inj.channel_secrets@, "gateway"@) {
        law_overlay_cannot_shadow_the_gateway(base, body, inj);
    }
}

/// Rendering is refused without an attempt only where `gateway` or `mcp` of the
/// merged document is taken by something that is no table, or where the document
/// holds a text that the writer cannot take.
pub proof fn law_rendering_is_tried(
    base_toml: &str,
    overlay: ClawOverlay,
    inj: Injections,
    r: Option<Result<String, RenderError>>,
)
    requires
        call_ensures(try_render, (base_toml, &overlay, &inj), r),
    ensures
        r is None <==> (document::toml_document(base_toml@) matches Ok(base) && {
            let body = document::contents(overlay.body);
            let merged = overlaid(base, body);
            ||| merged.dom().contains("gateway"@) && !(merged["gateway"@] is Table)
            ||| merged.dom().contains("mcp"@) && !(merged["mcp"@] is Table)
            ||| !document::tame_document(inj.configured(base, body))
        }),
{
}

/// The secret that is written last is found at its path.
pub proof fn law_channel_secret_is_found(
    t: Map<Seq<char>, document::ItemView>,
    secrets: Seq<(String, String)>,
)
    requires
        secrets.len() > 0,
    ensures
        at_path(with_secrets(t, secrets), text::split_on(secrets.last().0@, '.')) == Some(
            document::ItemView::Text(secrets.last().1@),
        ),
{
    text::lemma_split_on_nonempty(secrets.last().0@, '.');
    law_set_path_is_read_back(
        with_secrets(t, secrets.drop_last()),
        text::split_on(secrets.last().0@, '.'),
        document::ItemView::Text(secrets.last().1@),
    );
}

} // verus!
