//! The fleet manifest.
//!
//! The fleet is described by two kinds of files: `fleet.yaml`, which holds the
//! defaults of every claw and the ordered list of active claws, and one
//! `claws/<name>.toml` per claw, which combines the orchestrator's metadata
//! (in the table `_fleet`) with the body that is laid over `base.toml`.

use vstd::prelude::*;
use vstd::string::*;
use crate::document::{Item, Table};
use crate::keymap::KeyMap;
use crate::{document, text};

verus! {

/// The top level of `fleet.yaml`.
#[derive(Debug)]
pub struct FleetManifest {
    pub defaults: ClawDefaults,
    pub claws: Vec<String>,
}

/// Defaults applied to every claw.
#[derive(Debug)]
pub struct ClawDefaults {
    /// Container image.
    pub image: Option<String>,
    /// Memory limit in docker notation, such as `1g`.
    pub mem_limit: Option<String>,
    /// CPU limit in billionths of a core.
    pub cpu_limit: Option<i64>,
    /// Restart policy, such as `unless-stopped`.
    pub restart: Option<String>,
    /// Maximal size of a log file.
    pub log_max_size: Option<String>,
    /// Number of rotated log files to keep.
    pub log_max_file: Option<u32>,
}

impl Default for ClawDefaults {
    /// No default is set.
    fn default() -> (r: Self)
        ensures
            r.image is None,
            r.mem_limit is None,
            r.cpu_limit is None,
            r.restart is None,
            r.log_max_size is None,
            r.log_max_file is None,
    {
        ClawDefaults {
            image: None,
            mem_limit: None,
            cpu_limit: None,
            restart: None,
            log_max_size: None,
            log_max_file: None,
        }
    }
}

/// The orchestrator's metadata of a claw, from the table `_fleet` of its
/// overlay.
#[derive(Debug)]
pub struct FleetMetadata {
    /// Stable kebab-case identifier.
    pub name: String,
    /// Image of this claw, in place of the default.
    pub image: Option<String>,
    /// MCP scopes that this claw should reach.
    pub mcp_scopes: Vec<String>,
    /// Path of the claw's system prompt, relative to the fleet directory.
    pub prompt_path: Option<String>,
    /// Whether the claw already has its identity and secrets, so that
    /// provisioning is skipped.
    pub import: bool,
}

/// What the metadata of a claw say.
pub struct MetadataView {
    pub name: Seq<char>,
    pub image: Option<Seq<char>>,
    pub mcp_scopes: Seq<Seq<char>>,
    pub prompt_path: Option<Seq<char>>,
    pub import: bool,
}

impl View for FleetMetadata {
    type V = MetadataView;

    open spec fn view(&self) -> MetadataView {
        MetadataView {
            name: self.name@,
            image: text::opt_text(self.image),
            mcp_scopes: text::texts(self.mcp_scopes@),
            prompt_path: text::opt_text(self.prompt_path),
            import: self.import,
        }
    }
}

/// A claw's overlay: the orchestrator's metadata and the body that is laid over
/// `base.toml`, which no longer holds `_fleet`.
#[derive(Debug)]
pub struct ClawOverlay {
    pub fleet: FleetMetadata,
    pub body: Table,
}

/// Why an overlay is refused.
#[derive(Debug)]
pub enum ManifestError {
    /// The text is no TOML document; with the parser's message.
    Parse(String),
    /// There is no `_fleet`.
    MissingFleet,
    /// `_fleet` does not have the fields that it must have.
    Metadata,
}

impl ManifestError {
    /// What went wrong, in one line.
    pub open spec fn spec_message(self) -> Seq<char> {
        match self {
            ManifestError::Parse(_) => "parse overlay TOML"@,
            ManifestError::MissingFleet => "overlay is missing required `[_fleet]` table"@,
            ManifestError::Metadata => "parse `[_fleet]` metadata"@,
        }
    }

    /// What went wrong, in one line.
    pub fn message(&self) -> (r: String)
        ensures
            r@ == self.spec_message(),
    {
        match self {
            ManifestError::Parse(_) => "parse overlay TOML".to_owned(),
            ManifestError::MissingFleet => "overlay is missing required `[_fleet]` table".to_owned(),
            ManifestError::Metadata => "parse `[_fleet]` metadata".to_owned(),
        }
    }

    /// The message followed by its cause, where there is one.
    pub fn detail(&self) -> (r: String)
        ensures
            r@ == match *self {
                ManifestError::Parse(cause) => self.spec_message() + ": "@ + cause@,
                _ => self.spec_message(),
            },
    {
        let mut out = self.message();
        if let ManifestError::Parse(cause) = self {
            out.append(": ");
            out.append(cause.as_str());
        }
        out
    }
}

// ---- metadata ---------------------------------------------------------

/// The text of an item that can stand for a text: a string, or a date in its
/// own notation.
pub open spec fn item_text(v: document::ItemView) -> Option<Seq<char>> {
    match v {
        document::ItemView::Text(s) => Some(s),
        document::ItemView::Datetime(d) => Some(d),
        _ => None,
    }
}

/// Every element can stand for a text.
pub open spec fn all_texts(a: Seq<document::ItemView>) -> bool {
    forall|i: int| 0 <= i < a.len() ==> item_text(#[trigger] a[i]) is Some
}

/// The texts that a list of items stands for.
pub open spec fn item_texts(v: document::ItemView) -> Option<Seq<Seq<char>>> {
    match v {
        document::ItemView::Array(a) => if all_texts(a) {
            Some(a.map_values(|e: document::ItemView| item_text(e)->0))
        } else {
            None
        },
        _ => None,
    }
}

/// The truth value of an item.
pub open spec fn item_flag(v: document::ItemView) -> Option<bool> {
    match v {
        document::ItemView::Boolean(b) => Some(b),
        _ => None,
    }
}

/// The item under `k`.
pub open spec fn field(m: Map<Seq<char>, document::ItemView>, k: Seq<char>) -> Option<
    document::ItemView,
> {
    if m.dom().contains(k) {
        Some(m[k])
    } else {
        None
    }
}

/// The element at `i`.
pub open spec fn element(a: Seq<document::ItemView>, i: int) -> Option<document::ItemView> {
    if 0 <= i < a.len() {
        Some(a[i])
    } else {
        None
    }
}

/// The metadata made of five fields. The name must be there, scopes default to
/// none and `import` to false, and a field of the wrong kind spoils the whole.
pub open spec fn metadata_from(
    name: Option<document::ItemView>,
    image: Option<document::ItemView>,
    mcp_scopes: Option<document::ItemView>,
    prompt_path: Option<document::ItemView>,
    import: Option<document::ItemView>,
) -> Option<MetadataView> {
    if {
        &&& name is Some && item_text(name->0) is Some
        &&& image is Some ==> item_text(image->0) is Some
        &&& mcp_scopes is Some ==> item_texts(mcp_scopes->0) is Some
        &&& prompt_path is Some ==> item_text(prompt_path->0) is Some
        &&& import is Some ==> item_flag(import->0) is Some
    } {
        Some(
            MetadataView {
                name: item_text(name->0)->0,
                image: if image is Some {
                    item_text(image->0)
                } else {
                    None
                },
                mcp_scopes: if mcp_scopes is Some {
                    item_texts(mcp_scopes->0)->0
                } else {
                    Seq::empty()
                },
                prompt_path: if prompt_path is Some {
                    item_text(prompt_path->0)
                } else {
                    None
                },
                import: import is Some && item_flag(import->0)->0,
            },
        )
    } else {
        None
    }
}

/// The metadata that `_fleet` spells: a table of named fields, of which unknown
/// ones are ignored, or an array of the fields in their order, of which only
/// the last can be left out.
pub open spec fn metadata_of(v: document::ItemView) -> Option<MetadataView> {
    match v {
        document::ItemView::Table(m) => metadata_from(
            field(m, "name"@),
            field(m, "image"@),
            field(m, "mcp_scopes"@),
            field(m, "prompt_path"@),
            field(m, "import"@),
        ),
        document::ItemView::Array(a) => if 4 <= a.len() <= 5 {
            metadata_from(element(a, 0), element(a, 1), element(a, 2), element(a, 3), element(a, 4))
        } else {
            None
        },
        _ => None,
    }
}

fn read_text(v: &Item) -> (r: Option<String>)
    ensures
        text::opt_text(r) == item_text(v@),
{
    broadcast use document::lemma_item_view;

    match v {
        Item::Text(s) => Some(s.clone()),
        Item::Datetime(d) => Some(d.notation()),
        _ => None,
    }
}

fn read_texts(v: &Item) -> (r: Option<Vec<String>>)
    ensures
        match r {
            Some(list) => item_texts(v@) == Some(text::texts(list@)),
            None => item_texts(v@) is None,
        },
{
    broadcast use document::lemma_item_view;

    match v {
        Item::Array(a) => {
            let ghost seen = document::elements(a@);
            let mut out: Vec<String> = Vec::new();
            let mut i: usize = 0;
            while i < a.len()
                invariant
                    i <= a.len(),
                    seen == document::elements(a@),
                    v@ == document::ItemView::Array(seen),
                    out@.len() == i,
                    forall|j: int| 0 <= j < i ==> item_text(#[trigger] seen[j]) is Some,
                    forall|j: int|
                        0 <= j < i ==> (#[trigger] out@[j])@ == item_text(seen[j])->0,
                decreases a.len() - i,
            {
                match read_text(&a[i]) {
                    Some(s) => {
                        assert(seen[i as int] == a@[i as int]@);
                        out.push(s);
                    },
                    None => {
                        assert(item_text(seen[i as int]) is None);
                        assert(!all_texts(seen));
                        return None;
                    },
                }
                i = i + 1;
            }
            assert(text::texts(out@) =~= seen.map_values(
                |e: document::ItemView| item_text(e)->0,
            ));
            Some(out)
        },
        _ => None,
    }
}

/// What an optional item stands for.
spec fn opt_item(o: Option<&Item>) -> Option<document::ItemView> {
    match o {
        Some(v) => Some(v@),
        None => None,
    }
}

fn read_metadata(
    name: Option<&Item>,
    image: Option<&Item>,
    mcp_scopes: Option<&Item>,
    prompt_path: Option<&Item>,
    import: Option<&Item>,
) -> (r: Option<FleetMetadata>)
    ensures
        match r {
            Some(m) => metadata_from(
                opt_item(name),
                opt_item(image),
                opt_item(mcp_scopes),
                opt_item(prompt_path),
                opt_item(import),
            ) == Some(m@),
            None => metadata_from(
                opt_item(name),
                opt_item(image),
                opt_item(mcp_scopes),
                opt_item(prompt_path),
                opt_item(import),
            ) is None,
        },
{
    broadcast use document::lemma_item_view;

    let name = match name {
        Some(v) => match read_text(v) {
            Some(s) => s,
            None => return None,
        },
        None => return None,
    };
    let image = match image {
        Some(v) => match read_text(v) {
            Some(s) => Some(s),
            None => return None,
        },
        None => None,
    };
    let mcp_scopes = match mcp_scopes {
        Some(v) => match read_texts(v) {
            Some(list) => list,
            None => return None,
        },
        None => Vec::new(),
    };
    let prompt_path = match prompt_path {
        Some(v) => match read_text(v) {
            Some(s) => Some(s),
            None => return None,
        },
        None => None,
    };
    let import = match import {
        Some(v) => match v {
            Item::Boolean(b) => *b,
            _ => return None,
        },
        None => false,
    };
    let m = FleetMetadata { name, image, mcp_scopes, prompt_path, import };
    assert(text::texts(Seq::<String>::empty()) =~= Seq::<Seq<char>>::empty());
    Some(m)
}

// ---- overlays ---------------------------------------------------------

/// The refusal that a document meets as an overlay, if any.
pub open spec fn overlay_refusal(doc: Map<Seq<char>, document::ItemView>) -> Option<ManifestError> {
    if !doc.dom().contains("_fleet"@) {
        Some(ManifestError::MissingFleet)
    } else if metadata_of(doc["_fleet"@]) is None {
        Some(ManifestError::Metadata)
    } else {
        None
    }
}

impl ClawOverlay {
    /// The overlay says what the document `doc` says: the metadata come from
    /// `_fleet`, and everything else is the body.
    pub open spec fn reads(self, doc: Map<Seq<char>, document::ItemView>) -> bool {
        &&& metadata_of(doc["_fleet"@]) == Some(self.fleet@)
        &&& document::contents(self.body) == doc.remove("_fleet"@)
    }

    /// Takes the metadata out of a document and keeps the rest as the body.
    pub fn from_table(table: Table) -> (r: Result<Self, ManifestError>)
        ensures
            match r {
                Ok(o) => overlay_refusal(document::contents(table)) is None && o.reads(
                    document::contents(table),
                ),
                Err(e) => overlay_refusal(document::contents(table)) == Some(e),
            },
    {
        broadcast use document::lemma_item_view;

        let ghost doc = document::contents(table);
        let mut body = table;
        let fleet_value = match body.remove("_fleet") {
            Some(v) => v,
            None => return Err(ManifestError::MissingFleet),
        };
        assert(document::contents(body) =~= doc.remove("_fleet"@));
        let fleet = match &fleet_value {
            Item::Table(t) => {
                let name = t.get("name");
                let image = t.get("image");
                let mcp_scopes = t.get("mcp_scopes");
                let prompt_path = t.get("prompt_path");
                let import = t.get("import");
                read_metadata(name, image, mcp_scopes, prompt_path, import)
            },
            Item::Array(a) => {
                let n = a.len();
                if n < 4 || n > 5 {
                    None
                } else {
                    let import = if n == 5 {
                        Some(&a[4])
                    } else {
                        None
                    };
                    read_metadata(Some(&a[0]), Some(&a[1]), Some(&a[2]), Some(&a[3]), import)
                }
            },
            _ => None,
        };
        match fleet {
            Some(fleet) => Ok(ClawOverlay { fleet, body }),
            None => Err(ManifestError::Metadata),
        }
    }

    /// Parses an overlay from its TOML text.
    pub fn from_str(src: &str) -> (r: Result<Self, ManifestError>)
        ensures
            match r {
                Ok(o) => document::toml_document(src@) matches Ok(doc) && overlay_refusal(doc) is None
                    && o.reads(doc),
                Err(ManifestError::Parse(cause)) => document::toml_document(src@) == Err::<
                    Map<Seq<char>, document::ItemView>,
                    Seq<char>,
                >(cause@),
                Err(e) => document::toml_document(src@) matches Ok(doc) && overlay_refusal(doc) == Some(
                    e,
                ),
            },
    {
        match document::parse_document(src) {
            Ok(table) => Self::from_table(table),
            Err(cause) => Err(ManifestError::Parse(cause)),
        }
    }

    /// The name to show for the claw: `display_name` of the table `branding` of
    /// its body where that is a string, else the name of the claw.
    pub open spec fn shown_name(self) -> Seq<char> {
        let body = document::contents(self.body);
        match field(body, "branding"@) {
            Some(document::ItemView::Table(branding)) => match field(branding, "display_name"@) {
                Some(document::ItemView::Text(s)) => s,
                _ => self.fleet.name@,
            },
            _ => self.fleet.name@,
        }
    }

    /// The name to show for the claw, which is never missing.
    pub fn display_name(&self) -> (r: String)
        ensures
            r@ == self.shown_name(),
    {
        broadcast use document::lemma_item_view;

        if let Some(Item::Table(branding)) = self.body.get("branding") {
            if let Some(Item::Text(s)) = branding.get("display_name") {
                return s.clone();
            }
        }
        self.fleet.name.clone()
    }
}

// ---- the fleet --------------------------------------------------------

/// The document of an overlay that can be loaded.
pub open spec fn loadable(src: Seq<char>) -> Option<Map<Seq<char>, document::ItemView>> {
    match document::toml_document(src) {
        Ok(doc) => if overlay_refusal(doc) is None {
            Some(doc)
        } else {
            None
        },
        Err(_) => None,
    }
}

/// The file at place `i` is that of `claw` and can be loaded as `o`.
pub open spec fn loaded_from(
    files: Seq<(String, Option<String>)>,
    i: int,
    claw: Seq<char>,
    o: ClawOverlay,
) -> bool {
    &&& 0 <= i < files.len()
    &&& files[i].0@ == claw
    &&& files[i].1 matches Some(src) && (loadable(src@) matches Some(doc) && o.reads(doc))
}

/// No file behind the place `i` is of the same claw and can be loaded.
pub open spec fn last_loadable(files: Seq<(String, Option<String>)>, i: int) -> bool {
    forall|j: int|
        #![trigger files[j]]
        i < j < files.len() && files[j].0@ == files[i].0@ ==> (files[j].1 matches Some(src)
            ==> loadable(src@) is None)
}

/// Every overlay comes from a file of its claw, the last that can be loaded, and every
/// claw whose file can be loaded has an overlay.
pub open spec fn loads(
    files: Seq<(String, Option<String>)>,
    overlays: Map<Seq<char>, ClawOverlay>,
) -> bool {
    &&& forall|claw: Seq<char>| #[trigger]
        overlays.dom().contains(claw) ==> exists|i: int| #[trigger]
            loaded_from(files, i, claw, overlays[claw]) && last_loadable(files, i)
    &&& forall|i: int|
        #![trigger files[i]]
        0 <= i < files.len() ==> (files[i].1 matches Some(src) ==> loadable(src@) is Some
            ==> overlays.dom().contains(files[i].0@))
}

/// Loads the overlays of the claws, each from the text of its file, if it could
/// be read. A claw whose file is missing or refused has none.
pub fn load_overlays(files: &Vec<(String, Option<String>)>) -> (r: KeyMap<ClawOverlay>)
    ensures
        loads(files@, r@),
{
    let mut out: KeyMap<ClawOverlay> = KeyMap::new();
    let mut n: usize = 0;
    while n < files.len()
        invariant
            n <= files.len(),
            loads(files@.take(n as int), out@),
        decreases files.len() - n,
    {
        let ghost before = files@.take(n as int);
        let ghost now = files@.take(n + 1);
        let ghost was = out@;
        let ghost mut put = false;
        if let Some(src) = &files[n].1 {
            if let Ok(o) = ClawOverlay::from_str(src.as_str()) {
                let ghost new = o;
                proof {
                    put = true;
                }
                out.insert(files[n].0.clone(), o);
                assert(loaded_from(now, n as int, files@[n as int].0@, new));
            }
        }
        proof {
            assert forall|claw: Seq<char>| #[trigger] out@.dom().contains(claw) implies exists|i: int|
                #[trigger] loaded_from(now, i, claw, out@[claw]) && last_loadable(now, i) by {
                if claw == files@[n as int].0@ && put {
                    assert(loaded_from(now, n as int, claw, out@[claw]));
                    assert(last_loadable(now, n as int));
                } else {
                    assert(was.dom().contains(claw));
                    let i = choose|i: int| #[trigger]
                        loaded_from(before, i, claw, was[claw]) && last_loadable(before, i);
                    assert(now[i] == before[i]);
                    assert(loaded_from(now, i, claw, out@[claw]));
                    assert forall|j: int|
                        #![trigger now[j]]
                        i < j < now.len() && now[j].0@ == now[i].0@ implies (
                    now[j].1 matches Some(src) ==> loadable(src@) is None) by {
                        if j < n {
                            assert(before[j] == now[j]);
                        }
                    }
                    assert(last_loadable(now, i));
                }
            }
            assert forall|i: int|
                #![trigger now[i]]
                0 <= i < now.len() implies (now[i].1 matches Some(src) ==> loadable(src@) is Some
                ==> out@.dom().contains(now[i].0@)) by {
                if i < n {
                    assert(now[i] == before[i]);
                }
            }
        }
        n = n + 1;
    }
    assert(files@.take(files@.len() as int) =~= files@);
    out
}

impl FleetManifest {
    /// The active claws, in their order.
    pub fn claw_list(self) -> (r: Vec<String>)
        ensures
            r@ == self.claws@,
    {
        self.claws
    }
}

/// The claws that a manifest names; none where it cannot be read.
pub fn try_load_claw_list(read: Option<FleetManifest>) -> (r: Vec<String>)
    ensures
        match read {
            Some(m) => r@ == m.claws@,
            None => r@.len() == 0,
        },
{
    match read {
        Some(m) => m.claw_list(),
        None => Vec::new(),
    }
}

// ---- what holds of overlays -------------------------------------------

/// Metadata are accepted where the name is a text, the image and the prompt's path are
/// texts where they are there, the scopes are a list of texts where they are there, and
/// `import` is a truth value where it is there; dates count as texts. Each field says
/// what stands under its own name.
pub proof fn law_metadata_are_the_fields_of_fleet(m: Map<Seq<char>, document::ItemView>)
    ensures
        metadata_of(document::ItemView::Table(m)) is Some <==> {
            &&& m.dom().contains("name"@) && is_text(m["name"@])
            &&& m.dom().contains("image"@) ==> is_text(m["image"@])
            &&& m.dom().contains("prompt_path"@) ==> is_text(m["prompt_path"@])
            &&& m.dom().contains("mcp_scopes"@) ==> (
            m["mcp_scopes"@] matches document::ItemView::Array(a) && forall|i: int|
                0 <= i < a.len() ==> is_text(#[trigger] a[i]))
            &&& m.dom().contains("import"@) ==> m["import"@] is Boolean
        },
        metadata_of(document::ItemView::Table(m)) matches Some(md) ==> {
            &&& stands_for(m["name"@], md.name)
            &&& md.image is Some <==> m.dom().contains("image"@)
            &&& md.image matches Some(s) ==> stands_for(m["image"@], s)
            &&& md.prompt_path is Some <==> m.dom().contains("prompt_path"@)
            &&& md.prompt_path matches Some(s) ==> stands_for(m["prompt_path"@], s)
            &&& !m.dom().contains("mcp_scopes"@) ==> md.mcp_scopes.len() == 0
            &&& m.dom().contains("mcp_scopes"@) ==> (
            m["mcp_scopes"@] matches document::ItemView::Array(a) && a.len() == md.mcp_scopes.len()
                && forall|i: int|
                0 <= i < a.len() ==> stands_for(#[trigger] a[i], md.mcp_scopes[i]))
            &&& md.import <==> m.dom().contains("import"@) && m["import"@]
                == document::ItemView::Boolean(true)
        },
{
    if m.dom().contains("mcp_scopes"@) {
        if let document::ItemView::Array(a) = m["mcp_scopes"@] {
            if forall|i: int| 0 <= i < a.len() ==> is_text(#[trigger] a[i]) {
                assert forall|i: int| 0 <= i < a.len() implies item_text(#[trigger] a[i]) is Some by {
                    assert(is_text(a[i]));
                }
                assert(all_texts(a));
            }
            if all_texts(a) {
                assert forall|i: int| 0 <= i < a.len() implies is_text(#[trigger] a[i]) && stands_for(
                    a[i],
                    item_texts(m["mcp_scopes"@])->0[i],
                ) by {
                    assert(item_text(a[i]) is Some);
                }
            }
        }
    }
}

/// A string or a date.
pub open spec fn is_text(v: document::ItemView) -> bool {
    v is Text || v is Datetime
}

/// The item is this text, or the date that is written so.
pub open spec fn stands_for(v: document::ItemView, s: Seq<char>) -> bool {
    v == document::ItemView::Text(s) || v == document::ItemView::Datetime(s)
}

/// A list of four or five items spells the same metadata as a table that has them under
/// name, image, scopes, path of the prompt and `import`, in this order; a list of any
/// other length spells none, nor does anything that is neither table nor list.
pub proof fn law_list_spells_what_the_table_spells(a: Seq<document::ItemView>)
    ensures
        a.len() == 5 ==> metadata_of(document::ItemView::Array(a)) == metadata_of(
            document::ItemView::Table(
                map![
                    "name"@ => a[0],
                    "image"@ => a[1],
                    "mcp_scopes"@ => a[2],
                    "prompt_path"@ => a[3],
                    "import"@ => a[4],
                ],
            ),
        ),
        a.len() == 4 ==> metadata_of(document::ItemView::Array(a)) == metadata_of(
            document::ItemView::Table(
                map![
                    "name"@ => a[0],
                    "image"@ => a[1],
                    "mcp_scopes"@ => a[2],
                    "prompt_path"@ => a[3],
                ],
            ),
        ),
        !(4 <= a.len() <= 5) ==> metadata_of(document::ItemView::Array(a)) is None,
{
    reveal_strlit("name");
    reveal_strlit("image");
    reveal_strlit("mcp_scopes");
    reveal_strlit("prompt_path");
    reveal_strlit("import");
    assert("name"@.len() == 4 && "image"@.len() == 5 && "mcp_scopes"@.len() == 10
        && "prompt_path"@.len() == 11 && "import"@.len() == 6);
}

/// An overlay is its document: the metadata of `_fleet`, and a body that holds everything
/// else as it was and no `_fleet`. A document without `_fleet` is refused as such, one
/// whose `_fleet` spells no metadata as such, and a text that is no document with the
/// parser's words.
pub proof fn law_overlay_is_its_document(src: &str, r: Result<ClawOverlay, ManifestError>)
    requires
        call_ensures(ClawOverlay::from_str, (src,), r),
    ensures
        document::toml_document(src@) matches Err(cause) ==> (r matches Err(
            ManifestError::Parse(c),
        ) && c@ == cause),
        document::toml_document(src@) matches Ok(doc) ==> {
            &&& !doc.dom().contains("_fleet"@) ==> r == Err::<ClawOverlay, ManifestError>(
                ManifestError::MissingFleet,
            )
            &&& doc.dom().contains("_fleet"@) && metadata_of(doc["_fleet"@]) is None ==> r == Err::<
                ClawOverlay,
                ManifestError,
            >(ManifestError::Metadata)
            &&& doc.dom().contains("_fleet"@) && metadata_of(doc["_fleet"@]) is Some ==> r is Ok
            &&& r matches Ok(o) ==> {
                &&& metadata_of(doc["_fleet"@]) == Some(o.fleet@)
                &&& !document::contents(o.body).dom().contains("_fleet"@)
                &&& forall|k: Seq<char>|
                    k != "_fleet"@ ==> #[trigger] document::contents(o.body).dom().contains(k)
                        == doc.dom().contains(k)
                &&& forall|k: Seq<char>|
                    k != "_fleet"@ && doc.dom().contains(k) ==> #[trigger] document::contents(
                        o.body,
                    )[k] == doc[k]
            }
        },
{
}

/// A refusal is told in one line, a parser's complaint with its cause.
pub proof fn law_refusal_is_told(e: ManifestError, r: String)
    requires
        call_ensures(ManifestError::detail, (&e,), r),
    ensures
        e matches ManifestError::Parse(cause) ==> r@ == "parse overlay TOML"@ + ": "@ + cause@,
        e is MissingFleet ==> r@ == "overlay is missing required `[_fleet]` table"@,
        e is Metadata ==> r@ == "parse `[_fleet]` metadata"@,
{
}

/// A claw whose file can be loaded has the overlay that the file spells, and a claw whose
/// files cannot be loaded has none; where a claw has several files, the last counts.
pub proof fn law_overlays_are_loaded_from_their_files(
    files: Seq<(String, Option<String>)>,
    overlays: Map<Seq<char>, ClawOverlay>,
    i: int,
    src: String,
    doc: Map<Seq<char>, document::ItemView>,
)
    requires
        loads(files, overlays),
        0 <= i < files.len(),
        files[i].1 == Some(src),
        document::toml_document(src@) == Ok::<Map<Seq<char>, document::ItemView>, Seq<char>>(doc),
        doc.dom().contains("_fleet"@),
        metadata_of(doc["_fleet"@]) is Some,
        forall|j: int| i < j < files.len() ==> (#[trigger] files[j]).0@ != files[i].0@,
    ensures
        overlays.dom().contains(files[i].0@),
        metadata_of(doc["_fleet"@]) == Some(overlays[files[i].0@].fleet@),
        document::contents(overlays[files[i].0@].body) == doc.remove("_fleet"@),
{
    let claw = files[i].0@;
    assert(overlay_refusal(doc) is None);
    assert(loadable(src@) == Some(doc));
    assert(overlays.dom().contains(claw));
    let k = choose|k: int| #[trigger]
        loaded_from(files, k, claw, overlays[claw]) && last_loadable(files, k);
    if k > i {
        assert(files[k].0@ != files[i].0@);
    } else if k < i {
        assert(files[i].0@ == files[k].0@);
    }
}

/// Where no file of a claw spells an overlay, the claw has none.
pub proof fn law_claw_without_a_file_has_no_overlay(
    files: Seq<(String, Option<String>)>,
    overlays: Map<Seq<char>, ClawOverlay>,
    claw: Seq<char>,
)
    requires
        loads(files, overlays),
        forall|i: int|
            0 <= i < files.len() && (#[trigger] files[i]).0@ == claw ==> (
            files[i].1 matches Some(src) ==> match document::toml_document(src@) {
                Ok(doc) => !doc.dom().contains("_fleet"@) || metadata_of(doc["_fleet"@]) is None,
                Err(_) => true,
            }),
    ensures
        !overlays.dom().contains(claw),
{
    if overlays.dom().contains(claw) {
        let k = choose|k: int| #[trigger]
            loaded_from(files, k, claw, overlays[claw]) && last_loadable(files, k);
        assert(files[k].0@ == claw);
    }
}

/// What is said of metadata is what their fields hold, each under its own name.
pub proof fn law_metadata_view_shows_the_fields(m: FleetMetadata)
    ensures
        m@.name == m.name@ && m@.import == m.import,
        m@.image == text::opt_text(m.image) && m@.prompt_path == text::opt_text(m.prompt_path),
        m@.mcp_scopes == text::texts(m.mcp_scopes@),
{
}

} // verus!
