//! The viewer of the files of the manifest. Files are edited in the repository;
//! there is no way to write them here.

use vstd::prelude::*;
use vstd::string::*;
use crate::api;
use crate::api::{Answer, AnswerBody};
use crate::text;

verus! {

/// A file in the listing.
#[derive(Debug)]
pub struct ConfigEntry {
    /// Name under which the file is asked for.
    pub key: String,
    /// Path relative to the manifest's directory.
    pub path: String,
    /// Label for people.
    pub label: String,
    /// Size in bytes.
    pub size_bytes: u64,
    /// Where the repository shows the file.
    pub git_url: Option<String>,
}

/// The content of a file.
#[derive(Debug)]
pub struct ConfigContent {
    pub key: String,
    pub path: String,
    pub content: String,
    pub git_url: Option<String>,
}

/// Where the repository shows a file: under the base address, whose trailing
/// slashes do not count.
pub open spec fn shown_at(base: Option<Seq<char>>, rel_path: Seq<char>) -> Option<Seq<char>> {
    match base {
        Some(b) => Some(
            text::strip_back(b, text::CharClass::Exactly('/')) + "/"@ + rel_path,
        ),
        None => None,
    }
}

/// Where the repository shows a file.
pub fn git_url_for(base: Option<&str>, rel_path: &str) -> (r: Option<String>)
    ensures
        text::opt_text(r) == shown_at(
            match base {
                Some(b) => Some(b@),
                None => None,
            },
            rel_path@,
        ),
{
    match base {
        Some(b) => {
            let mut out = text::trim_end_matches(b, '/');
            out.append("/");
            out.append(rel_path);
            Some(out)
        },
        None => None,
    }
}

fn git_url(base: &Option<String>, rel_path: &str) -> (r: Option<String>)
    ensures
        text::opt_text(r) == shown_at(text::opt_text(*base), rel_path@),
{
    match base {
        Some(b) => git_url_for(Some(b.as_str()), rel_path),
        None => None,
    }
}

/// The path of a claw's overlay.
pub open spec fn overlay_path(claw: Seq<char>) -> Seq<char> {
    "claws/"@ + claw + ".toml"@
}

/// The path of a claw's overlay, relative to the manifest's directory.
pub fn overlay_rel_path(claw: &str) -> (r: String)
    ensures
        r@ == overlay_path(claw@),
{
    let mut out = text::labelled("claws/", claw);
    out.append(".toml");
    out
}

/// `e` lists a file.
pub open spec fn is_entry(
    e: ConfigEntry,
    key: Seq<char>,
    path: Seq<char>,
    label: Seq<char>,
    size: u64,
    repo: Option<Seq<char>>,
) -> bool {
    &&& e.key@ == key
    &&& e.path@ == path
    &&& e.label@ == label
    &&& e.size_bytes == size
    &&& text::opt_text(e.git_url) == shown_at(repo, path)
}

/// `e` lists the overlay of a claw.
pub open spec fn is_overlay_entry(
    e: ConfigEntry,
    claw: Seq<char>,
    size: u64,
    repo: Option<Seq<char>>,
) -> bool {
    is_entry(
        e,
        "claws/"@ + claw,
        overlay_path(claw),
        overlay_path(claw) + " (overlay)"@,
        size,
        repo,
    )
}

/// The claws whose overlay exists, with its size.
pub open spec fn present(claws: Seq<(String, Option<u64>)>) -> Seq<(Seq<char>, u64)>
    decreases claws.len(),
{
    if claws.len() == 0 {
        Seq::empty()
    } else {
        let before = present(claws.drop_last());
        match claws.last().1 {
            Some(size) => before.push((claws.last().0@, size)),
            None => before,
        }
    }
}

/// How many of two files exist.
pub open spec fn existing(base_size: Option<u64>, fleet_size: Option<u64>) -> int {
    (if base_size is Some {
        1int
    } else {
        0
    }) + if fleet_size is Some {
        1int
    } else {
        0
    }
}

/// Lists every file that the viewer can show: `base.toml`, `fleet.yaml` and the
/// overlays of the claws in their order, each where it exists. The sizes are
/// those of the files that exist.
pub fn list(
    base_size: Option<u64>,
    fleet_size: Option<u64>,
    claws: &Vec<(String, Option<u64>)>,
    repo_blob_base: &Option<String>,
) -> (r: Vec<ConfigEntry>)
    ensures
        ({
            let repo = text::opt_text(*repo_blob_base);
            let n = existing(base_size, fleet_size);
            &&& r@.len() == n + present(claws@).len()
            &&& base_size matches Some(size) ==> is_entry(
                r@[0],
                "base"@,
                "base.toml"@,
                "base.toml (fleet-wide)"@,
                size,
                repo,
            )
            &&& fleet_size matches Some(size) ==> is_entry(
                r@[n - 1],
                "fleet"@,
                "fleet.yaml"@,
                "fleet.yaml (manifest)"@,
                size,
                repo,
            )
            &&& forall|i: int|
                0 <= i < present(claws@).len() ==> is_overlay_entry(
                    r@[n + i],
                    (#[trigger] present(claws@)[i]).0,
                    present(claws@)[i].1,
                    repo,
                )
        }),
{
    let mut out: Vec<ConfigEntry> = Vec::new();
    if let Some(size) = base_size {
        out.push(
            ConfigEntry {
                key: "base".to_owned(),
                path: "base.toml".to_owned(),
                label: "base.toml (fleet-wide)".to_owned(),
                size_bytes: size,
                git_url: git_url(repo_blob_base, "base.toml"),
            },
        );
    }
    if let Some(size) = fleet_size {
        out.push(
            ConfigEntry {
                key: "fleet".to_owned(),
                path: "fleet.yaml".to_owned(),
                label: "fleet.yaml (manifest)".to_owned(),
                size_bytes: size,
                git_url: git_url(repo_blob_base, "fleet.yaml"),
            },
        );
    }
    let ghost head = out@;
    let ghost n = head.len() as int;
    let ghost repo = text::opt_text(*repo_blob_base);
    let mut i: usize = 0;
    assert(claws@.take(0) =~= Seq::<(String, Option<u64>)>::empty());
    while i < claws.len()
        invariant
            i <= claws.len(),
            n == head.len(),
            repo == text::opt_text(*repo_blob_base),
            out@.len() == n + present(claws@.take(i as int)).len(),
            forall|j: int| 0 <= j < n ==> #[trigger] out@[j] == head[j],
            forall|j: int|
                0 <= j < present(claws@.take(i as int)).len() ==> is_overlay_entry(
                    out@[n + j],
                    (#[trigger] present(claws@.take(i as int))[j]).0,
                    present(claws@.take(i as int))[j].1,
                    repo,
                ),
        decreases claws.len() - i,
    {
        assert(claws@.take(i + 1).drop_last() =~= claws@.take(i as int));
        let ghost before = present(claws@.take(i as int));
        let claw = claws[i].0.as_str();
        if let Some(size) = claws[i].1 {
            let rel = overlay_rel_path(claw);
            let mut label = rel.clone();
            label.append(" (overlay)");
            let url = git_url(repo_blob_base, rel.as_str());
            out.push(
                ConfigEntry {
                    key: text::labelled("claws/", claw),
                    path: rel,
                    label,
                    size_bytes: size,
                    git_url: url,
                },
            );
            proof {
                let now = present(claws@.take(i + 1));
                assert forall|j: int| 0 <= j < now.len() implies is_overlay_entry(
                    out@[n + j],
                    (#[trigger] now[j]).0,
                    now[j].1,
                    repo,
                ) by {
                    if j < before.len() {
                        assert(now[j] == before[j]);
                    }
                }
            }
        }
        i = i + 1;
    }
    assert(claws@.take(claws@.len() as int) =~= claws@);
    out
}

/// A name that a claw can have: lower-case letters, digits and hyphens.
pub open spec fn kebab(s: Seq<char>) -> bool {
    forall|i: int|
        0 <= i < s.len() ==> ('a' <= #[trigger] s[i] <= 'z') || ('0' <= s[i] <= '9') || s[i] == '-'
}

fn is_kebab(s: &str) -> (r: bool)
    ensures
        r == kebab(s@),
{
    let v = text::chars_of(s);
    let mut i: usize = 0;
    while i < v.len()
        invariant
            i <= v.len(),
            v@ == s@,
            forall|j: int|
                0 <= j < i ==> ('a' <= #[trigger] v@[j] <= 'z') || ('0' <= v@[j] <= '9') || v@[j]
                    == '-',
        decreases v.len() - i,
    {
        let c = v[i];
        if !(('a' <= c && c <= 'z') || ('0' <= c && c <= '9') || c == '-') {
            return false;
        }
        i = i + 1;
    }
    true
}

/// A file that is asked for.
pub struct Wanted {
    pub key: String,
    pub path: String,
}

/// The file that is asked for as `base`.
pub fn base() -> (r: Wanted)
    ensures
        r.key@ == "base"@,
        r.path@ == "base.toml"@,
{
    Wanted { key: "base".to_owned(), path: "base.toml".to_owned() }
}

/// The file that is asked for as `fleet`.
pub fn fleet() -> (r: Wanted)
    ensures
        r.key@ == "fleet"@,
        r.path@ == "fleet.yaml"@,
{
    Wanted { key: "fleet".to_owned(), path: "fleet.yaml".to_owned() }
}

/// The overlay of a claw. A name that no claw can have is refused, so that no
/// other file is reached by it.
pub fn claw_overlay(name: &str) -> (r: Result<Wanted, Answer<ConfigContent>>)
    ensures
        match r {
            Ok(w) => kebab(name@) && w.key@ == "claws/"@ + name@ && w.path@ == overlay_path(name@),
            Err(a) => !kebab(name@) && api::says(a, 400, "invalid claw name"@),
        },
{
    if is_kebab(name) {
        Ok(Wanted { key: text::labelled("claws/", name), path: overlay_rel_path(name) })
    } else {
        Err(api::say(400, "invalid claw name".to_owned()))
    }
}

/// Why a file cannot be read.
pub enum ReadError {
    NotFound,
    Other(String),
}

/// The answer to the question for a file, from what came of reading it.
pub fn serve(wanted: Wanted, read: Result<String, ReadError>, repo_blob_base: &Option<String>) -> (r:
    Answer<ConfigContent>)
    ensures
        match read {
            Ok(content) => r.status == 200 && (r.body matches AnswerBody::Value(c) && {
                &&& c.key@ == wanted.key@
                &&& c.path@ == wanted.path@
                &&& c.content@ == content@
                &&& text::opt_text(c.git_url) == shown_at(
                    text::opt_text(*repo_blob_base),
                    wanted.path@,
                )
            }),
            Err(ReadError::NotFound) => api::says(r, 404, "no config at "@ + wanted.path@),
            Err(ReadError::Other(e)) => api::says(r, 500, "read failed: "@ + e@),
        },
{
    match read {
        Ok(content) => {
            let url = git_url(repo_blob_base, wanted.path.as_str());
            Answer {
                status: 200,
                body: AnswerBody::Value(
                    ConfigContent { key: wanted.key, path: wanted.path, content, git_url: url },
                ),
            }
        },
        Err(ReadError::NotFound) => api::say(
            404,
            text::labelled("no config at ", wanted.path.as_str()),
        ),
        Err(ReadError::Other(e)) => api::say(500, text::labelled("read failed: ", e.as_str())),
    }
}

/// The overlay of a claw lies directly in the directory of the overlays: its
/// path has no slash but the one behind `claws`, and no dot but the one before
/// `toml`.
pub proof fn law_overlay_stays_in_its_directory(name: Seq<char>)
    requires
        kebab(name),
    ensures
        forall|i: int|
            0 <= i < overlay_path(name).len() && i != 5 ==> #[trigger] overlay_path(name)[i] != '/',
        forall|i: int|
            0 <= i < overlay_path(name).len() && i != 6 + name.len() ==> #[trigger] overlay_path(
                name,
            )[i] != '.',
{
    reveal_strlit("claws/");
    reveal_strlit(".toml");
    let p = overlay_path(name);
    assert forall|i: int| 0 <= i < p.len() implies (i != 5 ==> #[trigger] p[i] != '/') && (i != 6
        + name.len() ==> p[i] != '.') by {
        if 6 <= i < 6 + name.len() {
            assert(p[i] == name[i - 6]);
        }
    }
}

/// The repository shows a file under its base address and the file's path, with one
/// slash in between, however many the base ends with.
pub proof fn law_file_is_shown_under_the_base(
    core: Seq<char>,
    slashes: Seq<char>,
    base: &str,
    rel_path: &str,
    r: Option<String>,
)
    requires
        core.len() == 0 || core.last() != '/',
        forall|i: int| 0 <= i < slashes.len() ==> #[trigger] slashes[i] == '/',
        base@ == core + slashes,
        call_ensures(git_url_for, (Some(base), rel_path), r),
    ensures
        r matches Some(url) && url@ == core + "/"@ + rel_path@,
{
    text::law_stripping_leaves_the_text(core, slashes, text::CharClass::Exactly('/'));
}

/// The listing begins with the base and the manifest, where they exist, and then has
/// the overlay of every claw that has one, each under its name and with its size.
pub proof fn law_listing_shows_what_exists(
    base_size: Option<u64>,
    fleet_size: Option<u64>,
    claws: Vec<(String, Option<u64>)>,
    repo_blob_base: Option<String>,
    r: Vec<ConfigEntry>,
    i: int,
)
    requires
        call_ensures(list, (base_size, fleet_size, &claws, &repo_blob_base), r),
        0 <= i < claws@.len(),
    ensures
        base_size matches Some(size) ==> r@.len() > 0 && r@[0].key@ == "base"@ && r@[0].path@
            == "base.toml"@ && r@[0].size_bytes == size && r@[0].label@
            == "base.toml (fleet-wide)"@,
        fleet_size matches Some(size) ==> exists|k: int|
            #![trigger r@[k]]
            0 <= k < r@.len() && k <= 1 && r@[k].key@ == "fleet"@ && r@[k].path@ == "fleet.yaml"@
                && r@[k].size_bytes == size && r@[k].label@ == "fleet.yaml (manifest)"@,
        forall|k: int|
            0 <= k < r@.len() ==> (repo_blob_base is Some <==> (#[trigger] r@[k]).git_url is Some),
        repo_blob_base matches Some(repo) ==> forall|k: int|
            0 <= k < r@.len() ==> (#[trigger] r@[k]).git_url->0@ == text::strip_back(
                repo@,
                text::CharClass::Exactly('/'),
            ) + "/"@ + r@[k].path@,
        claws@[i].1 matches Some(size) ==> exists|k: int|
            #![trigger r@[k]]
            0 <= k < r@.len() && r@[k].key@ == "claws/"@ + claws@[i].0@ && r@[k].path@ == "claws/"@
                + claws@[i].0@ + ".toml"@ && r@[k].label@ == r@[k].path@ + " (overlay)"@
                && r@[k].size_bytes == size,
{
    let n = existing(base_size, fleet_size);
    let repo = text::opt_text(repo_blob_base);
    if let Some(size) = fleet_size {
        assert(is_entry(
            r@[n - 1],
            "fleet"@,
            "fleet.yaml"@,
            "fleet.yaml (manifest)"@,
            size,
            repo,
        ));
    }
    assert forall|k: int| 0 <= k < r@.len() implies text::opt_text((#[trigger] r@[k]).git_url)
        == shown_at(repo, r@[k].path@) by {
        if k >= n {
            let p = present(claws@)[k - n];
            assert(is_overlay_entry(r@[n + (k - n)], p.0, p.1, repo));
        } else if k == 0 && base_size is Some {
            assert(is_entry(
                r@[0],
                "base"@,
                "base.toml"@,
                "base.toml (fleet-wide)"@,
                base_size->0,
                repo,
            ));
        } else {
            assert(k == n - 1);
        }
    }
    if let Some(size) = claws@[i].1 {
        let j = lemma_present(claws@, i);
        assert(present(claws@)[j] == (claws@[i].0@, size));
        assert(is_overlay_entry(r@[n + j], claws@[i].0@, size, repo));
    }
}

proof fn lemma_present(claws: Seq<(String, Option<u64>)>, i: int) -> (j: int)
    requires
        0 <= i < claws.len(),
        claws[i].1 is Some,
    ensures
        0 <= j < present(claws).len(),
        present(claws)[j] == (claws[i].0@, claws[i].1->0),
        j <= i,
    decreases claws.len(),
{
    if i == claws.len() - 1 {
        lemma_present_len(claws.drop_last());
        present(claws).len() - 1
    } else {
        let j = lemma_present(claws.drop_last(), i);
        assert(claws.drop_last()[i] == claws[i]);
        j
    }
}

proof fn lemma_present_len(claws: Seq<(String, Option<u64>)>)
    ensures
        present(claws).len() <= claws.len(),
    decreases claws.len(),
{
    if claws.len() > 0 {
        lemma_present_len(claws.drop_last());
    }
}

/// One more claw adds an entry behind the others where its overlay exists, and nothing
/// where it does not.
pub proof fn law_overlays_are_listed_in_order(
    claws: Seq<(String, Option<u64>)>,
    one: (String, Option<u64>),
)
    ensures
        one.1 matches Some(size) ==> present(claws.push(one)) == present(claws).push(
            (one.0@, size),
        ),
        one.1 is None ==> present(claws.push(one)) == present(claws),
        present(Seq::empty()).len() == 0,
{
    assert(claws.push(one).drop_last() =~= claws);
}

/// The viewer hands out the overlay of a claw and no other file: a name with any
/// character but small letters, digits and hyphens is refused.
pub proof fn law_only_overlays_are_reached(
    name: &str,
    r: Result<Wanted, Answer<ConfigContent>>,
    i: int,
)
    requires
        call_ensures(claw_overlay, (name,), r),
        0 <= i < name@.len(),
    ensures
        r is Ok ==> 'a' <= name@[i] <= 'z' || '0' <= name@[i] <= '9' || name@[i] == '-',
        r is Ok ==> r->Ok_0.path@ == "claws/"@ + name@ + ".toml"@ && r->Ok_0.key@ == "claws/"@
            + name@,
        (forall|j: int|
            0 <= j < name@.len() ==> 'a' <= #[trigger] name@[j] <= 'z' || '0' <= name@[j] <= '9'
                || name@[j] == '-') ==> r is Ok,
        r matches Err(a) ==> a.status == 400,
{
}

} // verus!
