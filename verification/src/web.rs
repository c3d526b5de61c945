//! The pages of the fleet.

use vstd::prelude::*;
use vstd::string::*;
use crate::keymap::KeyMap;
use crate::proxy::ProxyConfig;
use crate::wire::Field;
use crate::{text, wire};

verus! {

/// A page or what belongs to one.
pub enum Page {
    /// The dashboard of the fleet.
    Index,
    /// The frame around a claw's own dashboard, the same for every claw.
    Claw,
    /// The viewer of the configuration files.
    Configs,
    /// A style sheet, a script or the like.
    Static(String),
}

/// The asset that a page is served from.
pub fn asset_path(page: &Page) -> (r: String)
    ensures
        r@ == match *page {
            Page::Index => "index.html"@,
            Page::Claw => "claw.html"@,
            Page::Configs => "configs.html"@,
            Page::Static(path) => "static/"@ + path@,
        },
{
    match page {
        Page::Index => "index.html".to_owned(),
        Page::Claw => "claw.html".to_owned(),
        Page::Configs => "configs.html".to_owned(),
        Page::Static(path) => text::labelled("static/", path.as_str()),
    }
}

/// The media type that `mime_guess` finds for a path by its extension, first of
/// its guesses, `application/octet-stream` where it has none.
pub uninterp spec fn guessed_type(path: Seq<char>) -> Seq<char>;

/// Guesses a media type with `mime_guess::from_path` and
/// `MimeGuess::first_or_octet_stream`. The result is named [`guessed_type`] of
/// the path.
#[verifier::external_body]
fn guess_type(path: &str) -> (r: String)
    ensures
        r@ == guessed_type(path@),
{
    mime_guess::from_path(path).first_or_octet_stream().to_string()
}

/// A text that can stand in a header: no control characters but the tabulator.
pub open spec fn fits_header(s: Seq<char>) -> bool {
    forall|i: int| 0 <= i < s.len() ==> (#[trigger] s[i] >= ' ' && s[i] != '\u{7f}') || s[i] == '\t'
}

/// The content type for a guess: the guess itself where it can stand in a
/// header.
pub open spec fn served_type(guess: Seq<char>) -> Seq<char> {
    if fits_header(guess) {
        guess
    } else {
        "application/octet-stream"@
    }
}

/// The content type for a guessed media type.
pub fn header_type(guess: String) -> (r: String)
    ensures
        r@ == served_type(guess@),
{
    let v = text::chars_of(guess.as_str());
    let mut i: usize = 0;
    while i < v.len()
        invariant
            i <= v.len(),
            v@ == guess@,
            forall|j: int|
                0 <= j < i ==> (#[trigger] v@[j] >= ' ' && v@[j] != '\u{7f}') || v@[j] == '\t',
        decreases v.len() - i,
    {
        let c = v[i];
        if !((c >= ' ' && c != '\u{7f}') || c == '\t') {
            assert(!fits_header(guess@));
            return "application/octet-stream".to_owned();
        }
        i = i + 1;
    }
    guess
}

/// The content type under which an asset is served.
pub fn content_type(path: &str) -> (r: String)
    ensures
        r@ == served_type(guessed_type(path@)),
{
    header_type(guess_type(path))
}

/// What is sent for an asset.
pub enum Served {
    Found { content_type: String, data: Vec<u8> },
    NotFound,
}

/// The answer to a request for an asset, from what is stored under its path.
pub fn serve(path: &str, stored: Option<Vec<u8>>) -> (r: Served)
    ensures
        match stored {
            Some(bytes) => r matches Served::Found { content_type, data } && content_type@
                == served_type(guessed_type(path@)) && data == bytes,
            None => r is NotFound,
        },
{
    match stored {
        Some(data) => Served::Found { content_type: content_type(path), data },
        None => Served::NotFound,
    }
}

/// The status and the text of the answer that there is no such asset.
pub fn not_found() -> (r: (u16, String))
    ensures
        r.0 == 404,
        r.1@ == "not found"@,
{
    (404, "not found".to_owned())
}

/// What the pages have to know to build the addresses of claws.
pub fn public_config(proxy: &ProxyConfig) -> (r: KeyMap<Field>)
    ensures
        wire::object(r@) == map![
            "fleet_host"@ => wire::FieldView::Text(proxy.fleet_host@),
            "claw_suffix"@ => wire::FieldView::Text(proxy.claw_suffix@),
        ],
{
    broadcast use {wire::lemma_object_insert, wire::lemma_object_empty};

    let mut out: KeyMap<Field> = KeyMap::new();
    out.insert("fleet_host".to_owned(), Field::Text(proxy.fleet_host.clone()));
    out.insert("claw_suffix".to_owned(), Field::Text(proxy.claw_suffix.clone()));
    out
}

/// What is served under a content type that can stand in a header, and it is the
/// guess wherever that can.
pub proof fn law_content_type_can_stand_in_a_header(guess: String, r: String)
    requires
        call_ensures(header_type, (guess,), r),
    ensures
        forall|i: int|
            0 <= i < r@.len() ==> #[trigger] r@[i] == '\t' || r@[i] >= ' ' && r@[i] != '\u{7f}',
        (forall|i: int|
            0 <= i < guess@.len() ==> #[trigger] guess@[i] == '\t' || guess@[i] >= ' ' && guess@[i]
                != '\u{7f}') <==> r@ == guess@,
        r@ != guess@ ==> r@ == "application/octet-stream"@,
{
    reveal_strlit("application/octet-stream");
    assert(forall|i: int|
        0 <= i < "application/octet-stream"@.len() ==> ' ' <= #[trigger] "application/octet-stream"@[i]
            <= '~');
}

} // verus!
