//! The bearers that pair claws with the orchestrator.

use vstd::prelude::*;
use vstd::string::*;
use crate::text;

verus! {

/// A hexadecimal digit in lower case.
pub open spec fn lower_hex(c: char) -> bool {
    '0' <= c <= '9' || 'a' <= c <= 'f'
}

/// A random identifier without hyphens: thirty-two hexadecimal digits, among
/// them the version 4 and the variant of RFC 9562.
pub open spec fn random_id(s: Seq<char>) -> bool {
    &&& s.len() == 32
    &&& forall|i: int| 0 <= i < s.len() ==> lower_hex(#[trigger] s[i])
    &&& s[12] == '4'
    &&& s[16] == '8' || s[16] == '9' || s[16] == 'a' || s[16] == 'b'
}

/// Draws an identifier with `uuid::Uuid::new_v4` and writes it without hyphens.
/// Which identifier comes is left to chance; of every one the form is claimed.
#[verifier::external_body]
fn draw_id() -> (r: String)
    ensures
        random_id(r@),
{
    uuid::Uuid::new_v4().simple().to_string()
}

/// A bearer as the orchestrator makes it.
pub open spec fn fresh_form(s: Seq<char>) -> bool {
    s.len() == 35 && s.take(3) == "zc_"@ && random_id(s.skip(3))
}

/// `id` is an identifier that was drawn.
pub closed spec fn drawn(id: Seq<char>) -> bool {
    exists|s: String| #[trigger] call_ensures(draw_id, (), s) && s@ == id
}

/// Draws a fresh bearer.
pub fn generate() -> (r: String)
    ensures
        fresh_form(r@),
        drawn(r@.skip(3)),
{
    let id = draw_id();
    assert(call_ensures(draw_id, (), id));
    let r = text::labelled("zc_", id.as_str());
    proof {
        reveal_strlit("zc_");
        assert(r@.take(3) =~= "zc_"@);
        assert(r@.skip(3) =~= id@);
    }
    r
}

/// The bearer of a claw.
pub struct Bearer {
    pub value: String,
    /// Whether it was drawn just now, so that it still has to be written down.
    pub is_new: bool,
}

/// The bearer that a file keeps: its content without the white space around it,
/// where that is not empty.
pub open spec fn kept(content: Option<Seq<char>>) -> Option<Seq<char>> {
    match content {
        Some(s) => if text::trimmed(s).len() > 0 {
            Some(text::trimmed(s))
        } else {
            None
        },
        None => None,
    }
}

/// The bearer of a claw from the content of its file, or `fresh` where the file
/// keeps none.
pub fn bearer_from(content: Option<&str>, fresh: String) -> (r: Bearer)
    ensures
        match kept(
            match content {
                Some(s) => Some(s@),
                None => None,
            },
        ) {
            Some(b) => r.value@ == b && !r.is_new,
            None => r.value@ == fresh@ && r.is_new,
        },
{
    if let Some(s) = content {
        let v = text::trim(s);
        if text::chars_of(v.as_str()).len() > 0 {
            return Bearer { value: v, is_new: false };
        }
    }
    Bearer { value: fresh, is_new: true }
}

/// The bearer of a claw: the one that its file keeps, or a fresh one.
pub fn ensure_bearer(content: Option<&str>) -> (r: Bearer)
    ensures
        match kept(
            match content {
                Some(s) => Some(s@),
                None => None,
            },
        ) {
            Some(b) => r.value@ == b && !r.is_new,
            None => fresh_form(r.value@) && drawn(r.value@.skip(3)) && r.is_new,
        },
{
    bearer_from(content, generate())
}

/// A new bearer is one that was drawn, and no bearer is new that a file keeps.
pub proof fn law_new_bearer_was_drawn(content: Option<&str>, b: Bearer)
    requires
        call_ensures(ensure_bearer, (content,), b),
    ensures
        b.is_new ==> b.value@.take(3) == "zc_"@ && drawn(b.value@.skip(3)),
        content is None ==> b.is_new,
        content matches Some(s) ==> (b.is_new <==> text::trimmed(s@).len() == 0),
        !b.is_new ==> (content matches Some(s) && b.value@ == text::trimmed(s@)),
{
}

/// A bearer that was written down is found again.
pub proof fn law_bearer_is_kept(b: Seq<char>)
    requires
        fresh_form(b),
    ensures
        kept(Some(b)) == Some(b),
{
    reveal_strlit("zc_");
    assert(b.take(3)[0] == b[0]);
    assert(b.skip(3)[31] == b[34]);
    assert(lower_hex(b.skip(3)[31]));
    assert(!text::is_white_space('z'));
    assert(text::strip_front(b, text::CharClass::WhiteSpace) == b);
    assert(b.last() == b[34]);
    assert(text::strip_back(b, text::CharClass::WhiteSpace) == b);
}

} // verus!
