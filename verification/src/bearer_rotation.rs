//! Rotation of the bearers that claws present to the MCP hub.
//!
//! A rendered `config.toml` holds the bearer of its claw. A bearer that is
//! missing, that is still the placeholder or that is about to expire is replaced
//! by a fresh one, and the claw is restarted.

use vstd::prelude::*;
use vstd::string::*;
use crate::failure::Failure;
use crate::keymap::KeyMap;
use crate::wire::{Body, Exchange, Method, Request};
use crate::{base64_text, clock, failure, keymap, paths, text, wire};

verus! {

// ---- the bearer in a file ---------------------------------------------

/// What precedes the bearer in a rendered file.
pub open spec fn bearer_mark() -> Seq<char> {
    "Authorization = \"Bearer "@
}

/// `bearer` stands in `content` behind the mark at `i`, up to the next quote.
pub open spec fn bearer_at(content: Seq<char>, i: int, bearer: Seq<char>) -> bool {
    let rest = content.skip(i + bearer_mark().len());
    &&& text::first_occurrence(content, bearer_mark(), i)
    &&& text::first_occurrence(rest, seq!['"'], bearer.len() as int)
    &&& bearer == rest.take(bearer.len() as int)
}

/// `bearer` stands behind the first mark of `content`.
pub open spec fn holds_bearer(content: Seq<char>, bearer: Seq<char>) -> bool {
    exists|i: int| bearer_at(content, i, bearer)
}

/// `found` is the first bearer of a rendered file.
pub open spec fn first_bearer(content: Seq<char>, found: Option<Seq<char>>) -> bool {
    match found {
        Some(bearer) => holds_bearer(content, bearer),
        None => forall|i: int| #[trigger]
            text::first_occurrence(content, bearer_mark(), i) ==> !text::occurs(
                content.skip(i + bearer_mark().len()),
                seq!['"'],
            ),
    }
}

/// The first bearer of a rendered file, if it holds one.
pub fn current_bearer(content: &str) -> (r: Option<String>)
    ensures
        first_bearer(content@, text::opt_text(r)),
{
    let all = text::chars_of(content);
    let mark = text::chars_of("Authorization = \"Bearer ");
    let total: usize = all.len();
    match text::find(&all, &mark) {
        None => {
            assert forall|j: int| #[trigger]
                text::first_occurrence(content@, bearer_mark(), j) implies false by {
                assert(text::occurs_at(content@, bearer_mark(), j));
            }
            None
        },
        Some(i) => {
            assert(i + mark@.len() <= total);
            let mut rest: Vec<char> = Vec::new();
            let mut k: usize = i + mark.len();
            while k < all.len()
                invariant
                    i + mark@.len() <= k <= all@.len(),
                    rest@ == all@.subrange(i + mark@.len(), k as int),
                decreases all.len() - k,
            {
                assert(all@.subrange(i + mark@.len(), k + 1) =~= all@.subrange(
                    i + mark@.len(),
                    k as int,
                ).push(all@[k as int]));
                rest.push(all[k]);
                k = k + 1;
            }
            assert(rest@ =~= content@.skip(i + bearer_mark().len()));
            let mut quote: Vec<char> = Vec::new();
            quote.push('"');
            assert(quote@ =~= seq!['"']);
            match text::find(&rest, &quote) {
                None => {
                    assert forall|j: int| #[trigger]
                        text::first_occurrence(content@, bearer_mark(), j) implies !text::occurs(
                        content@.skip(j + bearer_mark().len()),
                        seq!['"'],
                    ) by {
                        if j < i {
                            assert(!text::occurs_at(content@, bearer_mark(), j));
                        } else if i < j {
                            assert(!text::occurs_at(content@, bearer_mark(), i as int));
                        }
                    }
                    None
                },
                Some(n) => {
                    let bearer = text::slice_text(&rest, 0, n);
                    assert(bearer@ =~= rest@.take(n as int));
                    assert(bearer_at(content@, i as int, bearer@));
                    assert(holds_bearer(content@, bearer@));
                    Some(bearer)
                },
            }
        },
    }
}

/// `r` is the file with a new bearer: it takes the place of the placeholder
/// where that is there, else of the current bearer.
pub open spec fn substituted(
    content: Seq<char>,
    placeholder: Seq<char>,
    new_bearer: Seq<char>,
    current: Option<Seq<char>>,
    r: Seq<char>,
) -> bool {
    if text::occurs(content, placeholder) {
        text::replaced_first(content, placeholder, new_bearer, r)
    } else {
        match current {
            Some(c) => if c.len() > 0 {
                text::replaced_first(content, c, new_bearer, r)
            } else {
                r == content
            },
            None => r == content,
        }
    }
}

/// Puts a new bearer into a rendered file.
pub fn substitute_bearer(
    content: &str,
    placeholder: &str,
    new_bearer: &str,
    current: Option<&str>,
) -> (r: String)
    ensures
        substituted(
            content@,
            placeholder@,
            new_bearer@,
            match current {
                Some(c) => Some(c@),
                None => None,
            },
            r@,
        ),
{
    let all = text::chars_of(content);
    let mark = text::chars_of(placeholder);
    if let Some(i) = text::find(&all, &mark) {
        assert(text::occurs(content@, placeholder@));
        return text::replace_first(content, placeholder, new_bearer);
    }
    if let Some(c) = current {
        if text::chars_of(c).len() > 0 {
            return text::replace_first(content, c, new_bearer);
        }
    }
    content.to_owned()
}

/// `r` is the file with a fresh bearer in place of its first one.
pub open spec fn is_rotated(
    content: Seq<char>,
    placeholder: Seq<char>,
    new_bearer: Seq<char>,
    r: Seq<char>,
) -> bool {
    exists|current: Option<Seq<char>>| #[trigger]
        first_bearer(content, current) && substituted(content, placeholder, new_bearer, current, r)
}

/// The file of a claw with a fresh bearer in it.
pub fn rotated(content: &str, placeholder: &str, new_bearer: &str) -> (r: String)
    ensures
        is_rotated(content@, placeholder@, new_bearer@, r@),
{
    let current = current_bearer(content);
    let ghost found = text::opt_text(current);
    let r = match &current {
        Some(c) => substitute_bearer(content, placeholder, new_bearer, Some(c.as_str())),
        None => substitute_bearer(content, placeholder, new_bearer, None),
    };
    assert(first_bearer(content@, found));
    r
}

/// A bearer that stands nowhere before its own place is replaced there: the
/// file then holds the new bearer, provided that the new bearer has no quote in
/// it.
pub proof fn law_rotation_puts_the_new_bearer_in_place(
    content: Seq<char>,
    placeholder: Seq<char>,
    old_bearer: Seq<char>,
    new_bearer: Seq<char>,
    i: int,
    r: Seq<char>,
)
    requires
        bearer_at(content, i, old_bearer),
        old_bearer.len() > 0,
        text::occurs(content, placeholder) ==> placeholder == old_bearer,
        text::first_occurrence(content, old_bearer, i + bearer_mark().len()),
        forall|j: int| 0 <= j < new_bearer.len() ==> #[trigger] new_bearer[j] != '"',
        substituted(content, placeholder, new_bearer, Some(old_bearer), r),
    ensures
        bearer_at(r, i, new_bearer),
{
    let mark = bearer_mark();
    let at = i + mark.len();
    assert(text::occurs(content, old_bearer));
    let k = choose|k: int| #[trigger]
        text::first_occurrence(content, old_bearer, k) && r == text::spliced(
            content,
            k,
            old_bearer.len() as int,
            new_bearer,
        );
    if k < at {
        assert(!text::occurs_at(content, old_bearer, k));
    } else if at < k {
        assert(!text::occurs_at(content, old_bearer, at));
    }
    assert(r == content.take(at) + new_bearer + content.skip(at + old_bearer.len()));
    assert(r.subrange(i, at) =~= content.subrange(i, at));
    assert forall|j: int| 0 <= j < i implies !text::occurs_at(r, mark, j) by {
        assert(!text::occurs_at(content, mark, j));
        assert(r.subrange(j, j + mark.len()) =~= content.subrange(j, j + mark.len()));
    }
    let was = content.skip(at);
    let rest = r.skip(at);
    let n = new_bearer.len() as int;
    assert(rest =~= new_bearer + content.skip(at + old_bearer.len()));
    let m = old_bearer.len() as int;
    assert(was.subrange(m, m + 1)[0] == '"');
    assert(rest[n] == content[at + old_bearer.len()]);
    assert(rest.subrange(n, n + 1) =~= seq!['"']);
    assert forall|j: int| 0 <= j < n implies !text::occurs_at(rest, seq!['"'], j) by {
        assert(rest.subrange(j, j + 1)[0] == new_bearer[j]);
    }
    assert(rest.take(n) =~= new_bearer);
}

/// A file whose first `Authorization` header carries a bearer in quotes holds that
/// bearer and no other.
pub proof fn law_bearer_is_found(
    before: Seq<char>,
    bearer: Seq<char>,
    after: Seq<char>,
    found: Option<Seq<char>>,
)
    requires
        first_bearer(
            before + "Authorization = \"Bearer "@ + bearer + seq!['"'] + after,
            found,
        ),
        !bearer.contains('"'),
        forall|j: int|
            0 <= j < before.len() ==> !#[trigger] text::occurs_at(
                before + "Authorization = \"Bearer "@ + bearer + seq!['"'] + after,
                "Authorization = \"Bearer "@,
                j,
            ),
    ensures
        found == Some(bearer),
{
    let mark = "Authorization = \"Bearer "@;
    let content = before + mark + bearer + seq!['"'] + after;
    lemma_bearer_stands(before, bearer, after);
    let n = before.len() as int;
    let rest = content.skip(n + mark.len());
    assert(bearer_at(content, n, bearer));
    match found {
        Some(other) => {
            let i = choose|i: int| bearer_at(content, i, other);
            lemma_one_first_place(content, mark, i, n);
            lemma_one_first_place(
                rest,
                seq!['"'],
                other.len() as int,
                bearer.len() as int,
            );
        },
        None => {
            assert(text::first_occurrence(content, bearer_mark(), n));
            assert(text::occurs_at(rest, seq!['"'], bearer.len() as int));
        },
    }
}

proof fn lemma_one_first_place(hay: Seq<char>, needle: Seq<char>, i: int, j: int)
    requires
        text::first_occurrence(hay, needle, i),
        text::first_occurrence(hay, needle, j),
    ensures
        i == j,
{
    if i < j {
        assert(!text::occurs_at(hay, needle, i));
    } else if j < i {
        assert(!text::occurs_at(hay, needle, j));
    }
}

proof fn lemma_bearer_stands(before: Seq<char>, bearer: Seq<char>, after: Seq<char>)
    requires
        !bearer.contains('"'),
        forall|j: int|
            0 <= j < before.len() ==> !#[trigger] text::occurs_at(
                before + "Authorization = \"Bearer "@ + bearer + seq!['"'] + after,
                "Authorization = \"Bearer "@,
                j,
            ),
    ensures
        bearer_at(
            before + "Authorization = \"Bearer "@ + bearer + seq!['"'] + after,
            before.len() as int,
            bearer,
        ),
{
    let mark = "Authorization = \"Bearer "@;
    let content = before + mark + bearer + seq!['"'] + after;
    let n = before.len() as int;
    let rest = content.skip(n + mark.len());
    let m = bearer.len() as int;
    assert(content.subrange(n, n + mark.len()) =~= mark);
    assert(rest =~= bearer + seq!['"'] + after);
    assert(rest.subrange(m, m + 1) =~= seq!['"']);
    assert forall|j: int| 0 <= j < m implies !text::occurs_at(rest, seq!['"'], j) by {
        assert(rest.subrange(j, j + 1)[0] == bearer[j]);
        assert(bearer.contains(bearer[j]));
    }
    assert(rest.take(m) =~= bearer);
}

/// Rotating a file puts the new bearer where the old one stood in the header, and
/// leaves everything else as it was: the placeholder is replaced as any other
/// bearer is. The old bearer must not also stand before its header.
pub proof fn law_rotation_changes_the_bearer_alone(
    before: Seq<char>,
    bearer: Seq<char>,
    after: Seq<char>,
    placeholder: Seq<char>,
    new_bearer: Seq<char>,
    r: Seq<char>,
)
    requires
        is_rotated(
            before + "Authorization = \"Bearer "@ + bearer + seq!['"'] + after,
            placeholder,
            new_bearer,
            r,
        ),
        bearer.len() > 0,
        !bearer.contains('"'),
        text::occurs(
            before + "Authorization = \"Bearer "@ + bearer + seq!['"'] + after,
            placeholder,
        ) ==> placeholder == bearer,
        forall|j: int|
            0 <= j < before.len() ==> !#[trigger] text::occurs_at(
                before + "Authorization = \"Bearer "@ + bearer + seq!['"'] + after,
                "Authorization = \"Bearer "@,
                j,
            ),
        forall|j: int|
            0 <= j < before.len() + "Authorization = \"Bearer "@.len() ==> !#[trigger] text::occurs_at(
                before + "Authorization = \"Bearer "@ + bearer + seq!['"'] + after,
                bearer,
                j,
            ),
    ensures
        r == before + "Authorization = \"Bearer "@ + new_bearer + seq!['"'] + after,
{
    let mark = "Authorization = \"Bearer "@;
    let content = before + mark + bearer + seq!['"'] + after;
    let current = choose|current: Option<Seq<char>>| #[trigger]
        first_bearer(content, current) && substituted(content, placeholder, new_bearer, current, r);
    law_bearer_is_found(before, bearer, after, current);
    assert(text::replaced_first(content, bearer, new_bearer, r));
    assert(content =~= (before + mark) + bearer + (seq!['"'] + after));
    text::law_replacement_leaves_the_rest(
        before + mark,
        bearer,
        seq!['"'] + after,
        new_bearer,
        r,
    );
    assert(r =~= before + mark + new_bearer + seq!['"'] + after);
}

/// The placeholder, where it stands, gives way to the new bearer at its first place, and
/// the rest of the file stays as it was.
pub proof fn law_placeholder_gives_way(
    before: Seq<char>,
    placeholder: Seq<char>,
    after: Seq<char>,
    new_bearer: Seq<char>,
    r: Seq<char>,
)
    requires
        is_rotated(before + placeholder + after, placeholder, new_bearer, r),
        forall|j: int|
            0 <= j < before.len() ==> !#[trigger] text::occurs_at(
                before + placeholder + after,
                placeholder,
                j,
            ),
    ensures
        r == before + new_bearer + after,
{
    let content = before + placeholder + after;
    let n = before.len() as int;
    assert(content.subrange(n, n + placeholder.len()) =~= placeholder);
    assert(text::occurs_at(content, placeholder, n));
    assert(text::occurs(content, placeholder));
    text::law_replacement_leaves_the_rest(before, placeholder, after, new_bearer, r);
}

/// A file with neither the placeholder nor a bearer is left as it is.
pub proof fn law_file_without_a_bearer_is_kept(
    content: Seq<char>,
    placeholder: Seq<char>,
    new_bearer: Seq<char>,
    r: Seq<char>,
)
    requires
        is_rotated(content, placeholder, new_bearer, r),
        !text::occurs(content, placeholder),
        !text::occurs(content, "Authorization = \"Bearer "@),
    ensures
        r == content,
{
    let current = choose|current: Option<Seq<char>>| #[trigger]
        first_bearer(content, current) && substituted(content, placeholder, new_bearer, current, r);
    if let Some(bearer) = current {
        let i = choose|i: int| bearer_at(content, i, bearer);
        assert(text::occurs_at(content, "Authorization = \"Bearer "@, i));
    }
}

// ---- expiry -----------------------------------------------------------

/// Why the expiry of a token cannot be told.
#[derive(Debug)]
pub enum JwtError {
    /// The token does not have three segments.
    Segments,
    /// The payload is not encoded as it should be; with the message.
    Encoding(String),
    /// The payload is no JSON; with the parser's message.
    Payload(String),
    /// The payload does not say when the token expires.
    NoExpiry,
    /// The clock cannot be read; with its message.
    Clock(String),
}

impl JwtError {
    /// What went wrong, in one line.
    pub fn message(&self) -> (r: String)
        ensures
            r@ == match *self {
                JwtError::Segments => "jwt does not have 3 segments"@,
                JwtError::Encoding(e) => e@,
                JwtError::Payload(e) => e@,
                JwtError::NoExpiry => "no exp in jwt payload"@,
                JwtError::Clock(e) => e@,
            },
    {
        match self {
            JwtError::Segments => "jwt does not have 3 segments".to_owned(),
            JwtError::Encoding(e) => e.clone(),
            JwtError::Payload(e) => e.clone(),
            JwtError::NoExpiry => "no exp in jwt payload".to_owned(),
            JwtError::Clock(e) => e.clone(),
        }
    }
}

/// The fields of the object that `serde_json::from_slice` reads from bytes, each
/// as the natural number of 64 bits that it is, if it is one; nothing where the
/// value is no object; the parser's complaint where the bytes are no JSON.
pub uninterp spec fn json_naturals(bytes: Seq<u8>) -> Result<
    Option<Map<Seq<char>, Option<u64>>>,
    Seq<char>,
>;

/// The natural numbers that an optional map holds.
pub open spec fn naturals(fields: Option<KeyMap<Option<u64>>>) -> Option<
    Map<Seq<char>, Option<u64>>,
> {
    match fields {
        Some(m) => Some(m@),
        None => None,
    }
}

/// Reads JSON with `serde_json::from_slice`. The result, in which an object is the
/// list of its fields, is named [`json_naturals`] of the bytes.
#[verifier::external_body]
fn read_json(bytes: &Vec<u8>) -> (r: Result<Option<Vec<(String, Option<u64>)>>, String>)
    ensures
        json_naturals(bytes@) == match r {
            Ok(Some(items)) => Ok::<Option<Map<Seq<char>, Option<u64>>>, Seq<char>>(
                Some(keymap::items_map(items@)),
            ),
            Ok(None) => Ok::<Option<Map<Seq<char>, Option<u64>>>, Seq<char>>(None),
            Err(e) => Err::<Option<Map<Seq<char>, Option<u64>>>, Seq<char>>(e@),
        },
{
    match serde_json::from_slice::<serde_json::Value>(bytes) {
        Ok(serde_json::Value::Object(m)) => Ok(
            Some(m.into_iter().map(|(k, v)| (k, v.as_u64())).collect()),
        ),
        Ok(_) => Ok(None),
        Err(e) => Err(e.to_string()),
    }
}

/// The natural numbers in the fields of a JSON object, or that the bytes hold
/// another value or none.
fn read_naturals(bytes: &Vec<u8>) -> (r: Result<Option<KeyMap<Option<u64>>>, String>)
    ensures
        json_naturals(bytes@) == match r {
            Ok(fields) => Ok::<Option<Map<Seq<char>, Option<u64>>>, Seq<char>>(naturals(fields)),
            Err(e) => Err::<Option<Map<Seq<char>, Option<u64>>>, Seq<char>>(e@),
        },
{
    match read_json(bytes) {
        Ok(Some(items)) => Ok(Some(KeyMap::from_items(items))),
        Ok(None) => Ok(None),
        Err(e) => Err(e),
    }
}

/// When a payload says that its token expires, in seconds since the Unix epoch.
pub open spec fn expiry_of(fields: Option<Map<Seq<char>, Option<u64>>>) -> Option<u64> {
    match fields {
        Some(m) => if m.dom().contains("exp"@) {
            m["exp"@]
        } else {
            None
        },
        None => None,
    }
}

/// When a payload says that its token expires.
pub fn payload_expiry(fields: &Option<KeyMap<Option<u64>>>) -> (r: Result<u64, JwtError>)
    ensures
        match expiry_of(naturals(*fields)) {
            Some(exp) => r == Ok::<u64, JwtError>(exp),
            None => r matches Err(JwtError::NoExpiry),
        },
{
    match fields {
        Some(m) => match m.get("exp") {
            Some(v) => match v {
                Some(exp) => Ok(*exp),
                None => Err(JwtError::NoExpiry),
            },
            None => Err(JwtError::NoExpiry),
        },
        None => Err(JwtError::NoExpiry),
    }
}

/// `r` is when the token expires, or why that cannot be told.
pub open spec fn tells_expiry(jwt: Seq<char>, r: Result<u64, JwtError>) -> bool {
    let parts = text::split_on(jwt, '.');
    if parts.len() != 3 {
        r matches Err(JwtError::Segments)
    } else {
        match base64_text::standard_bytes(base64_text::standardized(parts[1])) {
            Err(cause) => r matches Err(JwtError::Encoding(e)) && e@ == "base64 decode: "@ + cause,
            Ok(bytes) => match json_naturals(bytes) {
                Err(cause) => r matches Err(JwtError::Payload(e)) && e@ == cause,
                Ok(fields) => match expiry_of(fields) {
                    Some(exp) => r == Ok::<u64, JwtError>(exp),
                    None => r matches Err(JwtError::NoExpiry),
                },
            },
        }
    }
}

/// When a token expires. Its signature is not looked at.
pub fn expiry(jwt: &str) -> (r: Result<u64, JwtError>)
    ensures
        tells_expiry(jwt@, r),
{
    let parts = text::split(jwt, '.');
    if parts.len() != 3 {
        return Err(JwtError::Segments);
    }
    assert(text::texts(parts@)[1] == parts@[1]@);
    let payload = match base64_text::base64_url_decode(parts[1].as_str()) {
        Ok(b) => b,
        Err(e) => return Err(JwtError::Encoding(e)),
    };
    match read_naturals(&payload) {
        Ok(fields) => payload_expiry(&fields),
        Err(e) => Err(JwtError::Payload(e)),
    }
}

/// What expires at `exp` does so within a window from `now`.
pub open spec fn expiring(exp: u64, window_secs: u64, now: u64) -> bool {
    exp <= now + window_secs
}

/// Whether what expires at `exp` does so within a window from now.
pub fn expires_within(exp: u64, window_secs: u64, now: u64) -> (r: bool)
    ensures
        r == expiring(exp, window_secs, now),
{
    exp as u128 <= now as u128 + window_secs as u128
}

/// Whether a token, looked at from `now`, expires within a window.
pub fn needs_refresh_at(jwt: &str, window_secs: u64, now: u64) -> (r: Result<bool, JwtError>)
    ensures
        exists|e: Result<u64, JwtError>| #[trigger]
            tells_expiry(jwt@, e) && match e {
                Ok(exp) => r == Ok::<bool, JwtError>(expiring(exp, window_secs, now)),
                Err(err) => r == Err::<bool, JwtError>(err),
            },
{
    let e = expiry(jwt);
    let ghost told = e;
    assert(tells_expiry(jwt@, told));
    match e {
        Ok(exp) => Ok(expires_within(exp, window_secs, now)),
        Err(err) => Err(err),
    }
}

/// `r` is the judgement on something that expires at `exp`, looked at from a time
/// that the clock was read to show, or the clock's failure.
pub open spec fn judged_by_clock(exp: u64, window_secs: u64, r: Result<bool, JwtError>) -> bool {
    exists|reading: Result<(u64, u32), String>| #[trigger]
        clock::was_read(reading) && match reading {
            Ok((now, _)) => r == Ok::<bool, JwtError>(expiring(exp, window_secs, now)),
            Err(e) => r == Err::<bool, JwtError>(JwtError::Clock(e)),
        }
}

/// `r` is the judgement on a token: whether it expires within a window from the
/// time that the clock showed, or why that cannot be told.
pub open spec fn judgement(jwt: Seq<char>, window_secs: u64, r: Result<bool, JwtError>) -> bool {
    exists|e: Result<u64, JwtError>| #[trigger]
        tells_expiry(jwt, e) && match e {
            Ok(exp) => judged_by_clock(exp, window_secs, r),
            Err(err) => r == Err::<bool, JwtError>(err),
        }
}

/// Whether a token expires within a window from now.
pub fn needs_refresh(jwt: &str, window_secs: u64) -> (r: Result<bool, JwtError>)
    ensures
        judgement(jwt@, window_secs, r),
{
    let e = expiry(jwt);
    let ghost told = e;
    assert(tells_expiry(jwt@, told));
    match e {
        Ok(exp) => {
            let reading = clock::unix_time();
            let ghost shown = reading;
            assert(clock::was_read(shown));
            match reading {
                Ok((secs, _)) => Ok(expires_within(exp, window_secs, secs)),
                Err(c) => Err(JwtError::Clock(c)),
            }
        },
        Err(err) => Err(err),
    }
}

/// A token is judged by the time that the clock shows. Where the clock can be read
/// and shows no time before the token's expiry less the window, the token needs a
/// refresh, also one that expired long ago; where it shows no time from then on,
/// the token needs none.
pub proof fn law_verdict_follows_the_clock(
    jwt: &str,
    window_secs: u64,
    exp: u64,
    r: Result<bool, JwtError>,
)
    requires
        call_ensures(needs_refresh, (jwt, window_secs), r),
        call_ensures(expiry, (jwt,), Ok(exp)),
    ensures
        r is Ok ==> exists|now: u64, nanos: u32| #[trigger]
            clock::was_read(Ok((now, nanos))) && (r->Ok_0 <==> exp <= now + window_secs),
        r is Err ==> exists|e: String| #[trigger]
            clock::was_read(Err(e)) && r == Err::<bool, JwtError>(JwtError::Clock(e)),
        (forall|e: String| !#[trigger] clock::was_read(Err(e))) && (forall|now: u64, nanos: u32| #[trigger]
            clock::was_read(Ok((now, nanos))) ==> exp <= now + window_secs) ==> r == Ok::<
            bool,
            JwtError,
        >(true),
        (forall|e: String| !#[trigger] clock::was_read(Err(e))) && (forall|now: u64, nanos: u32| #[trigger]
            clock::was_read(Ok((now, nanos))) ==> exp > now + window_secs) ==> r == Ok::<
            bool,
            JwtError,
        >(false),
{
    lemma_judged_at_a_reading(jwt@, window_secs, exp, r);
}

proof fn lemma_judged_at_a_reading(
    jwt: Seq<char>,
    window_secs: u64,
    exp: u64,
    r: Result<bool, JwtError>,
)
    requires
        judgement(jwt, window_secs, r),
        tells_expiry(jwt, Ok(exp)),
    ensures
        match r {
            Ok(verdict) => exists|now: u64, nanos: u32| #[trigger]
                clock::was_read(Ok((now, nanos))) && (verdict <==> exp <= now + window_secs),
            Err(err) => exists|e: String| #[trigger]
                clock::was_read(Err(e)) && err == JwtError::Clock(e),
        },
{
    let e = choose|e: Result<u64, JwtError>| #[trigger]
        tells_expiry(jwt, e) && match e {
            Ok(exp) => judged_by_clock(exp, window_secs, r),
            Err(err) => r == Err::<bool, JwtError>(err),
        };
    assert(e == Ok::<u64, JwtError>(exp));
    let reading = choose|reading: Result<(u64, u32), String>| #[trigger]
        clock::was_read(reading) && match reading {
            Ok((now, _)) => r == Ok::<bool, JwtError>(expiring(exp, window_secs, now)),
            Err(e) => r == Err::<bool, JwtError>(JwtError::Clock(e)),
        };
    match reading {
        Ok((now, nanos)) => {
            assert(clock::was_read(Ok((now, nanos))));
        },
        Err(c) => {
            assert(clock::was_read(Err(c)));
        },
    }
}

/// What is judged to expire stays so later, and within any wider window.
pub proof fn law_expiry_is_not_taken_back(
    exp: u64,
    window_secs: u64,
    now: u64,
    wider_secs: u64,
    later: u64,
)
    requires
        expiring(exp, window_secs, now),
        window_secs <= wider_secs,
        now <= later,
    ensures
        expiring(exp, wider_secs, later),
{
}

/// When a token expires is what its payload, the middle one of its three parts,
/// says under `exp`; the other parts do not count.
pub proof fn law_expiry_stands_in_the_payload(
    header: Seq<char>,
    payload: Seq<u8>,
    signature: Seq<char>,
    fields: Map<Seq<char>, Option<u64>>,
    exp: u64,
    r: Result<u64, JwtError>,
)
    requires
        !header.contains('.'),
        !signature.contains('.'),
        !base64_text::token_text(payload).contains('.'),
        base64_text::standard_bytes(base64_text::standard_text(payload)) == Ok::<
            Seq<u8>,
            Seq<char>,
        >(payload),
        json_naturals(payload) == Ok::<Option<Map<Seq<char>, Option<u64>>>, Seq<char>>(
            Some(fields),
        ),
        tells_expiry(
            header + seq!['.'] + base64_text::token_text(payload) + seq!['.'] + signature,
            r,
        ),
    ensures
        fields.dom().contains("exp"@) && fields["exp"@] == Some(exp) ==> r == Ok::<u64, JwtError>(
            exp,
        ),
        !fields.dom().contains("exp"@) || fields["exp"@] is None ==> r == Err::<u64, JwtError>(
            JwtError::NoExpiry,
        ),
{
    let middle = base64_text::token_text(payload);
    let front = header + seq!['.'] + middle;
    text::lemma_split_whole(header, '.');
    text::lemma_split_last(header, middle, '.');
    text::lemma_split_last(front, signature, '.');
    let parts = text::split_on(front + seq!['.'] + signature, '.');
    assert(parts =~= seq![header, middle, signature]);
    base64_text::law_token_text_is_decoded(payload);
}

/// A token that does not have three parts, whose payload is no base64, whose payload is
/// no JSON, or which says nothing of its expiry, is refused as such.
pub proof fn law_other_tokens_are_refused(jwt: Seq<char>, r: Result<u64, JwtError>)
    requires
        tells_expiry(jwt, r),
    ensures
        text::split_on(jwt, '.').len() != 3 <==> (r matches Err(e) && e is Segments),
        r matches Err(JwtError::Encoding(e)) ==> (base64_text::standard_bytes(
            base64_text::standardized(text::split_on(jwt, '.')[1]),
        ) matches Err(cause) && e@ == "base64 decode: "@ + cause),
        r matches Err(e) ==> !(e is Clock),
        !jwt.contains('.') ==> (r matches Err(e) && e is Segments),
{
    if !jwt.contains('.') {
        text::lemma_split_whole(jwt, '.');
    }
}

// ---- the rotation of one claw -----------------------------------------

/// Whether a bearer is due: there is none, it is still the placeholder, or its
/// token is about to expire or cannot be understood.
pub open spec fn due(
    current: Option<Seq<char>>,
    placeholder: Seq<char>,
    verdict: Result<bool, JwtError>,
) -> bool {
    match current {
        None => true,
        Some(bearer) => bearer == placeholder || match verdict {
            Ok(refresh) => refresh,
            Err(_) => true,
        },
    }
}

/// Whether the current bearer is due, from what is known of its token.
pub fn rotation_due(current: Option<&str>, placeholder: &str, verdict: Result<bool, JwtError>) -> (r:
    bool)
    ensures
        r == due(
            match current {
                Some(c) => Some(c@),
                None => None,
            },
            placeholder@,
            verdict,
        ),
{
    match current {
        None => true,
        Some(bearer) => {
            if text::same_text(bearer, placeholder) {
                true
            } else {
                match verdict {
                    Ok(refresh) => refresh,
                    Err(_) => true,
                }
            }
        },
    }
}

/// `r` says whether the bearer in a claw's file is due.
pub open spec fn due_in_file(
    content: Seq<char>,
    placeholder: Seq<char>,
    window_secs: u64,
    r: bool,
) -> bool {
    exists|current: Option<Seq<char>>, verdict: Result<bool, JwtError>|
        #![trigger due(current, placeholder, verdict)]
        {
            &&& first_bearer(content, current)
            &&& current matches Some(bearer) ==> judgement(bearer, window_secs, verdict)
            &&& r == due(current, placeholder, verdict)
        }
}

/// Whether the bearer in a claw's file is due now.
pub fn file_is_due(content: &str, placeholder: &str, window_secs: u64) -> (r: bool)
    ensures
        due_in_file(content@, placeholder@, window_secs, r),
{
    let current = current_bearer(content);
    let ghost found = text::opt_text(current);
    match &current {
        None => {
            let verdict = Err(JwtError::Segments);
            let ghost v = verdict;
            let r = rotation_due(None, placeholder, verdict);
            assert(r == due(found, placeholder@, v));
            r
        },
        Some(bearer) => {
            let verdict = needs_refresh(bearer.as_str(), window_secs);
            let ghost v = verdict;
            let r = rotation_due(Some(bearer.as_str()), placeholder, verdict);
            assert(r == due(found, placeholder@, v));
            r
        },
    }
}

/// The bearer in a file is judged by its token and by the clock: one that the
/// clock shows to be past its expiry less the window is due, one before that is
/// not, and the placeholder always is.
pub proof fn law_bearer_in_file_is_judged_by_the_clock(
    content: Seq<char>,
    placeholder: Seq<char>,
    window_secs: u64,
    bearer: Seq<char>,
    exp: u64,
    is_due: bool,
)
    requires
        due_in_file(content, placeholder, window_secs, is_due),
        holds_bearer(content, bearer),
        tells_expiry(bearer, Ok(exp)),
    ensures
        bearer == placeholder ==> is_due,
        (forall|now: u64, nanos: u32| #[trigger]
            clock::was_read(Ok((now, nanos))) ==> exp <= now + window_secs) ==> is_due,
        bearer != placeholder && (forall|e: String| !#[trigger] clock::was_read(Err(e))) && (forall|
            now: u64,
            nanos: u32,
        | #[trigger]
            clock::was_read(Ok((now, nanos))) ==> exp > now + window_secs) ==> !is_due,
{
    let (current, verdict) = choose|current: Option<Seq<char>>, verdict: Result<bool, JwtError>|
        #![trigger due(current, placeholder, verdict)]
        {
            &&& first_bearer(content, current)
            &&& current matches Some(bearer) ==> judgement(bearer, window_secs, verdict)
            &&& is_due == due(current, placeholder, verdict)
        };
    let i = choose|i: int| bearer_at(content, i, bearer);
    let rest = content.skip(i + bearer_mark().len());
    match current {
        Some(other) => {
            let k = choose|k: int| bearer_at(content, k, other);
            lemma_one_first_place(content, bearer_mark(), i, k);
            lemma_one_first_place(rest, seq!['"'], bearer.len() as int, other.len() as int);
            lemma_judged_at_a_reading(bearer, window_secs, exp, verdict);
        },
        None => {
            assert(text::first_occurrence(content, bearer_mark(), i));
            assert(text::occurs_at(rest, seq!['"'], bearer.len() as int));
        },
    }
}

/// A file without a bearer, or whose bearer is no token that can be understood, is
/// due.
pub proof fn law_bearer_that_says_nothing_is_due(
    content: Seq<char>,
    placeholder: Seq<char>,
    window_secs: u64,
    found: Option<Seq<char>>,
    is_due: bool,
)
    requires
        due_in_file(content, placeholder, window_secs, is_due),
        first_bearer(content, found),
        found matches Some(bearer) ==> forall|e: Result<u64, JwtError>| #[trigger]
            tells_expiry(bearer, e) ==> e is Err,
    ensures
        is_due,
{
    let (current, verdict) = choose|current: Option<Seq<char>>, verdict: Result<bool, JwtError>|
        #![trigger due(current, placeholder, verdict)]
        {
            &&& first_bearer(content, current)
            &&& current matches Some(bearer) ==> judgement(bearer, window_secs, verdict)
            &&& is_due == due(current, placeholder, verdict)
        };
    if let Some(other) = current {
        let k = choose|k: int| bearer_at(content, k, other);
        let rest = content.skip(k + bearer_mark().len());
        match found {
            Some(bearer) => {
                let i = choose|i: int| bearer_at(content, i, bearer);
                lemma_one_first_place(content, bearer_mark(), i, k);
                lemma_one_first_place(rest, seq!['"'], bearer.len() as int, other.len() as int);
            },
            None => {
                assert(text::first_occurrence(content, bearer_mark(), k));
                assert(text::occurs_at(rest, seq!['"'], other.len() as int));
            },
        }
    }
}

/// Where the rendered file of a claw is kept.
pub open spec fn config_file(state_dir: Seq<char>, name: Seq<char>) -> Seq<char> {
    paths::joined(paths::joined(paths::joined(state_dir, name), "config"@), "config.toml"@)
}

/// The rendered file of a claw.
pub fn config_path(state_dir: &str, name: &str) -> (r: String)
    ensures
        r@ == config_file(state_dir@, name@),
{
    let claw = paths::join(state_dir, name);
    let dir = paths::join(claw.as_str(), "config");
    paths::join(dir.as_str(), "config.toml")
}

/// The secret with which a claw asks for tokens.
pub fn client_secret_path(name: &str) -> (r: String)
    ensures
        r@ == "services/"@ + name@ + "/papehouse"@,
{
    let mut out = text::labelled("services/", name);
    out.append("/papehouse");
    out
}

/// A failure to read the secret of a claw, as it is reported.
pub fn secret_unread(name: &str, f: Failure) -> (r: Failure)
    ensures
        r@ == failure::failure_under(
            f@,
            "bao read "@ + ("services/"@ + name@ + "/papehouse"@) + ".client_secret"@,
        ),
{
    let mut task = text::labelled("bao read ", client_secret_path(name).as_str());
    task.append(".client_secret");
    f.under(task)
}

/// The request for a fresh token: the claw's own credentials, with the scope
/// that names the claw as audience.
pub open spec fn token_request_view(
    token_url: Seq<char>,
    name: Seq<char>,
    client_secret: Seq<char>,
) -> wire::RequestView {
    wire::RequestView {
        method: Method::Post,
        url: token_url,
        header: None,
        body: wire::BodyView::Form(
            seq![
                ("grant_type"@, "client_credentials"@),
                ("client_id"@, "mcp-"@ + name),
                ("client_secret"@, client_secret),
                ("scope"@, "openid "@ + ("mcp-"@ + name)),
            ],
        ),
    }
}

/// The request for a fresh token.
pub fn token_request(token_url: &str, name: &str, client_secret: &str) -> (r: Request)
    ensures
        r@ == token_request_view(token_url@, name@, client_secret@),
{
    let client_id = text::labelled("mcp-", name);
    let scope = text::labelled("openid ", client_id.as_str());
    let mut form: Vec<(String, String)> = Vec::new();
    form.push(("grant_type".to_owned(), "client_credentials".to_owned()));
    form.push(("client_id".to_owned(), client_id));
    form.push(("client_secret".to_owned(), client_secret.to_owned()));
    form.push(("scope".to_owned(), scope));
    let r = Request {
        method: Method::Post,
        url: token_url.to_owned(),
        header: None,
        body: Body::Form(form),
    };
    assert(r@.body->Form_0 =~= seq![
        ("grant_type"@, "client_credentials"@),
        ("client_id"@, "mcp-"@ + name@),
        ("client_secret"@, client_secret@),
        ("scope"@, "openid "@ + ("mcp-"@ + name@)),
    ]);
    r
}

/// The token, from the answer to [`token_request`].
pub fn token_reply(ex: Exchange<String>) -> (r: Result<String, Failure>)
    ensures
        wire::outcome(r) == wire::answer(
            ex,
            "authentik token POST"@,
            "authentik token endpoint"@,
            "authentik token parse"@,
        ),
{
    wire::read_value(
        ex,
        "authentik token POST",
        "authentik token endpoint",
        "authentik token parse",
    )
}

/// What a rotation asks the program to do.
pub enum RotationAction {
    /// Read one field of a secret.
    ReadSecret { path: String, field: String },
    /// Ask for a token.
    RequestToken(Request),
    /// Write the file, in place of what it held.
    WriteConfig { path: String, content: String },
    /// Restart the claw.
    Restart { claw: String },
    /// The rotation is over.
    Finish,
    /// The rotation has failed.
    GiveUp(Failure),
}

/// What the program reports of an action.
pub enum RotationEvent {
    Secret(Result<String, Failure>),
    Token(Exchange<String>),
    Done(Result<(), Failure>),
}

/// What a rotation waits for.
#[derive(Clone, Copy, PartialEq, Eq, Structural)]
pub enum RotationStage {
    SecretRead,
    TokenFetched,
    FileWritten,
    Restarted,
    Over,
}

/// The rotation of one claw's bearer.
pub struct Rotation {
    pub name: String,
    pub state_dir: String,
    /// The claw's file, as it was read.
    pub content: String,
    pub placeholder: String,
    pub token_url: String,
    pub stage: RotationStage,
}

/// The events that answer the action of a stage.
pub open spec fn answers_rotation(stage: RotationStage, event: RotationEvent) -> bool {
    match stage {
        RotationStage::SecretRead => event is Secret,
        RotationStage::TokenFetched => event is Token,
        RotationStage::FileWritten | RotationStage::Restarted => event is Done,
        RotationStage::Over => false,
    }
}

/// The two are the same rotation, but for the stage.
pub open spec fn same_rotation(a: Rotation, b: Rotation) -> bool {
    &&& a.name == b.name
    &&& a.state_dir == b.state_dir
    &&& a.content == b.content
    &&& a.placeholder == b.placeholder
    &&& a.token_url == b.token_url
}

/// What a rotation goes on with after an event: it asks for a token with the
/// claw's secret, writes the file with the token, restarts the claw, and ends. A
/// failure ends it at once.
pub open spec fn goes_on(
    run: Rotation,
    event: RotationEvent,
    stage: RotationStage,
    action: RotationAction,
) -> bool {
    match event {
        RotationEvent::Secret(Ok(secret)) => {
            &&& stage == RotationStage::TokenFetched
            &&& action matches RotationAction::RequestToken(q) && q@ == token_request_view(
                run.token_url@,
                run.name@,
                secret@,
            )
        },
        RotationEvent::Secret(Err(f)) => {
            &&& stage == RotationStage::Over
            &&& action matches RotationAction::GiveUp(g) && g@ == failure::failure_under(
                f@,
                "bao read "@ + ("services/"@ + run.name@ + "/papehouse"@) + ".client_secret"@,
            )
        },
        RotationEvent::Token(ex) => match wire::answer(
            ex,
            "authentik token POST"@,
            "authentik token endpoint"@,
            "authentik token parse"@,
        ) {
            Ok(token) => {
                &&& stage == RotationStage::FileWritten
                &&& action matches RotationAction::WriteConfig { path, content } && path@
                    == config_file(run.state_dir@, run.name@) && is_rotated(
                    run.content@,
                    run.placeholder@,
                    token@,
                    content@,
                )
            },
            Err(f) => {
                &&& stage == RotationStage::Over
                &&& action matches RotationAction::GiveUp(g) && g@ == f
            },
        },
        RotationEvent::Done(Ok(_)) => if run.stage == RotationStage::FileWritten {
            &&& stage == RotationStage::Restarted
            &&& action matches RotationAction::Restart { claw } && claw@ == run.name@
        } else {
            stage == RotationStage::Over && action is Finish
        },
        RotationEvent::Done(Err(f)) => {
            &&& stage == RotationStage::Over
            &&& action matches RotationAction::GiveUp(g) && g@ == if run.stage
                == RotationStage::FileWritten {
                f@
            } else {
                failure::failure_under(f@, "restart claw"@)
            }
        },
    }
}

impl Rotation {
    /// Takes the rotation one step on: from what came of the last action to the
    /// next.
    pub fn step(&mut self, event: RotationEvent) -> (r: RotationAction)
        requires
            answers_rotation(old(self).stage, event),
        ensures
            same_rotation(*old(self), *final(self)),
            goes_on(*old(self), event, final(self).stage, r),
    {
        match event {
            RotationEvent::Secret(Ok(secret)) => {
                self.stage = RotationStage::TokenFetched;
                RotationAction::RequestToken(
                    token_request(self.token_url.as_str(), self.name.as_str(), secret.as_str()),
                )
            },
            RotationEvent::Secret(Err(f)) => {
                self.stage = RotationStage::Over;
                RotationAction::GiveUp(secret_unread(self.name.as_str(), f))
            },
            RotationEvent::Token(ex) => match token_reply(ex) {
                Ok(token) => {
                    self.stage = RotationStage::FileWritten;
                    RotationAction::WriteConfig {
                        path: config_path(self.state_dir.as_str(), self.name.as_str()),
                        content: rotated(
                            self.content.as_str(),
                            self.placeholder.as_str(),
                            token.as_str(),
                        ),
                    }
                },
                Err(f) => {
                    self.stage = RotationStage::Over;
                    RotationAction::GiveUp(f)
                },
            },
            RotationEvent::Done(Ok(_)) => {
                if self.stage == RotationStage::FileWritten {
                    self.stage = RotationStage::Restarted;
                    RotationAction::Restart { claw: self.name.clone() }
                } else {
                    self.stage = RotationStage::Over;
                    RotationAction::Finish
                }
            },
            RotationEvent::Done(Err(f)) => {
                let written = self.stage == RotationStage::FileWritten;
                self.stage = RotationStage::Over;
                if written {
                    RotationAction::GiveUp(f)
                } else {
                    RotationAction::GiveUp(f.under("restart claw".to_owned()))
                }
            },
        }
    }
}

/// Begins the rotation of a claw's bearer where it is due: nothing is asked for
/// where it is not.
pub fn begin_rotation(
    name: &str,
    state_dir: &str,
    content: String,
    placeholder: &str,
    token_url: &str,
    is_due: bool,
) -> (r: (Rotation, RotationAction))
    ensures
        r.0.name@ == name@,
        r.0.state_dir@ == state_dir@,
        r.0.content@ == content@,
        r.0.placeholder@ == placeholder@,
        r.0.token_url@ == token_url@,
        if is_due {
            &&& r.0.stage == RotationStage::SecretRead
            &&& r.1 matches RotationAction::ReadSecret { path, field } && path@ == "services/"@
                + name@ + "/papehouse"@ && field@ == "client_secret"@
        } else {
            r.0.stage == RotationStage::Over && r.1 is Finish
        },
{
    let action = if is_due {
        RotationAction::ReadSecret {
            path: client_secret_path(name),
            field: "client_secret".to_owned(),
        }
    } else {
        RotationAction::Finish
    };
    (
        Rotation {
            name: name.to_owned(),
            state_dir: state_dir.to_owned(),
            content,
            placeholder: placeholder.to_owned(),
            token_url: token_url.to_owned(),
            stage: if is_due {
                RotationStage::SecretRead
            } else {
                RotationStage::Over
            },
        },
        action,
    )
}

/// Looks at the file of a claw and begins the rotation of its bearer where it is
/// due now.
pub fn rotate_one(
    name: &str,
    state_dir: &str,
    content: String,
    placeholder: &str,
    token_url: &str,
    refresh_window_secs: u64,
) -> (r: (Rotation, RotationAction))
    ensures
        r.0.name@ == name@,
        r.0.state_dir@ == state_dir@,
        r.0.content@ == content@,
        r.0.placeholder@ == placeholder@,
        r.0.token_url@ == token_url@,
        due_in_file(
            content@,
            placeholder@,
            refresh_window_secs,
            r.0.stage == RotationStage::SecretRead,
        ),
        r.0.stage == RotationStage::SecretRead ==> (r.1 matches RotationAction::ReadSecret {
            path,
            field,
        } && path@ == "services/"@ + name@ + "/papehouse"@ && field@ == "client_secret"@),
        r.0.stage != RotationStage::SecretRead ==> r.0.stage == RotationStage::Over && r.1 is Finish,
{
    let is_due = file_is_due(content.as_str(), placeholder, refresh_window_secs);
    begin_rotation(name, state_dir, content, placeholder, token_url, is_due)
}

/// A claw is restarted only after its file was written, and its file is written
/// only with a token that the identity provider handed out.
pub proof fn law_restart_follows_a_written_token(
    run: Rotation,
    event: RotationEvent,
    stage: RotationStage,
    action: RotationAction,
)
    requires
        answers_rotation(run.stage, event),
        goes_on(run, event, stage, action),
    ensures
        action is Restart ==> run.stage == RotationStage::FileWritten && (
        event matches RotationEvent::Done(Ok(_))),
        action is WriteConfig ==> run.stage == RotationStage::TokenFetched && event is Token,
{
}

/// A rotation asks for a token with the secret that was read and under the name
/// that the tenant's provider was registered with, and sends both to the endpoint
/// that it was given and nowhere else.
pub proof fn law_token_is_asked_for_with_the_claws_credentials(
    run: Rotation,
    secret: String,
    stage: RotationStage,
    action: RotationAction,
)
    requires
        goes_on(run, RotationEvent::Secret(Ok(secret)), stage, action),
    ensures
        action matches RotationAction::RequestToken(q) && {
            &&& q@.url == run.token_url@
            &&& q@.method == Method::Post
            &&& q@.body matches wire::BodyView::Form(form) && {
                &&& form.len() == 4
                &&& form.contains(("client_secret"@, secret@))
                &&& form.contains(("client_id"@, "mcp-"@ + run.name@))
                &&& form.contains(("grant_type"@, "client_credentials"@))
                &&& form.contains(("scope"@, "openid mcp-"@ + run.name@))
            }
        },
        stage == RotationStage::TokenFetched,
{
    let form = action->RequestToken_0@.body->Form_0;
    assert(form[0] == ("grant_type"@, "client_credentials"@));
    assert(form[1] == ("client_id"@, "mcp-"@ + run.name@));
    assert(form[2] == ("client_secret"@, secret@));
    reveal_strlit("openid ");
    reveal_strlit("mcp-");
    reveal_strlit("openid mcp-");
    assert("openid mcp-"@ =~= "openid "@ + "mcp-"@);
    assert("openid mcp-"@ + run.name@ =~= "openid "@ + ("mcp-"@ + run.name@));
    assert(form[3] == ("scope"@, "openid mcp-"@ + run.name@));
}

/// A token that the identity provider hands out is written into the claw's own
/// file; where it hands out none, nothing is written and the rotation fails.
pub proof fn law_handed_out_token_is_written(
    run: Rotation,
    status: u16,
    status_line: String,
    text: String,
    value: Result<String, String>,
    stage: RotationStage,
    action: RotationAction,
)
    requires
        goes_on(
            run,
            RotationEvent::Token(Exchange::Answered { status, status_line, text, value }),
            stage,
            action,
        ),
    ensures
        200 <= status < 300 && value is Ok ==> (action matches RotationAction::WriteConfig {
            path,
            content,
        } && is_rotated(run.content@, run.placeholder@, value->Ok_0@, content@) && path@
            == paths::joined(
            paths::joined(paths::joined(run.state_dir@, run.name@), "config"@),
            "config.toml"@,
        )),
        !(200 <= status < 300 && value is Ok) ==> action is GiveUp && stage == RotationStage::Over,
{
}

/// A claw is restarted under its own name once its file is written, and the
/// rotation ends well only once it is restarted.
pub proof fn law_written_token_is_followed_by_a_restart(
    run: Rotation,
    done: Result<(), Failure>,
    stage: RotationStage,
    action: RotationAction,
)
    requires
        answers_rotation(run.stage, RotationEvent::Done(done)),
        goes_on(run, RotationEvent::Done(done), stage, action),
    ensures
        done is Err ==> action is GiveUp,
        done is Ok && run.stage == RotationStage::FileWritten ==> (
        action matches RotationAction::Restart { claw } && claw@ == run.name@) && stage
            == RotationStage::Restarted,
        done is Ok && run.stage == RotationStage::Restarted ==> action is Finish,
{
}

/// A rotation that fails tells where: at the secret that it read, at the token endpoint,
/// at the file, or at the restart, with the whole chain behind it.
pub proof fn law_failed_rotation_tells_where(
    run: Rotation,
    f: Failure,
    cause: String,
    event: RotationEvent,
    stage: RotationStage,
    g: Failure,
)
    requires
        answers_rotation(run.stage, event),
        event == RotationEvent::Secret(Err(f)) || event == RotationEvent::Token(
            Exchange::Unsent(cause),
        ) || event == RotationEvent::Done(Err(f)),
        goes_on(run, event, stage, RotationAction::GiveUp(g)),
    ensures
        stage == RotationStage::Over,
        event is Secret ==> g@.message == "bao read services/"@ + run.name@
            + "/papehouse.client_secret"@ && g@.causes == seq![f@.message] + f@.causes,
        event is Token ==> g@.message == "authentik token POST"@ && g@.causes == seq![cause@],
        event is Done && run.stage == RotationStage::FileWritten ==> g@ == f@,
        event is Done && run.stage == RotationStage::Restarted ==> g@.message == "restart claw"@
            && g@.causes == seq![f@.message] + f@.causes,
{
    reveal_strlit("bao read services/");
    reveal_strlit("bao read ");
    reveal_strlit("services/");
    reveal_strlit("/papehouse.client_secret");
    reveal_strlit("/papehouse");
    reveal_strlit(".client_secret");
    assert("bao read services/"@ =~= "bao read "@ + "services/"@);
    assert("/papehouse.client_secret"@ =~= "/papehouse"@ + ".client_secret"@);
    assert("bao read services/"@ + run.name@ + "/papehouse.client_secret"@ =~= "bao read "@ + (
    "services/"@ + run.name@ + "/papehouse"@) + ".client_secret"@);
}

/// A rotation begins by reading the secret under which the tenant's provider was
/// stored when it was provisioned, and it keeps in mind what it was begun with.
pub proof fn law_rotation_reads_the_stored_secret(
    name: &str,
    state_dir: &str,
    content: String,
    placeholder: &str,
    token_url: &str,
    refresh_window_secs: u64,
    r: (Rotation, RotationAction),
)
    requires
        call_ensures(
            rotate_one,
            (name, state_dir, content, placeholder, token_url, refresh_window_secs),
            r,
        ),
    ensures
        r.1 is ReadSecret || r.1 is Finish,
        r.1 matches RotationAction::ReadSecret { path, field } ==> path@
            == crate::provision::secret_path("services"@, name@, "/papehouse"@) && field@
            == "client_secret"@ && r.0.stage == RotationStage::SecretRead,
        due_in_file(content@, placeholder@, refresh_window_secs, r.1 is ReadSecret),
        r.0.name@ == name@ && r.0.state_dir@ == state_dir@ && r.0.content@ == content@,
        r.0.placeholder@ == placeholder@ && r.0.token_url@ == token_url@,
{
    reveal_strlit("services/");
    reveal_strlit("services");
    reveal_strlit("/");
    assert("services/"@ =~= "services"@ + "/"@);
}

/// How often bearers are looked at: as often as asked for, but not more than
/// once a minute.
pub fn poll_interval(asked_secs: u64) -> (r: u64)
    ensures
        r >= 60,
        r >= asked_secs,
        r == 60 || r == asked_secs,
{
    if asked_secs < 60 {
        60
    } else {
        asked_secs
    }
}

} // verus!
