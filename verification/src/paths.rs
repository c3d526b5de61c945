//! File paths, in Unix notation.

use vstd::prelude::*;
use vstd::string::*;
use crate::text;

verus! {

/// `part` seen from `base`: an absolute part stands for itself, any other is put
/// behind the base, after one slash.
pub open spec fn joined(base: Seq<char>, part: Seq<char>) -> Seq<char> {
    if part.len() > 0 && part[0] == '/' {
        part
    } else if base.len() == 0 || base.last() == '/' {
        base + part
    } else {
        base + seq!['/'] + part
    }
}

/// Joins two paths.
pub fn join(base: &str, part: &str) -> (r: String)
    ensures
        r@ == joined(base@, part@),
{
    let p = text::chars_of(part);
    let b = text::chars_of(base);
    if p.len() > 0 && p[0] == '/' {
        return part.to_owned();
    }
    let mut out = base.to_owned();
    if b.len() > 0 && b[b.len() - 1] != '/' {
        out.push('/');
        assert(out@ =~= base@ + seq!['/']);
    }
    out.append(part);
    out
}

/// An absolute part stands for itself; any other is put behind the base, with exactly
/// one slash in between: the base's own, where it ends with one. An empty base adds
/// nothing.
pub proof fn law_parts_are_put_behind_the_base(base: &str, part: &str, r: String)
    requires
        call_ensures(join, (base, part), r),
    ensures
        part@.len() > 0 && part@[0] == '/' ==> r@ == part@,
        !(part@.len() > 0 && part@[0] == '/') ==> base@.is_prefix_of(r@) && part@ == r@.skip(
            r@.len() - part@.len(),
        ),
        !(part@.len() > 0 && part@[0] == '/') && base@.len() > 0 && base@.last() != '/' ==> r@
            == base@ + "/"@ + part@,
        !(part@.len() > 0 && part@[0] == '/') && base@.len() > 0 && base@.last() == '/' ==> r@
            == base@ + part@,
        !(part@.len() > 0 && part@[0] == '/') && base@.len() == 0 ==> r@ == part@,
{
    reveal_strlit("/");
    assert("/"@ =~= seq!['/']);
    if !(part@.len() > 0 && part@[0] == '/') {
        assert(part@ =~= r@.skip(r@.len() - part@.len()));
        assert(base@ =~= r@.take(base@.len() as int));
    }
}

} // verus!
