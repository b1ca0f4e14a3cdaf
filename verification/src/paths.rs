//! Unix path components and the two path operations the library relies on:
//! component-wise prefix tests and joining a relative path onto a base.

use vstd::prelude::*;

verus! {

/// A part of a path between separators counts as a component unless it is
/// empty or `.`.
pub open spec fn keep_part(part: Seq<char>) -> Seq<Seq<char>> {
    if part.len() == 0 || part == seq!['.'] {
        Seq::empty()
    } else {
        seq![part]
    }
}

/// The normal components of `p` read from its start, `cur` being the part
/// read so far: `p` split on `/`, without empty and `.` parts.
pub open spec fn parts_from(p: Seq<char>, cur: Seq<char>) -> Seq<Seq<char>>
    decreases p.len(),
{
    if p.len() == 0 {
        keep_part(cur)
    } else if p[0] == '/' {
        keep_part(cur) + parts_from(p.drop_first(), Seq::empty())
    } else {
        parts_from(p.drop_first(), cur.push(p[0]))
    }
}

/// The component before the normal ones: the root directory (written `/`)
/// for an absolute path, the current directory (written `.`) for a relative
/// path that begins with `./` or is `.`, and nothing otherwise.
pub open spec fn leading_component(p: Seq<char>) -> Seq<Seq<char>> {
    if p.len() > 0 && p[0] == '/' {
        seq![seq!['/']]
    } else if p == seq!['.'] || (p.len() >= 2 && p[0] == '.' && p[1] == '/') {
        seq![seq!['.']]
    } else {
        Seq::empty()
    }
}

/// The components of the Unix path `p`, as `Path::components` yields them:
/// repeated separators, a trailing separator and `.` parts other than a
/// leading one are normalized away.
pub open spec fn components(p: Seq<char>) -> Seq<Seq<char>> {
    leading_component(p) + parts_from(p, Seq::empty())
}

/// `path` starts with all the components of `base`, as `Path::starts_with`
/// decides (whole components only).
pub open spec fn path_starts_with_spec(path: Seq<char>, base: Seq<char>) -> bool {
    let c = components(path);
    let b = components(base);
    &&& b.len() <= c.len()
    &&& c.take(b.len() as int) == b
}

/// `Path::starts_with`: whether `base` is a prefix of `path`, comparing
/// whole components on the Unix path syntax. The contract claims that the
/// answer is exactly `path_starts_with_spec`, the component prefix test that
/// the documentation of `Path::starts_with` and `Path::components` describes.
#[verifier::external_body]
pub fn path_starts_with(path: &str, base: &str) -> (r: bool)
    ensures
        r == path_starts_with_spec(path@, base@),
{
    std::path::Path::new(path).starts_with(base)
}

/// `base` joined with the relative or absolute path `rest`, as `Path::join`
/// builds it on Unix: an absolute `rest` replaces `base`, and a separator is
/// put between them only where `base` is non-empty and does not already end
/// with one.
pub open spec fn join_spec(base: Seq<char>, rest: Seq<char>) -> Seq<char> {
    if rest.len() > 0 && rest[0] == '/' {
        rest
    } else if base.len() == 0 || base.last() == '/' {
        base + rest
    } else {
        base + seq!['/'] + rest
    }
}

/// Joins `rest` onto `base` as `join_spec` states.
pub fn join(base: &str, rest: &[char]) -> (r: String)
    ensures
        r@ == join_spec(base@, rest@),
{
    let b = crate::text::chars_of(base);
    if rest.len() > 0 && rest[0] == '/' {
        return crate::text::string_of(rest, 0, rest.len());
    }
    let mut out = crate::text::string_of(&b, 0, b.len());
    assert(b@.subrange(0, b@.len() as int) =~= b@);
    if b.len() > 0 && b[b.len() - 1] != '/' {
        crate::text::push_char(&mut out, '/');
    }
    let mut i: usize = 0;
    let ghost start = out@;
    while i < rest.len()
        invariant
            i <= rest@.len(),
            out@ == start + rest@.take(i as int),
        decreases rest.len() - i,
    {
        crate::text::push_char(&mut out, rest[i]);
        assert(rest@.take(i + 1) =~= rest@.take(i as int).push(rest@[i as int]));
        i = i + 1;
    }
    assert(rest@.take(rest@.len() as int) =~= rest@);
    proof {
        if !(b@.len() == 0 || b@.last() == '/') {
            assert(start == base@ + seq!['/']);
        }
    }
    out
}

} // verus!
