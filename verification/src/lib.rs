//! Renders machine-readable descriptions of a crate's public declarations
//! back into canonical Rust declaration syntax, and assembles that text into
//! a Markdown document through an escaping, link-preserving writer.

pub mod escape;
pub mod model;
pub mod render;
pub mod format;
pub mod writer;

use vstd::prelude::*;

verus! {

/// Joins already-rendered parts with a separator; an empty list yields the
/// empty string and a single part is returned unchanged.
pub open spec fn spec_join(parts: Seq<Seq<char>>, sep: Seq<char>) -> Seq<char>
    decreases parts.len(),
{
    if parts.len() == 0 {
        Seq::empty()
    } else if parts.len() == 1 {
        parts[0]
    } else {
        parts[0] + sep + spec_join(parts.drop_first(), sep)
    }
}

pub proof fn lemma_join_snoc(parts: Seq<Seq<char>>, p: Seq<char>, sep: Seq<char>)
    ensures
        spec_join(parts.push(p), sep) == if parts.len() == 0 {
            p
        } else {
            spec_join(parts, sep) + sep + p
        },
    decreases parts.len(),
{
    if parts.len() == 0 {
        assert(parts.push(p)[0] == p);
    } else if parts.len() == 1 {
        assert(parts.push(p).drop_first() =~= seq![p]);
        assert(spec_join(seq![p], sep) == p);
        assert(parts.push(p)[0] == parts[0]);
    } else {
        assert(parts.push(p).drop_first() =~= parts.drop_first().push(p));
        assert(parts.push(p)[0] == parts[0]);
        lemma_join_snoc(parts.drop_first(), p, sep);
        assert(parts[0] + sep + (spec_join(parts.drop_first(), sep) + sep + p) =~= ((parts[0] + sep
            + spec_join(parts.drop_first(), sep)) + sep) + p);
    }
}

} // verus!
