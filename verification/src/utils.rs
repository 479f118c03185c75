//! Identifier helpers.
use crate::text::{
    chars_of, concat, join, join_exec, slice_exec, split_exec, split_on, string_of, upper, upper_char,
    upper_exec,
};
use vstd::prelude::*;

verus! {

/// The word with its first char raised to upper case (ASCII letters only).
pub open spec fn capitalize(p: Seq<char>) -> Seq<char> {
    if p.len() == 0 {
        p
    } else {
        seq![upper_char(p[0])] + p.skip(1)
    }
}

/// `snake_case` to `PascalCase`: the pieces between separators, each
/// capitalised, concatenated; an empty separator leaves one piece.
pub open spec fn pascal(s: Seq<char>, sep: Seq<char>) -> Seq<char> {
    if sep.len() == 0 {
        capitalize(s)
    } else {
        join(split_on(s, sep).map_values(|p: Seq<char>| capitalize(p)), seq![])
    }
}

fn capitalize_exec(p: &[char]) -> (r: Vec<char>)
    ensures
        r@ == capitalize(p@),
{
    if p.len() == 0 {
        return Vec::new();
    }
    let first = upper_exec(&[p[0]]);
    let rest = slice_exec(p, 1, p.len());
    let r = concat(&first, &rest);
    assert(upper(seq![p@[0]]) =~= seq![upper_char(p@[0])]);
    assert(r@ =~= capitalize(p@));
    r
}

/// Converts `snake_case` (pieces separated by `sep`) to `PascalCase`.
pub fn snake_to_pascal(s: &str, sep: &str) -> (r: String)
    ensures
        r@ == pascal(s@, sep@),
{
    let sc = chars_of(s);
    let sp = chars_of(sep);
    if sp.len() == 0 {
        let c = capitalize_exec(&sc);
        return string_of(&c);
    }
    let pieces = split_exec(&sc, &sp);
    let ghost views = pieces@.map_values(|v: Vec<char>| v@);
    let mut caps: Vec<Vec<char>> = Vec::new();
    let mut i: usize = 0;
    while i < pieces.len()
        invariant
            i <= pieces@.len(),
            views == pieces@.map_values(|v: Vec<char>| v@),
            caps@.map_values(|v: Vec<char>| v@) == views.take(i as int).map_values(
                |p: Seq<char>| capitalize(p),
            ),
        decreases pieces.len() - i,
    {
        let c = capitalize_exec(&pieces[i]);
        let ghost before = caps@.map_values(|v: Vec<char>| v@);
        caps.push(c);
        assert(caps@.map_values(|v: Vec<char>| v@) =~= before.push(c@));
        assert(views[i as int] == pieces@[i as int]@);
        assert(views.take(i + 1).map_values(|p: Seq<char>| capitalize(p)) =~= views.take(
            i as int,
        ).map_values(|p: Seq<char>| capitalize(p)).push(capitalize(views[i as int])));
        i = i + 1;
    }
    assert(views.take(pieces@.len() as int) =~= views);
    let empty: Vec<char> = Vec::new();
    let joined = join_exec(&caps, &empty);
    assert(empty@ =~= Seq::<char>::empty());
    string_of(&joined)
}

} // verus!
