//! Unix path text: pieces between separators, named components and file
//! names, as `std::path::Path` reads them.

use vstd::prelude::*;

use crate::text::{
    chars_of, first_index, lemma_count_first, str_eq, string_from_chars, string_views, sub_vec,
};

verus! {

/// The pieces of a path between `/` separators (empty pieces included).
pub open spec fn split_pieces(s: Seq<char>) -> Seq<Seq<char>>
    decreases s.len(),
{
    let k = first_index(s, '/');
    if k >= s.len() {
        seq![s]
    } else {
        proof {
            lemma_count_first(s, '/');
        }
        seq![s.subrange(0, k)] + split_pieces(s.subrange(k + 1, s.len() as int))
    }
}

/// The named components of a path: its pieces without empty ones and `.`.
pub open spec fn normal_pieces(pieces: Seq<Seq<char>>) -> Seq<Seq<char>>
    decreases pieces.len(),
{
    if pieces.len() == 0 {
        Seq::empty()
    } else {
        let rest = normal_pieces(pieces.drop_last());
        let p = pieces.last();
        if p.len() == 0 || p == "."@ {
            rest
        } else {
            rest.push(p)
        }
    }
}

/// Splits a path at every `/`.
pub fn path_pieces(p: &str) -> (r: Vec<String>)
    ensures
        string_views(r@) == split_pieces(p@),
{
    let chars = chars_of(p);
    let mut r: Vec<String> = Vec::new();
    let mut start: usize = 0;
    assert(p@.subrange(0, p@.len() as int) =~= p@);
    loop
        invariant
            chars@ == p@,
            start <= chars@.len(),
            string_views(r@) + split_pieces(p@.subrange(start as int, p@.len() as int))
                == split_pieces(p@),
        decreases chars@.len() - start,
    {
        let ghost rest = p@.subrange(start as int, p@.len() as int);
        let mut j = start;
        while j < chars.len() && chars[j] != '/'
            invariant
                chars@ == p@,
                start <= j <= chars@.len(),
                forall|q: int| start <= q < j ==> p@[q] != '/',
            decreases chars@.len() - j,
        {
            j = j + 1;
        }
        proof {
            lemma_count_first(rest, '/');
            assert forall|q: int| 0 <= q < j - start implies rest[q] != '/' by {
                assert(rest[q] == p@[start + q]);
            }
            if j < chars.len() {
                assert(rest[j - start] == '/');
            }
            if first_index(rest, '/') < j - start {
                assert(rest[first_index(rest, '/')] == '/');
            }
            assert(first_index(rest, '/') == j - start);
        }
        let piece_chars = sub_vec(&chars, start, j);
        let piece = string_from_chars(&piece_chars);
        let ghost before = string_views(r@);
        r.push(piece);
        assert(string_views(r@) =~= before.push(piece@));
        assert(rest.subrange(0, j - start) =~= piece@);
        if j == chars.len() {
            assert(split_pieces(rest) =~= seq![rest]);
            assert(rest =~= piece@);
            assert(string_views(r@) =~= before + split_pieces(rest));
            return r;
        }
        assert(rest.subrange(j - start + 1, rest.len() as int) =~= p@.subrange(
            j + 1,
            p@.len() as int,
        ));
        assert(before + split_pieces(rest) =~= string_views(r@) + split_pieces(
            p@.subrange(j + 1, p@.len() as int),
        ));
        start = j + 1;
    }
}

/// The named components of a path.
pub fn named_components(p: &str) -> (r: Vec<String>)
    ensures
        string_views(r@) == normal_pieces(split_pieces(p@)),
{
    let pieces = path_pieces(p);
    let ghost all = split_pieces(p@);
    let mut r: Vec<String> = Vec::new();
    let mut i: usize = 0;
    assert(all.subrange(0, 0) =~= Seq::<Seq<char>>::empty());
    while i < pieces.len()
        invariant
            i <= pieces@.len(),
            string_views(pieces@) == all,
            string_views(r@) == normal_pieces(all.subrange(0, i as int)),
        decreases pieces@.len() - i,
    {
        assert(all.subrange(0, i + 1).drop_last() =~= all.subrange(0, i as int));
        assert(all.subrange(0, i + 1).last() == pieces@[i as int]@);
        let piece = pieces[i].as_str();
        if piece.unicode_len() > 0 && !str_eq(piece, ".") {
            let ghost before = string_views(r@);
            r.push(pieces[i].clone());
            assert(string_views(r@) =~= before.push(piece@));
        }
        i = i + 1;
    }
    assert(all.subrange(0, pieces@.len() as int) =~= all);
    r
}

/// The file name of a path: its last named component, unless that is `..`.
pub open spec fn file_name_spec(path: Seq<char>) -> Option<Seq<char>> {
    let comps = normal_pieces(split_pieces(path));
    if comps.len() == 0 || comps.last() == ".."@ {
        None
    } else {
        Some(comps.last())
    }
}

/// The file name of a path (`Path::file_name`).
pub fn file_name(path: &str) -> (r: Option<String>)
    ensures
        crate::structured_event::opt_view(r) == file_name_spec(path@),
{
    let comps = named_components(path);
    let ghost views = string_views(comps@);
    if comps.len() == 0 {
        return None;
    }
    let last = comps[comps.len() - 1].as_str();
    assert(views.last() == last@);
    if str_eq(last, "..") {
        return None;
    }
    Some(last.to_owned())
}

/// The file name shown in messages: the path's file name, or `<unknown>`.
pub open spec fn display_filename_spec(path: Seq<char>) -> Seq<char> {
    match file_name_spec(path) {
        Some(n) => n,
        None => "<unknown>"@,
    }
}

/// The file name shown in messages: the path's file name, or `<unknown>`.
pub fn display_filename(path: &str) -> (r: String)
    ensures
        r@ == display_filename_spec(path@),
{
    match file_name(path) {
        Some(n) => n,
        None => String::from_str("<unknown>"),
    }
}

} // verus!
