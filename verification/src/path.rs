//! File paths as text, with `/` between their components.

use vstd::prelude::*;

use crate::selection::{choosing_goes_item_by_item, chosen, nothing_is_chosen_from_nothing};
use crate::text::{chars_of, concat2, concat3, same, split, split_on, texts};

verus! {

/// `b` below `a`: `b` itself where it is absolute, else `a`, a slash where `a` needs one,
/// and `b`.
pub open spec fn join_path(a: Seq<char>, b: Seq<char>) -> Seq<char> {
    if b.len() > 0 && b[0] == '/' {
        b
    } else if a.len() == 0 || a.last() == '/' {
        a + b
    } else {
        a + "/"@ + b
    }
}

/// `b` below `a`.
pub fn joined_path(a: &str, b: &str) -> (r: String)
    ensures
        r@ == join_path(a@, b@),
{
    let x = chars_of(a);
    let y = chars_of(b);
    if y.len() > 0 && y[0] == '/' {
        b.to_owned()
    } else if x.len() == 0 || x[x.len() - 1] == '/' {
        concat2(a, b)
    } else {
        concat3(a, "/", b)
    }
}

/// The pieces of a path that name something: neither empty nor `.`.
pub open spec fn named_parts(pieces: Seq<Seq<char>>) -> Seq<Seq<char>>
    decreases pieces.len(),
{
    if pieces.len() == 0 {
        Seq::empty()
    } else if pieces.last().len() == 0 || pieces.last() == "."@ {
        named_parts(pieces.drop_last())
    } else {
        named_parts(pieces.drop_last()).push(pieces.last())
    }
}

pub open spec fn parts(path: Seq<char>) -> Seq<Seq<char>> {
    named_parts(split(path, '/'))
}

/// The last part of a path, where it is a name.
pub open spec fn file_name(path: Seq<char>) -> Option<Seq<char>> {
    let p = parts(path);
    if p.len() == 0 || p.last() == ".."@ {
        None
    } else {
        Some(p.last())
    }
}

/// The part before the last one, where it is a name.
pub open spec fn parent_name(path: Seq<char>) -> Option<Seq<char>> {
    let p = parts(path);
    if p.len() < 2 || p[p.len() - 2] == ".."@ {
        None
    } else {
        Some(p[p.len() - 2])
    }
}

/// Something stands above the path: it is neither empty nor the root.
pub open spec fn has_parent(path: Seq<char>) -> bool {
    parts(path).len() > 0 || split(path, '/')[0] == "."@
}

/// The parts of a path, and whether something stands above it.
pub fn path_parts(path: &str) -> (r: (Vec<String>, bool))
    ensures
        texts(r.0@) == parts(path@),
        r.1 == has_parent(path@),
{
    let pieces = split_on(path, '/');
    let ghost all = split(path@, '/');
    proof {
        assert(texts(pieces@)[0] == pieces@[0]@);
    }
    let here = same(pieces[0].as_str(), ".");
    let mut r: Vec<String> = Vec::new();
    let mut i: usize = 0;
    assert(texts(r@) =~= named_parts(all.take(0)));
    while i < pieces.len()
        invariant
            i <= pieces.len(),
            all == texts(pieces@),
            texts(r@) == named_parts(all.take(i as int)),
        decreases pieces.len() - i,
    {
        proof {
            assert(all.take(i + 1).drop_last() =~= all.take(i as int));
            assert(all.take(i + 1).last() == pieces@[i as int]@);
        }
        if !(pieces[i].as_str().is_empty() || same(pieces[i].as_str(), ".")) {
            let ghost before = texts(r@);
            r.push(pieces[i].clone());
            assert(texts(r@) =~= before.push(pieces@[i as int]@));
        }
        i += 1;
    }
    assert(all.take(i as int) =~= all);
    let above = r.len() > 0 || here;
    (r, above)
}

/// The last part of a path, where it is a name.
pub fn name_of_file(path: &str) -> (r: Option<String>)
    ensures
        crate::text::opt(r) == file_name(path@),
{
    let (p, _) = path_parts(path);
    if p.len() == 0 {
        return None;
    }
    let last = p.len() - 1;
    assert(texts(p@)[last as int] == p@[last as int]@);
    if same(p[last].as_str(), "..") {
        None
    } else {
        Some(p[last].clone())
    }
}

/// The part before the last one, where it is a name.
pub fn name_of_parent(path: &str) -> (r: Option<String>)
    ensures
        crate::text::opt(r) == parent_name(path@),
{
    let (p, _) = path_parts(path);
    if p.len() < 2 {
        return None;
    }
    let at = p.len() - 2;
    assert(texts(p@)[at as int] == p@[at as int]@);
    if same(p[at].as_str(), "..") {
        None
    } else {
        Some(p[at].clone())
    }
}

/// The path starts at the root.
pub open spec fn is_absolute(path: Seq<char>) -> bool {
    path.len() > 0 && path[0] == '/'
}

/// Two names below one directory are the same only where they read the same.
pub proof fn joining_keeps_names_apart(dir: Seq<char>, a: Seq<char>, b: Seq<char>)
    requires
        !is_absolute(a),
        !is_absolute(b),
        join_path(dir, a) == join_path(dir, b),
    ensures
        a == b,
{
    reveal_strlit("/");
    let k = join_path(dir, a).len() - a.len();
    assert(join_path(dir, a).skip(k) =~= a);
    assert(join_path(dir, b).skip(k) =~= b);
}

/// One name below two directories gives two paths.
pub proof fn joining_keeps_directories_apart(a: Seq<char>, b: Seq<char>, name: Seq<char>)
    requires
        !is_absolute(name),
        a.len() > 0 && a.last() != '/',
        b.len() > 0 && b.last() != '/',
        join_path(a, name) == join_path(b, name),
    ensures
        a == b,
{
    reveal_strlit("/");
    let k = join_path(a, name).len() - name.len() - 1;
    assert(join_path(a, name).take(k) =~= a);
    assert(join_path(b, name).take(k) =~= b);
}

/// One name below two directories that differ in their last name gives two paths.
pub proof fn joining_keeps_directories_apart_by_name(
    base: Seq<char>,
    a: Seq<char>,
    b: Seq<char>,
    name: Seq<char>,
)
    requires
        !is_absolute(a) && !is_absolute(b) && !is_absolute(name),
        a.len() > 0 && a.last() != '/',
        b.len() > 0 && b.last() != '/',
        a != b,
    ensures
        join_path(join_path(base, a), name) != join_path(join_path(base, b), name),
{
    reveal_strlit("/");
    assert(join_path(base, a).last() == a.last());
    assert(join_path(base, b).last() == b.last());
    if join_path(join_path(base, a), name) == join_path(join_path(base, b), name) {
        joining_keeps_directories_apart(join_path(base, a), join_path(base, b), name);
        joining_keeps_names_apart(base, a, b);
    }
}

/// A name below a directory is behind it, with one slash between them; an absolute path stays
/// what it is.
pub proof fn names_stand_behind_their_directory(dir: Seq<char>, name: Seq<char>)
    ensures
        is_absolute(name) ==> join_path(dir, name) == name,
        !is_absolute(name) && dir.len() > 0 && dir.last() != '/' ==> join_path(dir, name) == dir
            + seq!['/'] + name,
        !is_absolute(name) && (dir.len() == 0 || dir.last() == '/') ==> join_path(dir, name) == dir
            + name,
        is_absolute(name) <==> name.len() > 0 && name[0] == '/',
{
    reveal_strlit("/");
    assert("/"@ =~= seq!['/']);
}

/// The parts of a path are its pieces that are neither empty nor a single dot, in their order.
pub proof fn parts_are_the_pieces_that_name_something(pieces: Seq<Seq<char>>)
    ensures
        chosen(pieces, |piece: Seq<char>| piece.len() > 0 && piece != "."@, named_parts(pieces)),
    decreases pieces.len(),
{
    let wanted = |piece: Seq<char>| piece.len() > 0 && piece != "."@;
    if pieces.len() == 0 {
        nothing_is_chosen_from_nothing(wanted);
        assert(pieces =~= Seq::<Seq<char>>::empty());
        assert(named_parts(pieces) =~= Seq::<Seq<char>>::empty());
    } else {
        let init = pieces.drop_last();
        parts_are_the_pieces_that_name_something(init);
        assert(pieces =~= init.push(pieces.last()));
        choosing_goes_item_by_item(init, pieces.last(), wanted, named_parts(init));
    }
}

/// A file is named by the last part of its path, and the directory above it by the part before
/// that; neither is where that part leads upwards.
pub proof fn files_are_named_by_their_last_part(path: Seq<char>)
    ensures
        parts(path) == named_parts(split(path, '/')),
        parts(path).len() == 0 ==> file_name(path) is None,
        parts(path).len() > 0 && parts(path).last() == ".."@ ==> file_name(path) is None,
        parts(path).len() > 0 && parts(path).last() != ".."@ ==> file_name(path) == Some(
            parts(path).last(),
        ),
        parts(path).len() < 2 ==> parent_name(path) is None,
        parts(path).len() >= 2 && parts(path)[parts(path).len() - 2] == ".."@ ==> parent_name(
            path,
        ) is None,
        parts(path).len() >= 2 && parts(path)[parts(path).len() - 2] != ".."@ ==> parent_name(path)
            == Some(parts(path)[parts(path).len() - 2]),
        parts(path).len() > 0 ==> has_parent(path),
        parts(path).len() == 0 ==> (has_parent(path) <==> split(path, '/')[0] == "."@),
{
}

} // verus!
