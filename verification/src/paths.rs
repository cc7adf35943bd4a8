//! Paths as texts whose components are separated by `/`, as Unix writes them. The drives, prefixes
//! and other separators of Windows are not known here.
//!
//! Two paths are the same when their components are: repeated separators, a separator at the end
//! and a `.` anywhere but at the start do not count.

use vstd::prelude::*;
use vstd::string::*;

use crate::text::{lemma_split_nonempty, same_text, split, split_on};

verus! {

/// One component of a path.
pub enum PathPart {
    /// The `/` at the start of an absolute path.
    Root,
    /// A `.` at the start of a relative path.
    Current,
    /// A `..`.
    Parent,
    /// A name.
    Normal(String),
}

/// A component of a path, in specifications.
pub enum Part {
    Root,
    Current,
    Parent,
    Normal(Seq<char>),
}

impl DeepView for PathPart {
    type V = Part;

    open spec fn deep_view(&self) -> Part {
        match self {
            PathPart::Root => Part::Root,
            PathPart::Current => Part::Current,
            PathPart::Parent => Part::Parent,
            PathPart::Normal(name) => Part::Normal(name@),
        }
    }
}

/// The path starts at the root.
pub open spec fn is_absolute_path(path: Seq<char>) -> bool {
    path.len() > 0 && path[0] == '/'
}

/// The component that the text between two separators stands for, if any.
pub open spec fn piece_parts(piece: Seq<char>, leading: bool) -> Seq<Part> {
    if piece.len() == 0 {
        Seq::empty()
    } else if piece == seq!['.'] {
        if leading {
            seq![Part::Current]
        } else {
            Seq::empty()
        }
    } else if piece == seq!['.', '.'] {
        seq![Part::Parent]
    } else {
        seq![Part::Normal(piece)]
    }
}

/// The components that the pieces of a path stand for; a `.` counts only as the first piece, and
/// only where `relative` holds.
pub open spec fn pieces_parts(pieces: Seq<Seq<char>>, relative: bool) -> Seq<Part>
    decreases pieces.len(),
{
    if pieces.len() == 0 {
        Seq::empty()
    } else {
        pieces_parts(pieces.drop_last(), relative) + piece_parts(
            pieces.last(),
            relative && pieces.len() == 1,
        )
    }
}

/// The components of a path.
pub open spec fn path_parts(path: Seq<char>) -> Seq<Part> {
    if is_absolute_path(path) {
        seq![Part::Root] + pieces_parts(split(path, '/'), false)
    } else {
        pieces_parts(split(path, '/'), true)
    }
}

/// The two texts name the same path.
pub open spec fn is_same_path(a: Seq<char>, b: Seq<char>) -> bool {
    path_parts(a) == path_parts(b)
}

/// The components of `base` are the first components of `path`.
pub open spec fn path_starts_with(path: Seq<char>, base: Seq<char>) -> bool {
    let inner = path_parts(path);
    let outer = path_parts(base);
    outer.len() <= inner.len() && inner.take(outer.len() as int) == outer
}

/// `path` seen from `base`: an absolute `path` stands for itself.
pub open spec fn joined_path(base: Seq<char>, path: Seq<char>) -> Seq<char> {
    if is_absolute_path(path) {
        path
    } else if base.len() > 0 && base.last() != '/' {
        base + seq!['/'] + path
    } else {
        base + path
    }
}

/// The text of one component.
pub open spec fn part_text(part: Part) -> Seq<char> {
    match part {
        Part::Root => seq!['/'],
        Part::Current => seq!['.'],
        Part::Parent => seq!['.', '.'],
        Part::Normal(name) => name,
    }
}

/// The shortest text with the given components.
pub open spec fn rendered_path(parts: Seq<Part>) -> Seq<char>
    decreases parts.len(),
{
    if parts.len() == 0 {
        Seq::empty()
    } else {
        joined_path(rendered_path(parts.drop_last()), part_text(parts.last()))
    }
}

/// What is left of `path` behind `base`.
pub open spec fn path_below(path: Seq<char>, base: Seq<char>) -> Option<Seq<Part>> {
    if path_starts_with(path, base) {
        Some(path_parts(path).skip(path_parts(base).len() as int))
    } else {
        None
    }
}

/// The path without its last component; the root and the empty path have no parent.
pub open spec fn parent_of(path: Seq<char>) -> Option<Seq<char>> {
    let parts = path_parts(path);
    if parts.len() == 0 || parts.last() is Root {
        None
    } else {
        Some(rendered_path(parts.drop_last()))
    }
}

/// The last component of the path, where it is a name.
pub open spec fn file_name_of(path: Seq<char>) -> Option<Seq<char>> {
    let parts = path_parts(path);
    if parts.len() == 0 {
        None
    } else {
        match parts.last() {
            Part::Normal(name) => Some(name),
            _ => None,
        }
    }
}

/// Whether `path` starts at the root.
pub fn is_absolute(path: &str) -> (absolute: bool)
    ensures
        absolute == is_absolute_path(path@),
{
    path.unicode_len() > 0 && path.get_char(0) == '/'
}

/// The components of `path`.
pub fn components(path: &str) -> (parts: Vec<PathPart>)
    ensures
        parts.deep_view() == path_parts(path@),
{
    let absolute: bool = is_absolute(path);
    let pieces: Vec<String> = split_on(path, '/');
    let mut parts: Vec<PathPart> = Vec::new();
    let ghost root = if absolute {
        seq![Part::Root]
    } else {
        Seq::empty()
    };
    if absolute {
        parts.push(PathPart::Root);
    }
    assert(parts.deep_view() =~= root);
    let mut i: usize = 0;
    assert(pieces.deep_view().take(0) =~= Seq::<Seq<char>>::empty());
    assert(parts.deep_view() =~= root + pieces_parts(pieces.deep_view().take(0), !absolute));
    while i < pieces.len()
        invariant
            i <= pieces.len(),
            parts.deep_view() == root + pieces_parts(pieces.deep_view().take(i as int), !absolute),
        decreases pieces.len() - i,
    {
        let ghost before = parts.deep_view();
        let piece: &String = &pieces[i];
        proof {
            let taken = pieces.deep_view().take(i + 1);
            assert(taken.drop_last() =~= pieces.deep_view().take(i as int));
            assert(taken.last() == piece@);
            reveal_strlit(".");
            reveal_strlit("..");
            assert("."@ =~= seq!['.']);
            assert(".."@ =~= seq!['.', '.']);
        }
        if piece.as_str().is_empty() {
        } else if same_text(piece.as_str(), ".") {
            if i == 0 && !absolute {
                parts.push(PathPart::Current);
                assert(parts.deep_view() =~= before + seq![Part::Current]);
            }
        } else if same_text(piece.as_str(), "..") {
            parts.push(PathPart::Parent);
            assert(parts.deep_view() =~= before + seq![Part::Parent]);
        } else {
            parts.push(PathPart::Normal(piece.clone()));
            assert(parts.deep_view() =~= before + seq![Part::Normal(piece@)]);
        }
        assert(parts.deep_view() =~= root + pieces_parts(
            pieces.deep_view().take(i + 1),
            !absolute,
        ));
        i += 1;
    }
    assert(pieces.deep_view().take(pieces.len() as int) =~= pieces.deep_view());
    assert(parts.deep_view() =~= path_parts(path@));
    parts
}

/// Whether two components are equal.
fn same_part(a: &PathPart, b: &PathPart) -> (same: bool)
    ensures
        same == (a.deep_view() == b.deep_view()),
{
    match (a, b) {
        (PathPart::Root, PathPart::Root) => true,
        (PathPart::Current, PathPart::Current) => true,
        (PathPart::Parent, PathPart::Parent) => true,
        (PathPart::Normal(a), PathPart::Normal(b)) => same_text(a.as_str(), b.as_str()),
        _ => false,
    }
}

/// Whether the components `outer` come first in `inner`.
fn parts_start_with(inner: &Vec<PathPart>, outer: &Vec<PathPart>) -> (inside: bool)
    ensures
        inside == (outer.len() <= inner.len() && inner.deep_view().take(outer.len() as int)
            == outer.deep_view()),
{
    if outer.len() > inner.len() {
        return false;
    }
    let mut i: usize = 0;
    while i < outer.len()
        invariant
            i <= outer.len() <= inner.len(),
            forall|j: int|
                0 <= j < i ==> inner.deep_view()[j] == #[trigger] outer.deep_view()[j],
        decreases outer.len() - i,
    {
        if !same_part(&inner[i], &outer[i]) {
            assert(inner.deep_view().take(outer.len() as int)[i as int] != outer.deep_view()[i as int]);
            return false;
        }
        i += 1;
    }
    assert(inner.deep_view().take(outer.len() as int) =~= outer.deep_view());
    true
}

/// Whether two texts name the same path.
pub fn same_path(a: &str, b: &str) -> (same: bool)
    ensures
        same == is_same_path(a@, b@),
{
    let a: Vec<PathPart> = components(a);
    let b: Vec<PathPart> = components(b);
    if a.len() != b.len() {
        assert(a.deep_view().len() != b.deep_view().len());
        return false;
    }
    assert(a.deep_view().take(b.len() as int) =~= a.deep_view());
    parts_start_with(&a, &b)
}

/// Whether `path` is `base` or lies below it.
pub fn starts_with(path: &str, base: &str) -> (inside: bool)
    ensures
        inside == path_starts_with(path@, base@),
{
    let inner: Vec<PathPart> = components(path);
    let outer: Vec<PathPart> = components(base);
    assert(inner.deep_view().len() == inner.len());
    assert(outer.deep_view().len() == outer.len());
    parts_start_with(&inner, &outer)
}

/// Resolves `path` against `base`.
pub fn join_path(base: &str, path: &str) -> (joined: String)
    ensures
        joined@ == joined_path(base@, path@),
{
    if is_absolute(path) {
        return path.to_owned();
    }
    let mut joined: String = base.to_owned();
    let n: usize = base.unicode_len();
    if n > 0 && base.get_char(n - 1) != '/' {
        proof {
            reveal_strlit("/");
            assert("/"@ =~= seq!['/']);
        }
        joined.append("/");
    }
    joined.append(path);
    joined
}

/// The text of the components from `start` on.
fn render_from(parts: &Vec<PathPart>, start: usize, end: usize) -> (path: String)
    requires
        start <= end <= parts.len(),
    ensures
        path@ == rendered_path(parts.deep_view().subrange(start as int, end as int)),
{
    let mut path: String = String::new();
    let mut i: usize = start;
    let ghost all = parts.deep_view();
    assert(all.subrange(start as int, start as int) =~= Seq::<Part>::empty());
    while i < end
        invariant
            start <= i <= end <= parts.len(),
            all == parts.deep_view(),
            path@ == rendered_path(all.subrange(start as int, i as int)),
        decreases end - i,
    {
        proof {
            let next = all.subrange(start as int, i + 1);
            assert(next.drop_last() =~= all.subrange(start as int, i as int));
            assert(next.last() == parts@[i as int].deep_view());
            reveal_strlit("/");
            reveal_strlit(".");
            reveal_strlit("..");
            assert("/"@ =~= seq!['/']);
            assert("."@ =~= seq!['.']);
            assert(".."@ =~= seq!['.', '.']);
        }
        let text: &str = match &parts[i] {
            PathPart::Root => "/",
            PathPart::Current => ".",
            PathPart::Parent => "..",
            PathPart::Normal(name) => name.as_str(),
        };
        path = join_path(path.as_str(), text);
        i += 1;
    }
    path
}

/// A path written in the shortest way: no doubled or trailing separators and no inner `.`.
pub open spec fn tidied(path: Seq<char>) -> Seq<char> {
    rendered_path(path_parts(path))
}

/// Writes `path` in the shortest way.
pub fn tidy(path: &str) -> (short: String)
    ensures
        short@ == tidied(path@),
{
    let parts: Vec<PathPart> = components(path);
    assert(parts.deep_view().subrange(0, parts.len() as int) =~= parts.deep_view());
    render_from(&parts, 0, parts.len())
}

/// `path` without the leading components of `base`, where it has them.
pub fn strip_prefix(path: &str, base: &str) -> (rest: Option<String>)
    ensures
        match path_below(path@, base@) {
            Some(parts) => rest is Some && rest->0@ == rendered_path(parts),
            None => rest is None,
        },
{
    let inner: Vec<PathPart> = components(path);
    let outer: Vec<PathPart> = components(base);
    assert(inner.deep_view().len() == inner.len());
    assert(outer.deep_view().len() == outer.len());
    if parts_start_with(&inner, &outer) {
        let rest: String = render_from(&inner, outer.len(), inner.len());
        assert(inner.deep_view().subrange(outer.len() as int, inner.len() as int)
            =~= inner.deep_view().skip(outer.len() as int));
        Some(rest)
    } else {
        None
    }
}

/// The path that holds `path`.
pub fn parent(path: &str) -> (up: Option<String>)
    ensures
        up.deep_view() == parent_of(path@),
{
    let parts: Vec<PathPart> = components(path);
    let n: usize = parts.len();
    assert(parts.deep_view().len() == n);
    if n == 0 {
        return None;
    }
    assert(parts.deep_view().last() == parts@[n - 1].deep_view());
    match &parts[n - 1] {
        PathPart::Root => None,
        _ => {
            let up: String = render_from(&parts, 0, n - 1);
            assert(parts.deep_view().subrange(0, n - 1) =~= parts.deep_view().drop_last());
            Some(up)
        },
    }
}

/// The name at the end of `path`.
pub fn file_name(path: &str) -> (name: Option<String>)
    ensures
        name.deep_view() == file_name_of(path@),
{
    let parts: Vec<PathPart> = components(path);
    let n: usize = parts.len();
    assert(parts.deep_view().len() == n);
    if n == 0 {
        return None;
    }
    assert(parts.deep_view().last() == parts@[n - 1].deep_view());
    match &parts[n - 1] {
        PathPart::Normal(name) => Some(name.clone()),
        _ => None,
    }
}

/// A text that stands for exactly one named component.
pub open spec fn is_component_name(name: Seq<char>) -> bool {
    &&& name.len() > 0
    &&& !name.contains('/')
    &&& name != seq!['.']
    &&& name != seq!['.', '.']
}

/// The components of a single piece.
proof fn lemma_one_piece(piece: Seq<char>, relative: bool)
    ensures
        pieces_parts(seq![piece], relative) == piece_parts(piece, relative),
{
    reveal_with_fuel(pieces_parts, 2);
    assert(seq![piece].drop_last() =~= Seq::<Seq<char>>::empty());
    assert(pieces_parts(seq![piece], relative) =~= piece_parts(piece, relative));
}

/// The empty path has no components.
proof fn lemma_parts_of_empty(path: Seq<char>)
    requires
        path.len() == 0,
    ensures
        path_parts(path) == Seq::<Part>::empty(),
{
    lemma_one_piece(Seq::<char>::empty(), true);
    assert(split(path, '/') =~= seq![Seq::<char>::empty()]);
}

/// The pieces of two texts that are joined by the separator are the pieces of the one, then those
/// of the other.
pub proof fn lemma_split_join(a: Seq<char>, b: Seq<char>, sep: char)
    ensures
        split(a + seq![sep] + b, sep) == split(a, sep) + split(b, sep),
    decreases b.len(),
{
    let whole = a + seq![sep] + b;
    if b.len() == 0 {
        assert(whole.drop_last() =~= a);
        assert(split(whole, sep) =~= split(a, sep) + split(b, sep));
    } else {
        let shorter = b.drop_last();
        assert(whole.drop_last() =~= a + seq![sep] + shorter);
        assert(whole.last() == b.last());
        lemma_split_join(a, shorter, sep);
        lemma_split_nonempty(shorter, sep);
        let before = split(a, sep) + split(shorter, sep);
        assert(before.last() == split(shorter, sep).last());
        assert(before.drop_last() =~= split(a, sep) + split(shorter, sep).drop_last());
        assert(split(whole, sep) =~= split(a, sep) + split(b, sep));
    }
}

/// A text without the separator is its own only piece.
pub proof fn lemma_split_single(text: Seq<char>, sep: char)
    requires
        !text.contains(sep),
    ensures
        split(text, sep) == seq![text],
    decreases text.len(),
{
    if text.len() == 0 {
        assert(text =~= Seq::<char>::empty());
        assert(split(text, sep) =~= seq![text]);
    } else {
        let shorter = text.drop_last();
        assert forall|i: int| 0 <= i < shorter.len() implies shorter[i] != sep by {
            assert(text[i] == shorter[i]);
            assert(text.contains(text[i]));
        }
        lemma_split_single(shorter, sep);
        assert(text.contains(text.last()));
        assert(shorter.push(text.last()) =~= text);
        assert(split(text, sep) =~= seq![text]);
    }
}

/// No piece holds the separator.
proof fn lemma_split_pieces(text: Seq<char>, sep: char)
    ensures
        forall|i: int| 0 <= i < split(text, sep).len() ==> !(#[trigger] split(text, sep)[i]).contains(sep),
    decreases text.len(),
{
    if text.len() > 0 {
        lemma_split_pieces(text.drop_last(), sep);
        lemma_split_nonempty(text.drop_last(), sep);
        let before = split(text.drop_last(), sep);
        let last = before[before.len() - 1];
        assert forall|i: int| 0 <= i < split(text, sep).len() implies !(#[trigger] split(
            text,
            sep,
        )[i]).contains(sep) by {
            if i < before.len() - 1 {
                assert(split(text, sep)[i] == before[i]);
            } else if text.last() != sep {
                let grown = last.push(text.last());
                assert(split(text, sep)[i] == grown);
                if grown.contains(sep) {
                    let k = choose|k: int| 0 <= k < grown.len() && grown[k] == sep;
                    assert(k < last.len());
                    assert(last[k] == sep);
                    assert(last.contains(sep));
                }
            } else if i == before.len() - 1 {
                assert(split(text, sep)[i] == before[i]);
            }
        }
    }
}

/// The components of two runs of pieces, one behind the other.
proof fn lemma_pieces_parts_append(a: Seq<Seq<char>>, b: Seq<Seq<char>>, relative: bool)
    requires
        a.len() > 0,
    ensures
        pieces_parts(a + b, relative) == pieces_parts(a, relative) + pieces_parts(b, false),
    decreases b.len(),
{
    if b.len() == 0 {
        assert(a + b =~= a);
        assert(pieces_parts(a, relative) + pieces_parts(b, false) =~= pieces_parts(a, relative));
    } else {
        assert((a + b).drop_last() =~= a + b.drop_last());
        lemma_pieces_parts_append(a, b.drop_last(), relative);
        assert(pieces_parts(a + b, relative) =~= pieces_parts(a, relative) + pieces_parts(b, false));
    }
}

/// Resolving a relative path against another appends its components.
pub proof fn lemma_parts_of_joined(base: Seq<char>, path: Seq<char>)
    requires
        !is_absolute_path(path),
        base.len() > 0,
    ensures
        path_parts(joined_path(base, path)) == path_parts(base) + pieces_parts(
            split(path, '/'),
            false,
        ),
{
    let whole = joined_path(base, path);
    let relative = !is_absolute_path(base);
    let below = split(path, '/');
    assert(whole[0] == base[0]);
    if base.last() != '/' {
        lemma_split_join(base, path, '/');
        lemma_split_nonempty(base, '/');
        lemma_pieces_parts_append(split(base, '/'), below, relative);
    } else {
        let trunk = base.drop_last();
        assert(base =~= trunk + seq!['/']);
        assert(whole =~= trunk + seq!['/'] + path);
        lemma_split_join(trunk, path, '/');
        lemma_split_nonempty(trunk, '/');
        lemma_pieces_parts_append(split(trunk, '/'), below, relative);
        let with_end = split(trunk, '/').push(Seq::<char>::empty());
        assert(split(base, '/') == with_end);
        assert(with_end.drop_last() =~= split(trunk, '/'));
        assert(pieces_parts(with_end, relative) =~= pieces_parts(split(trunk, '/'), relative));
    }
    assert(path_parts(whole) =~= path_parts(base) + pieces_parts(below, false));
}

/// A single name is its own only component.
proof fn lemma_parts_of_name(name: Seq<char>, relative: bool)
    requires
        is_component_name(name),
    ensures
        !is_absolute_path(name),
        split(name, '/') == seq![name],
        pieces_parts(split(name, '/'), relative) == seq![Part::Normal(name)],
{
    lemma_split_single(name, '/');
    assert(name.contains(name[0]));
    lemma_one_piece(name, relative);
}

/// Resolving a single name against a path adds one component.
pub proof fn lemma_parts_of_child(base: Seq<char>, name: Seq<char>)
    requires
        is_component_name(name),
    ensures
        path_parts(joined_path(base, name)) == path_parts(base).push(Part::Normal(name)),
        joined_path(base, name).len() > 0,
{
    lemma_parts_of_name(name, false);
    lemma_parts_of_name(name, true);
    if base.len() == 0 {
        assert(joined_path(base, name) =~= name);
        lemma_parts_of_empty(base);
        assert(path_parts(name) =~= path_parts(base).push(Part::Normal(name)));
    } else {
        lemma_parts_of_joined(base, name);
        assert(path_parts(base) + seq![Part::Normal(name)] =~= path_parts(base).push(
            Part::Normal(name),
        ));
    }
}

/// A component that may stand behind another one.
pub open spec fn is_inner_part(part: Part) -> bool {
    match part {
        Part::Root => false,
        Part::Current => false,
        Part::Parent => true,
        Part::Normal(name) => is_component_name(name),
    }
}

/// Components that some path has: the root and the leading `.` stand first or nowhere.
pub open spec fn is_part_list(parts: Seq<Part>) -> bool {
    forall|i: int|
        0 <= i < parts.len() ==> is_inner_part(#[trigger] parts[i]) || (i == 0 && (parts[i] is Root
            || parts[i] is Current))
}

proof fn lemma_pieces_parts_list(pieces: Seq<Seq<char>>, relative: bool)
    requires
        forall|i: int| 0 <= i < pieces.len() ==> !(#[trigger] pieces[i]).contains('/'),
    ensures
        is_part_list(pieces_parts(pieces, relative)),
        !relative ==> forall|i: int|
            0 <= i < pieces_parts(pieces, relative).len() ==> is_inner_part(
                #[trigger] pieces_parts(pieces, relative)[i],
            ),
    decreases pieces.len(),
{
    if pieces.len() > 0 {
        let shorter = pieces.drop_last();
        assert forall|i: int| 0 <= i < shorter.len() implies !(#[trigger] shorter[i]).contains(
            '/',
        ) by {
            assert(pieces[i] == shorter[i]);
        }
        lemma_pieces_parts_list(shorter, relative);
        let before = pieces_parts(shorter, relative);
        let added = piece_parts(pieces.last(), relative && pieces.len() == 1);
        let parts = pieces_parts(pieces, relative);
        assert(!pieces[pieces.len() - 1].contains('/'));
        assert forall|i: int| 0 <= i < parts.len() implies is_inner_part(#[trigger] parts[i]) || (
        relative && i == 0 && (parts[i] is Root || parts[i] is Current)) by {
            if i < before.len() {
                assert(parts[i] == before[i]);
            } else {
                assert(parts[i] == added[i - before.len()]);
            }
        }
    }
}

/// The components of every path are such a list.
pub proof fn lemma_path_parts_list(path: Seq<char>)
    ensures
        is_part_list(path_parts(path)),
{
    lemma_split_pieces(path, '/');
    lemma_pieces_parts_list(split(path, '/'), false);
    lemma_pieces_parts_list(split(path, '/'), true);
    if is_absolute_path(path) {
        let inner = pieces_parts(split(path, '/'), false);
        assert forall|i: int| 0 <= i < path_parts(path).len() implies is_inner_part(
            #[trigger] path_parts(path)[i],
        ) || (i == 0 && (path_parts(path)[i] is Root || path_parts(path)[i] is Current)) by {
            if i > 0 {
                assert(path_parts(path)[i] == inner[i - 1]);
            }
        }
    }
}

/// The text that is written for a list of components has these components.
pub proof fn lemma_parts_of_rendered(parts: Seq<Part>)
    requires
        is_part_list(parts),
    ensures
        path_parts(rendered_path(parts)) == parts,
        parts.len() > 0 ==> rendered_path(parts).len() > 0,
        parts.len() > 0 && is_inner_part(parts[0]) ==> !is_absolute_path(rendered_path(parts)),
    decreases parts.len(),
{
    if parts.len() == 0 {
        lemma_parts_of_empty(rendered_path(parts));
        assert(parts =~= Seq::<Part>::empty());
    } else {
        let shorter = parts.drop_last();
        let last = parts.last();
        assert forall|i: int| 0 <= i < shorter.len() implies is_inner_part(#[trigger] shorter[i])
            || (i == 0 && (shorter[i] is Root || shorter[i] is Current)) by {
            assert(parts[i] == shorter[i]);
        }
        lemma_parts_of_rendered(shorter);
        let text = rendered_path(shorter);
        assert(last == parts[parts.len() - 1]);
        if shorter.len() > 0 {
            assert(shorter[0] == parts[0]);
        } else {
            assert(text =~= Seq::<char>::empty());
        }
        lemma_last_part(text, shorter, last);
        assert(shorter.push(last) =~= parts);
    }
}

/// A path written in the shortest way is the same path.
pub proof fn lemma_tidied_is_same(path: Seq<char>)
    ensures
        is_same_path(tidied(path), path),
{
    lemma_path_parts_list(path);
    lemma_parts_of_rendered(path_parts(path));
}

/// Writing one more component behind a text.
proof fn lemma_last_part(text: Seq<char>, shorter: Seq<Part>, last: Part)
    requires
        path_parts(text) == shorter,
        shorter.len() > 0 ==> text.len() > 0,
        shorter.len() == 0 ==> text.len() == 0,
        is_inner_part(last) || (shorter.len() == 0 && (last is Root || last is Current)),
    ensures
        path_parts(joined_path(text, part_text(last))) == shorter.push(last),
        joined_path(text, part_text(last)).len() > 0,
        shorter.len() > 0 ==> is_absolute_path(joined_path(text, part_text(last)))
            == is_absolute_path(text),
        shorter.len() == 0 && is_inner_part(last) ==> !is_absolute_path(
            joined_path(text, part_text(last)),
        ),
{
    let whole = joined_path(text, part_text(last));
    match last {
        Part::Normal(name) => {
            lemma_parts_of_child(text, name);
            lemma_parts_of_name(name, false);
            if text.len() == 0 {
                assert(whole =~= name);
            } else {
                assert(whole[0] == text[0]);
            }
        },
        Part::Parent => {
            let up = seq!['.', '.'];
            assert(!up.contains('/')) by {
                assert forall|i: int| 0 <= i < up.len() implies up[i] != '/' by {}
            }
            lemma_split_single(up, '/');
            lemma_one_piece(up, false);
            lemma_one_piece(up, true);
            if text.len() == 0 {
                assert(whole =~= up);
                assert(path_parts(whole) =~= shorter.push(last));
            } else {
                lemma_parts_of_joined(text, up);
                assert(whole[0] == text[0]);
                assert(path_parts(whole) =~= shorter.push(last));
            }
        },
        Part::Root => {
            let root = seq!['/'];
            assert(whole == root);
            let empty = Seq::<char>::empty();
            assert(root =~= empty + root + empty);
            lemma_split_join(empty, empty, '/');
            let pieces = split(root, '/');
            assert(pieces =~= seq![empty, empty]);
            assert(pieces.drop_last() =~= seq![empty]);
            lemma_one_piece(empty, false);
            assert(pieces_parts(pieces, false) =~= Seq::<Part>::empty());
            assert(path_parts(whole) =~= shorter.push(last));
        },
        Part::Current => {
            let dot = seq!['.'];
            assert(!dot.contains('/'));
            assert(whole =~= dot);
            lemma_split_single(dot, '/');
            lemma_one_piece(dot, true);
            assert(path_parts(whole) =~= shorter.push(last));
        },
    }
}

/// What is left of a path behind a base, resolved against the base again, is the path.
pub proof fn lemma_strip_then_join(path: Seq<char>, base: Seq<char>)
    requires
        path_starts_with(path, base),
    ensures
        is_same_path(joined_path(base, rendered_path(path_below(path, base)->0)), path),
{
    let inner = path_parts(path);
    let outer = path_parts(base);
    let rest = inner.skip(outer.len() as int);
    let text = rendered_path(rest);
    lemma_path_parts_list(path);
    assert forall|i: int| 0 <= i < rest.len() implies is_inner_part(#[trigger] rest[i]) || (i == 0
        && (rest[i] is Root || rest[i] is Current)) by {
        assert(rest[i] == inner[i + outer.len()]);
    }
    lemma_parts_of_rendered(rest);
    assert(inner =~= outer + rest);
    if base.len() == 0 {
        lemma_parts_of_empty(base);
        assert(rest =~= inner);
        assert(joined_path(base, text) =~= text);
    } else if outer.len() == 0 {
        assert(false) by {
            lemma_nonempty_has_parts(base);
        }
    } else {
        if rest.len() > 0 {
            assert(rest[0] == inner[outer.len() as int]);
            assert(!is_absolute_path(text));
        } else {
            assert(text =~= Seq::<char>::empty());
        }
        lemma_parts_of_joined(base, text);
        lemma_pieces_without_dot(text, rest);
        assert(path_parts(joined_path(base, text)) =~= inner);
    }
}

/// Every path but the empty one has a component.
proof fn lemma_nonempty_has_parts(path: Seq<char>)
    requires
        path.len() > 0,
    ensures
        path_parts(path).len() > 0,
    decreases path.len(),
{
    if !is_absolute_path(path) {
        let pieces = split(path, '/');
        lemma_split_head(path);
        lemma_pieces_parts_head(pieces, true);
    }
}

/// The first piece of a relative path is not empty.
proof fn lemma_split_head(path: Seq<char>)
    requires
        path.len() > 0,
        path[0] != '/',
    ensures
        split(path, '/').len() > 0,
        split(path, '/')[0].len() > 0,
    decreases path.len(),
{
    lemma_split_nonempty(path.drop_last(), '/');
    let shorter = path.drop_last();
    if shorter.len() > 0 {
        lemma_split_head(shorter);
        let before = split(shorter, '/');
        if path.last() != '/' && before.len() == 1 {
            assert(before.last() == before[0]);
        } else if path.last() != '/' {
            assert(before.drop_last()[0] == before[0]);
        }
    } else {
        assert(shorter =~= Seq::<char>::empty());
        assert(path.last() == path[0]);
    }
}

/// A first piece that is not empty gives a component.
proof fn lemma_pieces_parts_head(pieces: Seq<Seq<char>>, relative: bool)
    requires
        pieces.len() > 0,
        pieces[0].len() > 0,
        relative,
    ensures
        pieces_parts(pieces, relative).len() > 0,
    decreases pieces.len(),
{
    if pieces.len() > 1 {
        assert(pieces.drop_last()[0] == pieces[0]);
        lemma_pieces_parts_head(pieces.drop_last(), relative);
    } else {
        assert(pieces.drop_last() =~= Seq::<Seq<char>>::empty());
    }
}

/// Where a relative path does not begin with `.`, it makes no difference whether it is read from
/// the start.
proof fn lemma_pieces_without_dot(text: Seq<char>, parts: Seq<Part>)
    requires
        !is_absolute_path(text),
        path_parts(text) == parts,
        forall|i: int| 0 <= i < parts.len() ==> is_inner_part(#[trigger] parts[i]),
    ensures
        pieces_parts(split(text, '/'), false) == parts,
{
    let pieces = split(text, '/');
    lemma_split_nonempty(text, '/');
    lemma_leading_piece(pieces);
    if piece_parts(pieces[0], true) != piece_parts(pieces[0], false) {
        let with_dot = pieces_parts(pieces, true);
        assert(with_dot[0] == Part::Current);
        assert(is_inner_part(parts[0]));
    }
}

/// The first piece is the only one that is read differently.
proof fn lemma_leading_piece(pieces: Seq<Seq<char>>)
    requires
        pieces.len() > 0,
    ensures
        pieces_parts(pieces, true) == piece_parts(pieces[0], true) + pieces_parts(
            pieces.skip(1),
            false,
        ),
        pieces_parts(pieces, false) == piece_parts(pieces[0], false) + pieces_parts(
            pieces.skip(1),
            false,
        ),
{
    let first = seq![pieces[0]];
    assert(pieces =~= first + pieces.skip(1));
    lemma_pieces_parts_append(first, pieces.skip(1), true);
    lemma_pieces_parts_append(first, pieces.skip(1), false);
    lemma_one_piece(pieces[0], true);
    lemma_one_piece(pieces[0], false);
}

proof fn lemma_parts_around_a_separator(a: Seq<char>, b: Seq<char>)
    requires
        a.len() > 0,
    ensures
        path_parts(a + seq!['/'] + b) == path_parts(a) + pieces_parts(split(b, '/'), false),
{
    let whole = a + seq!['/'] + b;
    assert(whole[0] == a[0]);
    lemma_split_join(a, b, '/');
    lemma_split_nonempty(a, '/');
    lemma_pieces_parts_append(split(a, '/'), split(b, '/'), !is_absolute_path(a));
    assert(path_parts(whole) =~= path_parts(a) + pieces_parts(split(b, '/'), false));
}

/// A separator at the end of a path, a second separator behind another, and a `.` between two
/// separators do not count.
pub proof fn lemma_needless_separators_do_not_count(a: Seq<char>, b: Seq<char>)
    requires
        a.len() > 0,
    ensures
        is_same_path(a + seq!['/'], a),
        is_same_path(a + seq!['/', '/'] + b, a + seq!['/'] + b),
        is_same_path(a + seq!['/', '.', '/'] + b, a + seq!['/'] + b),
{
    let none = Seq::<char>::empty();
    let dot = seq!['.'];
    lemma_one_piece(none, false);
    lemma_parts_around_a_separator(a, none);
    assert(a + seq!['/'] + none =~= a + seq!['/']);
    assert(path_parts(a + seq!['/']) =~= path_parts(a));
    lemma_parts_around_a_separator(a, b);
    lemma_parts_around_a_separator(a + seq!['/'], b);
    assert(a + seq!['/'] + seq!['/'] + b =~= a + seq!['/', '/'] + b);
    assert(!dot.contains('/'));
    lemma_split_single(dot, '/');
    lemma_one_piece(dot, false);
    lemma_parts_around_a_separator(a, dot);
    assert(path_parts(a + seq!['/'] + dot) =~= path_parts(a));
    lemma_parts_around_a_separator(a + seq!['/'] + dot, b);
    assert(a + seq!['/'] + dot + seq!['/'] + b =~= a + seq!['/', '.', '/'] + b);
}

/// Everything else counts: a name behind a separator is a component of its own, two dots are a
/// step up, and a path begins at the root exactly where a separator begins it.
pub proof fn lemma_names_are_components(a: Seq<char>, name: Seq<char>)
    requires
        a.len() > 0,
        is_component_name(name),
    ensures
        path_parts(a + seq!['/'] + name) == path_parts(a).push(Part::Normal(name)),
        path_parts(a + seq!['/', '.', '.']) == path_parts(a).push(Part::Parent),
        path_parts(seq!['/'] + name) == seq![Part::Root, Part::Normal(name)],
        path_parts(name) == seq![Part::Normal(name)],
        path_parts(seq!['/']) == seq![Part::Root],
        path_parts(a)[0] is Root <==> a[0] == '/',
{
    let up = seq!['.', '.'];
    lemma_parts_of_name(name, false);
    lemma_parts_of_name(name, true);
    lemma_parts_around_a_separator(a, name);
    assert(path_parts(a + seq!['/'] + name) =~= path_parts(a).push(Part::Normal(name)));
    assert forall|i: int| 0 <= i < up.len() implies up[i] != '/' by {}
    lemma_split_single(up, '/');
    lemma_one_piece(up, false);
    lemma_parts_around_a_separator(a, up);
    assert(a + seq!['/'] + up =~= a + seq!['/', '.', '.']);
    assert(path_parts(a + seq!['/'] + up) =~= path_parts(a).push(Part::Parent));
    let none = Seq::<Part>::empty();
    lemma_parts_of_empty(Seq::empty());
    lemma_last_part(Seq::empty(), none, Part::Root);
    assert(joined_path(Seq::empty(), seq!['/']) == seq!['/']);
    assert(none.push(Part::Root) =~= seq![Part::Root]);
    lemma_last_part(seq!['/'], seq![Part::Root], Part::Normal(name));
    assert(joined_path(seq!['/'], name) =~= seq!['/'] + name);
    assert(seq![Part::Root].push(Part::Normal(name)) =~= seq![Part::Root, Part::Normal(name)]);
    if a[0] != '/' {
        lemma_relative_paths_have_no_root(a);
        lemma_nonempty_has_parts(a);
    }
}

/// No component of a relative path is the root.
pub proof fn lemma_relative_paths_have_no_root(path: Seq<char>)
    requires
        !is_absolute_path(path),
    ensures
        forall|i: int|
            0 <= i < path_parts(path).len() ==> !(#[trigger] path_parts(path)[i] is Root),
{
    lemma_no_root_in_pieces(split(path, '/'), true);
}

proof fn lemma_no_root_in_pieces(pieces: Seq<Seq<char>>, relative: bool)
    ensures
        forall|i: int|
            0 <= i < pieces_parts(pieces, relative).len() ==> !(#[trigger] pieces_parts(
                pieces,
                relative,
            )[i] is Root),
    decreases pieces.len(),
{
    if pieces.len() > 0 {
        lemma_no_root_in_pieces(pieces.drop_last(), relative);
        let before = pieces_parts(pieces.drop_last(), relative);
        let parts = pieces_parts(pieces, relative);
        assert forall|i: int| 0 <= i < parts.len() implies !(#[trigger] parts[i] is Root) by {
            if i < before.len() {
                assert(parts[i] == before[i]);
            }
        }
    }
}

/// One path begins with another exactly where something leads from the other to it; what that is
/// is what is left below. Paths that begin with each other are the same.
pub proof fn lemma_a_path_begins_with_its_ancestors(
    path: Seq<char>,
    base: Seq<char>,
    rest: Seq<Part>,
)
    ensures
        path_parts(path) == path_parts(base) + rest ==> path_starts_with(path, base) && path_below(
            path,
            base,
        ) == Some(rest),
        path_starts_with(path, base) ==> path_below(path, base) is Some && path_parts(path)
            == path_parts(base) + path_below(path, base)->0,
        !path_starts_with(path, base) ==> path_below(path, base) is None,
        is_same_path(path, base) <==> path_starts_with(path, base) && path_starts_with(base, path),
{
    let inner = path_parts(path);
    let outer = path_parts(base);
    if inner == outer + rest {
        assert(inner.take(outer.len() as int) =~= outer);
        assert(inner.skip(outer.len() as int) =~= rest);
    }
    if path_starts_with(path, base) {
        assert(inner =~= outer + inner.skip(outer.len() as int));
        if path_starts_with(base, path) {
            assert(inner =~= inner.take(outer.len() as int));
        }
    }
    if is_same_path(path, base) {
        assert(inner.take(outer.len() as int) =~= outer);
        assert(outer.take(inner.len() as int) =~= inner);
    }
}

/// What is joined to a path lies below it, at the place that it names; an absolute path is not
/// moved.
pub proof fn lemma_paths_below_are_joined(base: Seq<char>, rest: Seq<Part>)
    requires
        is_absolute_path(base),
        forall|i: int| 0 <= i < rest.len() ==> is_inner_part(#[trigger] rest[i]),
    ensures
        path_parts(joined_path(base, rendered_path(rest))) == path_parts(base) + rest,
        is_absolute_path(joined_path(base, rendered_path(rest))),
        forall|path: Seq<char>| #[trigger] joined_path(path, base) == base,
{
    let text = rendered_path(rest);
    lemma_parts_of_rendered(rest);
    if rest.len() > 0 {
        assert(is_inner_part(rest[0]));
    }
    lemma_parts_of_joined(base, text);
    lemma_pieces_without_dot(text, rest);
    assert(joined_path(base, text)[0] == base[0]);
}

/// The parent of a child is the directory, and its last component the name; the root has neither,
/// and a path that leads up has no name.
pub proof fn lemma_a_child_has_its_parent_and_name(base: Seq<char>, name: Seq<char>)
    requires
        is_component_name(name),
    ensures
        parent_of(joined_path(base, name)) matches Some(up) && is_same_path(up, base),
        file_name_of(joined_path(base, name)) == Some(name),
        parent_of(seq!['/']) is None,
        file_name_of(seq!['/']) is None,
        base.len() > 0 ==> file_name_of(base + seq!['/', '.', '.']) is None,
{
    lemma_parts_of_child(base, name);
    let parts = path_parts(joined_path(base, name));
    lemma_path_parts_list(base);
    assert(parts.drop_last() =~= path_parts(base));
    lemma_parts_of_rendered(path_parts(base));
    lemma_names_are_components(seq!['/'], name);
    if base.len() > 0 {
        lemma_names_are_components(base, name);
    }
}

/// A path that is written anew holds no separator behind another, and none at its end but that of
/// the root.
pub proof fn lemma_tidied_paths_have_no_needless_separators(path: Seq<char>)
    ensures
        is_same_path(tidied(path), path),
        tidied(path).len() > 1 ==> tidied(path).last() != '/',
        forall|i: int|
            0 <= i < tidied(path).len() - 1 ==> !(#[trigger] tidied(path)[i] == '/' && tidied(
                path,
            )[i + 1] == '/'),
{
    lemma_tidied_is_same(path);
    lemma_path_parts_list(path);
    lemma_rendered_separators(path_parts(path));
}

proof fn lemma_rendered_separators(parts: Seq<Part>)
    requires
        is_part_list(parts),
    ensures
        rendered_path(parts).len() > 1 ==> rendered_path(parts).last() != '/',
        parts.len() > 1 ==> rendered_path(parts).len() > 1,
        forall|i: int|
            0 <= i < rendered_path(parts).len() - 1 ==> !(#[trigger] rendered_path(parts)[i] == '/'
                && rendered_path(parts)[i + 1] == '/'),
    decreases parts.len(),
{
    if parts.len() > 0 {
        let shorter = parts.drop_last();
        let last = parts.last();
        assert forall|i: int| 0 <= i < shorter.len() implies is_inner_part(#[trigger] shorter[i])
            || (i == 0 && (shorter[i] is Root || shorter[i] is Current)) by {
            assert(parts[i] == shorter[i]);
        }
        lemma_rendered_separators(shorter);
        lemma_parts_of_rendered(shorter);
        let text = rendered_path(shorter);
        let name = part_text(last);
        let whole = rendered_path(parts);
        assert(last == parts[parts.len() - 1]);
        if shorter.len() == 0 {
            assert(text =~= Seq::<char>::empty());
            assert(whole =~= name);
            if let Part::Normal(inner) = last {
                assert forall|i: int| 0 <= i < whole.len() implies whole[i] != '/' by {
                    assert(inner.contains(inner[i]));
                }
            }
        } else {
            assert forall|i: int| 0 <= i < name.len() implies name[i] != '/' by {
                if let Part::Normal(inner) = last {
                    assert(inner.contains(inner[i]));
                }
            }
            assert(!is_absolute_path(name));
            assert(whole.last() == name.last());
            let n = text.len() as int;
            assert forall|i: int| 0 <= i < whole.len() - 1 implies !(#[trigger] whole[i] == '/'
                && whole[i + 1] == '/') by {
                if i + 1 < n {
                    assert(whole[i] == text[i] && whole[i + 1] == text[i + 1]);
                }
            }
        }
    }
}

} // verus!
