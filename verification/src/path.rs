//! File system paths, as byte strings in which `/` separates the parts.
//!
//! Two paths are the same when they have the same components: repeated and trailing separators and
//! every `.` but a leading one make no difference.
use crate::bytes::{
    contents, copy_range, law_pieces_make_the_text, lemma_split_joined, lemma_split_len,
    lemma_split_whole, same, split, split_at_byte,
};
use crate::error::ServeError;
use vstd::prelude::*;

verus! {

/// One component of a path, as contracts speak of it.
pub enum Part {
    Root,
    Current,
    Parent,
    Name(Seq<u8>),
}

/// One component of a path.
#[derive(Debug)]
pub enum Component {
    RootDir,
    CurDir,
    ParentDir,
    Normal(Vec<u8>),
}

impl View for Component {
    type V = Part;

    open spec fn view(&self) -> Part {
        match *self {
            Component::RootDir => Part::Root,
            Component::CurDir => Part::Current,
            Component::ParentDir => Part::Parent,
            Component::Normal(name) => Part::Name(name@),
        }
    }
}

/// `/`
pub const SEPARATOR: u8 = 47;

/// `.`
pub const DOT: u8 = 46;

/// A path that begins at the root.
pub open spec fn is_absolute(p: Seq<u8>) -> bool {
    p.len() > 0 && p[0] == SEPARATOR
}

/// The component that a piece between separators stands for, if it stands for one. A `.` does so
/// only where it is the first thing in the path.
pub open spec fn part_of(piece: Seq<u8>, first: bool) -> Option<Part> {
    if piece.len() == 0 {
        None
    } else if piece == seq![DOT] {
        if first {
            Some(Part::Current)
        } else {
            None
        }
    } else if piece == seq![DOT, DOT] {
        Some(Part::Parent)
    } else {
        Some(Part::Name(piece))
    }
}

/// The components that the pieces of a path stand for.
pub open spec fn parts_of(pieces: Seq<Seq<u8>>) -> Seq<Part>
    decreases pieces.len(),
{
    if pieces.len() == 0 {
        Seq::empty()
    } else {
        let before = parts_of(pieces.drop_last());
        match part_of(pieces.last(), pieces.len() == 1) {
            Some(part) => before.push(part),
            None => before,
        }
    }
}

/// The components of a path.
pub open spec fn components(p: Seq<u8>) -> Seq<Part> {
    let named = parts_of(split(p, SEPARATOR));
    if is_absolute(p) {
        seq![Part::Root] + named
    } else {
        named
    }
}

/// What a list of components holds.
pub open spec fn parts(list: Seq<Component>) -> Seq<Part> {
    list.map_values(|c: Component| c@)
}

/// Whether the path `p` lies at or below the path `root`.
pub open spec fn is_within(p: Seq<u8>, root: Seq<u8>) -> bool {
    components(root).is_prefix_of(components(p))
}

/// The last component, where it is a name.
pub open spec fn file_name_of(p: Seq<u8>) -> Option<Seq<u8>> {
    let all = components(p);
    if all.len() == 0 {
        None
    } else {
        match all.last() {
            Part::Name(name) => Some(name),
            _ => None,
        }
    }
}

/// The components of the directory that a path stands in. The root and the empty path stand in none.
pub open spec fn parent_of(p: Seq<u8>) -> Option<Seq<Part>> {
    let all = components(p);
    if all.len() == 0 || all.last() == Part::Root {
        None
    } else {
        Some(all.drop_last())
    }
}

/// The place of the last dot in a name, or -1.
pub open spec fn last_dot(name: Seq<u8>) -> int
    decreases name.len(),
{
    if name.len() == 0 {
        -1
    } else if name.last() == DOT {
        name.len() - 1
    } else {
        last_dot(name.drop_last())
    }
}

/// What follows the last dot of the file name. A name without a dot, or whose only dot comes first,
/// has no extension.
pub open spec fn extension_of(p: Seq<u8>) -> Option<Seq<u8>> {
    match file_name_of(p) {
        Some(name) => if last_dot(name) > 0 {
            Some(name.skip(last_dot(name) + 1))
        } else {
            None
        },
        None => None,
    }
}

/// The path `rel` taken from the directory `base`: an absolute `rel` stands for itself.
pub open spec fn joined(base: Seq<u8>, rel: Seq<u8>) -> Seq<u8> {
    if is_absolute(rel) {
        rel
    } else if base.len() == 0 || base.last() == SEPARATOR {
        base + rel
    } else {
        base.push(SEPARATOR) + rel
    }
}

/// Whether a change at `p` is a change of the file at `watched`: the two are the same path, or they
/// have the same file name in the same directory.
pub open spec fn is_same_file(p: Seq<u8>, watched: Seq<u8>) -> bool {
    ||| components(p) == components(watched)
    ||| file_name_of(p) == file_name_of(watched) && parent_of(p) == parent_of(watched)
}

/// The component that a piece stands for.
fn component_of(piece: &Vec<u8>, first: bool) -> (r: Option<Component>)
    ensures
        match r {
            Some(c) => part_of(piece@, first) == Some(c@),
            None => part_of(piece@, first) is None,
        },
{
    if piece.len() == 0 {
        None
    } else if piece.len() == 1 && piece[0] == DOT {
        assert(piece@ =~= seq![DOT]);
        if first {
            Some(Component::CurDir)
        } else {
            None
        }
    } else if piece.len() == 2 && piece[0] == DOT && piece[1] == DOT {
        assert(piece@ =~= seq![DOT, DOT]);
        assert(piece@.len() == 2);
        Some(Component::ParentDir)
    } else {
        let name = copy_range(piece.as_slice(), 0, piece.len());
        assert(name@ =~= piece@);
        Some(Component::Normal(name))
    }
}

/// Takes a path apart.
pub fn components_of(p: &[u8]) -> (r: Vec<Component>)
    ensures
        parts(r@) == components(p@),
{
    let pieces = split_at_byte(p, SEPARATOR);
    let ghost all = split(p@, SEPARATOR);
    let mut r: Vec<Component> = Vec::new();
    let ghost mut start: Seq<Part> = Seq::empty();
    if p.len() > 0 && p[0] == SEPARATOR {
        r.push(Component::RootDir);
        proof {
            start = seq![Part::Root];
        }
    }
    let mut i: usize = 0;
    assert(parts(r@) =~= start + parts_of(all.take(0)));
    while i < pieces.len()
        invariant
            i <= pieces@.len(),
            all == contents(pieces@),
            parts(r@) == start + parts_of(all.take(i as int)),
        decreases pieces@.len() - i,
    {
        let ghost before = r@;
        assert(all.take(i + 1).drop_last() =~= all.take(i as int));
        assert(all.take(i + 1).last() == pieces@[i as int]@);
        match component_of(&pieces[i], i == 0) {
            Some(c) => {
                r.push(c);
                assert(parts(r@) =~= parts(before).push(c@));
                assert(parts(r@) =~= start + parts_of(all.take(i + 1)));
            },
            None => {
                assert(parts(r@) =~= start + parts_of(all.take(i + 1)));
            },
        }
        i = i + 1;
    }
    assert(all.take(i as int) =~= all);
    assert(parts(r@) =~= components(p@));
    r
}

/// Whether two components are the same.
fn same_component(a: &Component, b: &Component) -> (r: bool)
    ensures
        r == (a@ == b@),
{
    match (a, b) {
        (Component::RootDir, Component::RootDir) => true,
        (Component::CurDir, Component::CurDir) => true,
        (Component::ParentDir, Component::ParentDir) => true,
        (Component::Normal(x), Component::Normal(y)) => same(x.as_slice(), y.as_slice()),
        _ => false,
    }
}

/// Whether the first `n` components of two lists are the same.
fn same_start(a: &Vec<Component>, b: &Vec<Component>, n: usize) -> (r: bool)
    requires
        n <= a@.len(),
        n <= b@.len(),
    ensures
        r == (parts(a@).take(n as int) == parts(b@).take(n as int)),
{
    let mut i: usize = 0;
    while i < n
        invariant
            i <= n,
            n <= a@.len(),
            n <= b@.len(),
            forall|k: int| 0 <= k < i ==> parts(a@)[k] == parts(b@)[k],
        decreases n - i,
    {
        if !same_component(&a[i], &b[i]) {
            assert(parts(a@).take(n as int)[i as int] != parts(b@).take(n as int)[i as int]);
            return false;
        }
        i = i + 1;
    }
    assert(parts(a@).take(n as int) =~= parts(b@).take(n as int));
    true
}

/// Whether the path `p` lies at or below the path `root`.
pub fn starts_with(p: &[u8], root: &[u8]) -> (r: bool)
    ensures
        r == is_within(p@, root@),
{
    let a = components_of(p);
    let b = components_of(root);
    if b.len() > a.len() {
        return false;
    }
    let r = same_start(&a, &b, b.len());
    proof {
        let (x, y) = (components(p@), components(root@));
        assert(y.take(y.len() as int) =~= y);
        assert(x.take(y.len() as int) =~= x.subrange(0, y.len() as int));
    }
    r
}

/// Whether two paths are the same.
pub fn same_path(a: &[u8], b: &[u8]) -> (r: bool)
    ensures
        r == (components(a@) == components(b@)),
{
    let x = components_of(a);
    let y = components_of(b);
    if x.len() != y.len() {
        assert(components(a@).len() != components(b@).len());
        return false;
    }
    let r = same_start(&x, &y, x.len());
    assert(parts(x@).take(x@.len() as int) =~= parts(x@));
    assert(parts(y@).take(y@.len() as int) =~= parts(y@));
    r
}

/// Validates that a path lies within the root directory, which keeps requests from leading out of it.
///
/// Both come in their canonical form, in which no `..` and no symbolic link is left and which begins at
/// the root of the file system: what the file system said of the path, or the text of what kept it from
/// finding the path, and what it said of the root directory when that was opened. However the root
/// directory was named at first, as `.` for one, the files in it have paths within its canonical form.
pub fn validate_path_within_root(
    canonical: Result<Vec<u8>, String>,
    canonical_root: &[u8],
) -> (r: Result<Vec<u8>, ServeError>)
    ensures
        r == match canonical {
            Ok(path) => if is_within(path@, canonical_root@) {
                Ok(path)
            } else {
                Err(ServeError::OutsideRoot)
            },
            Err(reason) => Err(ServeError::Io(reason)),
        },
{
    match canonical {
        Ok(path) => {
            if starts_with(path.as_slice(), canonical_root) {
                Ok(path)
            } else {
                Err(ServeError::OutsideRoot)
            }
        },
        Err(reason) => Err(ServeError::Io(reason)),
    }
}

/// The file name of a path.
pub fn file_name(p: &[u8]) -> (r: Option<Vec<u8>>)
    ensures
        match r {
            Some(name) => file_name_of(p@) == Some(name@),
            None => file_name_of(p@) is None,
        },
{
    let mut all = components_of(p);
    let ghost list = all@;
    match all.pop() {
        Some(Component::Normal(name)) => {
            assert(components(p@).last() == list.last()@);
            Some(name)
        },
        Some(_) => {
            assert(components(p@).last() == list.last()@);
            None
        },
        None => None,
    }
}

/// The extension of the file name of a path.
pub fn extension(p: &[u8]) -> (r: Option<Vec<u8>>)
    ensures
        match r {
            Some(ext) => extension_of(p@) == Some(ext@),
            None => extension_of(p@) is None,
        },
{
    match file_name(p) {
        Some(name) => {
            let mut i: usize = name.len();
            assert(name@.take(i as int) =~= name@);
            while i > 0 && name[i - 1] != DOT
                invariant
                    i <= name@.len(),
                    last_dot(name@) == last_dot(name@.take(i as int)),
                decreases i,
            {
                assert(name@.take(i as int).drop_last() =~= name@.take(i - 1));
                i = i - 1;
            }
            // The last dot, if there is one, stands just before `i`.
            if i > 1 {
                assert(name@.subrange(i as int, name@.len() as int) =~= name@.skip(i as int));
                Some(copy_range(name.as_slice(), i, name.len()))
            } else {
                None
            }
        },
        None => None,
    }
}

/// The place of the last separator before `end`.
fn last_separator(p: &[u8], end: usize) -> (r: Option<usize>)
    requires
        end <= p@.len(),
    ensures
        match r {
            Some(i) => i < end && p@[i as int] == SEPARATOR && !p@.subrange(
                i + 1,
                end as int,
            ).contains(SEPARATOR),
            None => !p@.take(end as int).contains(SEPARATOR),
        },
{
    let mut i: usize = end;
    while i > 0
        invariant
            i <= end <= p@.len(),
            forall|k: int| i <= k < end ==> p@[k] != SEPARATOR,
        decreases i,
    {
        i = i - 1;
        if p[i] == SEPARATOR {
            return Some(i);
        }
    }
    None
}

/// Cutting a path at its last separator takes its last piece off.
proof fn lemma_last_piece(p: Seq<u8>, i: int, end: int)
    requires
        0 <= i < end <= p.len(),
        p[i] == SEPARATOR,
        !p.subrange(i + 1, end).contains(SEPARATOR),
    ensures
        split(p.take(end), SEPARATOR) == split(p.take(i), SEPARATOR).push(p.subrange(i + 1, end)),
        split(p.take(i), SEPARATOR).len() >= 1,
{
    let last = p.subrange(i + 1, end);
    lemma_split_whole(last, SEPARATOR);
    lemma_split_joined(p.take(i), SEPARATOR, last);
    lemma_split_len(p.take(i), SEPARATOR);
    assert(p.take(i).push(SEPARATOR) + last =~= p.take(end));
    assert(split(p.take(i), SEPARATOR) + seq![last] =~= split(p.take(i), SEPARATOR).push(last));
}

/// A path without a separator has the component that it stands for, or none.
proof fn lemma_single_piece(piece: Seq<u8>)
    requires
        !piece.contains(SEPARATOR),
    ensures
        parts_of(split(piece, SEPARATOR)) == components(piece),
        components(piece) == match part_of(piece, true) {
            Some(part) => seq![part],
            None => Seq::empty(),
        },
{
    lemma_split_whole(piece, SEPARATOR);
    let only = seq![piece];
    assert(only.drop_last() =~= Seq::empty());
    assert(parts_of(only.drop_last()) =~= Seq::empty());
    assert(only.last() == piece);
    if is_absolute(piece) {
        assert(piece.contains(piece[0]));
    }
    assert(components(piece) =~= match part_of(piece, true) {
        Some(part) => seq![part],
        None => Seq::empty(),
    });
}

/// The directory that a path stands in: what stands before its last component.
pub fn parent(p: &[u8]) -> (r: Option<Vec<u8>>)
    ensures
        match r {
            Some(dir) => parent_of(p@) == Some(components(dir@)) && dir@.is_prefix_of(p@),
            None => parent_of(p@) is None,
        },
{
    let mut end: usize = p.len();
    let ghost named = parts_of(split(p@, SEPARATOR));
    assert(p@.take(end as int) =~= p@);
    loop
        invariant
            end <= p@.len(),
            named == parts_of(split(p@, SEPARATOR)),
            parts_of(split(p@.take(end as int), SEPARATOR)) == named,
        decreases end,
    {
        match last_separator(p, end) {
            Some(i) => {
                let piece = copy_range(p, i + 1, end);
                let ghost before = split(p@.take(i as int), SEPARATOR);
                proof {
                    lemma_last_piece(p@, i as int, end as int);
                    assert(before.push(piece@).drop_last() =~= before);
                }
                if component_of(&piece, false).is_some() {
                    let dir = copy_range(p, 0, i + 1);
                    proof {
                        assert(dir@ =~= p@.take(i as int).push(SEPARATOR));
                        assert(dir@.drop_last() =~= p@.take(i as int));
                        assert(split(dir@, SEPARATOR) == before.push(Seq::empty()));
                        assert(before.push(Seq::empty()).drop_last() =~= before);
                        assert(parts_of(split(dir@, SEPARATOR)) == parts_of(before));
                        assert(named.drop_last() =~= parts_of(before));
                        assert(is_absolute(dir@) == is_absolute(p@));
                        assert(components(p@).drop_last() =~= components(dir@));
                        assert(components(p@).last() == named.last());
                    }
                    return Some(dir);
                }
                end = i;
            },
            None => {
                let piece = copy_range(p, 0, end);
                proof {
                    assert(piece@ =~= p@.take(end as int));
                    lemma_single_piece(piece@);
                }
                if component_of(&piece, true).is_some() {
                    let dir: Vec<u8> = Vec::new();
                    proof {
                        assert(piece@[0] == p@[0]);
                        assert(piece@.contains(piece@[0]));
                        assert(!is_absolute(p@));
                        assert(named.drop_last() =~= Seq::empty());
                        lemma_single_piece(dir@);
                    }
                    return Some(dir);
                }
                proof {
                    assert(named =~= Seq::empty());
                    if is_absolute(p@) {
                        assert(components(p@) =~= seq![Part::Root]);
                    } else {
                        assert(components(p@) =~= Seq::empty());
                    }
                }
                return None;
            },
        }
    }
}

/// The path `rel` taken from the directory `base`.
pub fn join(base: &[u8], rel: &[u8]) -> (r: Vec<u8>)
    ensures
        r@ == joined(base@, rel@),
{
    if rel.len() > 0 && rel[0] == SEPARATOR {
        let r = copy_range(rel, 0, rel.len());
        assert(r@ =~= rel@);
        return r;
    }
    let mut r = copy_range(base, 0, base.len());
    assert(r@ =~= base@);
    if base.len() > 0 && base[base.len() - 1] != SEPARATOR {
        r.push(SEPARATOR);
    }
    let mut tail = copy_range(rel, 0, rel.len());
    assert(tail@ =~= rel@);
    r.append(&mut tail);
    r
}

/// Whether two optional byte strings are the same.
fn same_name(a: &Option<Vec<u8>>, b: &Option<Vec<u8>>) -> (r: bool)
    ensures
        r == match (*a, *b) {
            (Some(x), Some(y)) => x@ == y@,
            (None, None) => true,
            _ => false,
        },
{
    match (a, b) {
        (Some(x), Some(y)) => same(x.as_slice(), y.as_slice()),
        (None, None) => true,
        _ => false,
    }
}

/// Whether two optional directories are the same path.
fn same_directory(a: &Option<Vec<u8>>, b: &Option<Vec<u8>>) -> (r: bool)
    ensures
        r == match (*a, *b) {
            (Some(x), Some(y)) => components(x@) == components(y@),
            (None, None) => true,
            _ => false,
        },
{
    match (a, b) {
        (Some(x), Some(y)) => same_path(x.as_slice(), y.as_slice()),
        (None, None) => true,
        _ => false,
    }
}

/// Whether a change at `p` is a change of the file at `watched`.
pub fn same_file(p: &[u8], watched: &[u8]) -> (r: bool)
    ensures
        r == is_same_file(p@, watched@),
{
    same_path(p, watched) || (same_name(&file_name(p), &file_name(watched)) && same_directory(
        &parent(p),
        &parent(watched),
    ))
}

/// `all` without a leading `.`, which says nothing where something stands before it.
pub open spec fn without_current(all: Seq<Part>) -> Seq<Part> {
    if all.len() > 0 && all[0] == Part::Current {
        all.drop_first()
    } else {
        all
    }
}

proof fn lemma_parts_append(x: Seq<Seq<u8>>, y: Seq<Seq<u8>>)
    requires
        x.len() > 0,
    ensures
        parts_of(x + y) == parts_of(x) + without_current(parts_of(y)),
    decreases y.len(),
{
    if y.len() == 0 {
        assert(x + y =~= x);
        assert(parts_of(x) + without_current(parts_of(y)) =~= parts_of(x));
    } else {
        let front = y.drop_last();
        lemma_parts_append(x, front);
        assert((x + y).drop_last() =~= x + front);
        assert((x + y).last() == y.last());
        assert(parts_of(x + y) =~= parts_of(x) + without_current(parts_of(y)));
    }
}

/// A relative path taken from a directory lies below it: its components follow those of the
/// directory.
pub proof fn law_join_descends(base: Seq<u8>, rel: Seq<u8>)
    requires
        base.len() > 0,
        !is_absolute(rel),
    ensures
        components(joined(base, rel)) == components(base) + without_current(components(rel)),
        is_within(joined(base, rel), base),
{
    let whole = joined(base, rel);
    assert(is_absolute(whole) == is_absolute(base));
    let tail = split(rel, SEPARATOR);
    if base.last() == SEPARATOR {
        let front = base.drop_last();
        assert(front.push(SEPARATOR) =~= base);
        lemma_split_joined(front, SEPARATOR, rel);
        lemma_split_len(front, SEPARATOR);
        lemma_parts_append(split(front, SEPARATOR), tail);
        assert(split(base, SEPARATOR).drop_last() =~= split(front, SEPARATOR));
        assert(parts_of(split(base, SEPARATOR)) == parts_of(split(front, SEPARATOR)));
    } else {
        lemma_split_joined(base, SEPARATOR, rel);
        lemma_split_len(base, SEPARATOR);
        lemma_parts_append(split(base, SEPARATOR), tail);
    }
    assert(components(whole) =~= components(base) + without_current(components(rel)));
}

/// A file that has a name is changed exactly by changes at its own path.
pub proof fn law_same_file_is_same_path(p: Seq<u8>, watched: Seq<u8>)
    requires
        file_name_of(watched) is Some,
    ensures
        is_same_file(p, watched) <==> components(p) == components(watched),
{
    if file_name_of(p) == file_name_of(watched) && parent_of(p) == parent_of(watched) {
        let (x, y) = (components(p), components(watched));
        assert(x.drop_last().push(x.last()) =~= x);
        assert(y.drop_last().push(y.last()) =~= y);
    }
}

/// What the pieces of a path stand for: none is the root, and a name is a piece that is not empty and
/// neither `.` nor `..`.
proof fn lemma_parts_are_pieces(pieces: Seq<Seq<u8>>, i: int)
    requires
        0 <= i < parts_of(pieces).len(),
    ensures
        parts_of(pieces)[i] != Part::Root,
        parts_of(pieces)[i] matches Part::Name(name) ==> part_of(name, true) == Some(
            Part::Name(name),
        ) && pieces.contains(name),
    decreases pieces.len(),
{
    if pieces.len() > 0 {
        let front = pieces.drop_last();
        if i < parts_of(front).len() {
            lemma_parts_are_pieces(front, i);
            match parts_of(pieces)[i] {
                Part::Name(name) => {
                    let k = choose|k: int| 0 <= k < front.len() && front[k] == name;
                    assert(pieces[k] == name);
                },
                _ => {},
            }
        } else {
            assert(pieces[pieces.len() - 1] == pieces.last());
        }
    }
}

/// A path begins at the root exactly when the root is its first component.
pub proof fn law_absolute_path_has_the_root_first(p: Seq<u8>)
    ensures
        is_absolute(p) <==> components(p).len() > 0 && components(p)[0] == Part::Root,
{
    let named = parts_of(split(p, SEPARATOR));
    if !is_absolute(p) && named.len() > 0 {
        lemma_parts_are_pieces(split(p, SEPARATOR), 0);
    }
}

/// The current directory is a path of one component.
pub proof fn law_current_directory_is_one_component()
    ensures
        components(seq![DOT]) == seq![Part::Current],
{
    let here = seq![DOT];
    assert(!here.contains(SEPARATOR));
    lemma_single_piece(here);
}

/// A file name, taken as a path, has itself as its only component.
pub proof fn law_file_name_is_one_component(p: Seq<u8>, name: Seq<u8>)
    requires
        file_name_of(p) == Some(name),
    ensures
        components(name) == seq![Part::Name(name)],
        !is_absolute(name),
{
    let pieces = split(p, SEPARATOR);
    let named = parts_of(pieces);
    assert(named.len() > 0 && named.last() == Part::Name(name));
    lemma_parts_are_pieces(pieces, named.len() - 1);
    law_pieces_make_the_text(p, SEPARATOR);
    let k = choose|k: int| 0 <= k < pieces.len() && pieces[k] == name;
    assert(!pieces[k].contains(SEPARATOR));
    if is_absolute(name) {
        assert(name.contains(name[0]));
    }
    lemma_single_piece(name);
}

/// Taking a file name from a directory adds it to the components of the directory.
pub proof fn law_joined_file_name_comes_last(base: Seq<u8>, p: Seq<u8>, name: Seq<u8>)
    requires
        file_name_of(p) == Some(name),
    ensures
        components(joined(base, name)) == components(base).push(Part::Name(name)),
{
    law_file_name_is_one_component(p, name);
    if base.len() > 0 {
        law_join_descends(base, name);
        assert(without_current(components(name)) =~= components(name));
        assert(components(base) + seq![Part::Name(name)] =~= components(base).push(
            Part::Name(name),
        ));
    } else {
        assert(base + name =~= name);
        lemma_single_piece(base);
        assert(components(joined(base, name)) =~= components(base).push(Part::Name(name)));
    }
}

/// What follows a separator adds to the components of a path what it stands for: a name adds itself, `..`
/// adds the step to the parent, and neither `.` nor nothing adds anything.
pub proof fn law_components_follow_one_another(p: Seq<u8>, name: Seq<u8>)
    requires
        p.len() > 0,
        name.len() > 0,
        !name.contains(47),
        name != seq![46u8],
        name != seq![46u8, 46u8],
    ensures
        components(p.push(47) + name) == components(p).push(Part::Name(name)),
        components(p.push(47)) == components(p),
        components(p.push(47) + seq![46u8]) == components(p),
        components(p.push(47) + seq![46u8, 46u8]) == components(p).push(Part::Parent),
{
    lemma_piece_added(p, name);
    lemma_piece_added(p, Seq::empty());
    lemma_piece_added(p, seq![46u8]);
    lemma_piece_added(p, seq![46u8, 46u8]);
    assert(p.push(47) + Seq::<u8>::empty() =~= p.push(47));
    assert(seq![46u8].len() != seq![46u8, 46u8].len());
}

proof fn lemma_piece_added(p: Seq<u8>, piece: Seq<u8>)
    requires
        p.len() > 0,
        !piece.contains(SEPARATOR),
    ensures
        components(p.push(SEPARATOR) + piece) == match part_of(piece, false) {
            Some(part) => components(p).push(part),
            None => components(p),
        },
{
    let whole = p.push(SEPARATOR) + piece;
    lemma_split_whole(piece, SEPARATOR);
    lemma_split_joined(p, SEPARATOR, piece);
    lemma_split_len(p, SEPARATOR);
    let before = split(p, SEPARATOR);
    assert(split(whole, SEPARATOR) =~= before.push(piece));
    assert(before.push(piece).drop_last() =~= before);
    assert(is_absolute(whole) == is_absolute(p));
    assert(components(whole) =~= match part_of(piece, false) {
        Some(part) => components(p).push(part),
        None => components(p),
    });
}

/// A path without a separator is a name, unless it is `.` or `..`; a separator alone is the root, and
/// nothing has no components.
pub proof fn law_single_components(name: Seq<u8>)
    requires
        name.len() > 0,
        !name.contains(47),
        name != seq![46u8],
        name != seq![46u8, 46u8],
    ensures
        components(name) == seq![Part::Name(name)],
        components(seq![46u8]) == seq![Part::Current],
        components(seq![46u8, 46u8]) == seq![Part::Parent],
        components(seq![47u8]) == seq![Part::Root],
        components(Seq::empty()) == Seq::<Part>::empty(),
{
    lemma_single_piece(name);
    lemma_single_piece(seq![46u8]);
    lemma_single_piece(seq![46u8, 46u8]);
    lemma_single_piece(Seq::empty());
    assert(seq![46u8].len() != seq![46u8, 46u8].len());
    let root = seq![47u8];
    lemma_split_whole(Seq::empty(), SEPARATOR);
    lemma_split_joined(Seq::empty(), SEPARATOR, Seq::empty());
    assert(Seq::<u8>::empty().push(SEPARATOR) + Seq::<u8>::empty() =~= root);
    let pieces = split(root, SEPARATOR);
    assert(pieces =~= seq![Seq::empty(), Seq::empty()]);
    assert(pieces.drop_last() =~= seq![Seq::<u8>::empty()]);
    assert(parts_of(pieces.drop_last()) =~= Seq::empty()) by {
        let only = seq![Seq::<u8>::empty()];
        assert(only.drop_last() =~= Seq::empty());
        assert(parts_of(only.drop_last()) =~= Seq::empty());
    }
    assert(components(root) =~= seq![Part::Root]);
}

/// A path lies within another exactly when it goes on where the other ends.
pub proof fn law_path_within_goes_on(p: Seq<u8>, root: Seq<u8>)
    ensures
        is_within(p, root) <==> exists|rest: Seq<Part>| #[trigger]
            (components(root) + rest) == components(p),
{
    let (x, y) = (components(p), components(root));
    if is_within(p, root) {
        let rest = x.skip(y.len() as int);
        assert(y + rest =~= x);
    }
    if exists|rest: Seq<Part>| #[trigger] (components(root) + rest) == components(p) {
        let rest = choose|rest: Seq<Part>| #[trigger] (components(root) + rest) == components(p);
        assert(x.subrange(0, y.len() as int) =~= y);
    }
}

/// The file name and the directory of a path make up the path; `..`, the root and nothing have no file
/// name, and the root and nothing stand in no directory.
pub proof fn law_directory_and_file_name_make_the_path(p: Seq<u8>, name: Seq<u8>, dir: Seq<Part>)
    ensures
        file_name_of(p) == Some(name) && parent_of(p) == Some(dir) <==> components(p) == dir.push(
            Part::Name(name),
        ),
        components(p) == dir.push(Part::Parent) ==> file_name_of(p) is None && parent_of(p) == Some(
            dir,
        ),
        components(p) == seq![Part::Root] ==> file_name_of(p) is None && parent_of(p) is None,
        components(p) == Seq::<Part>::empty() ==> file_name_of(p) is None && parent_of(p) is None,
{
    let all = components(p);
    if all.len() > 0 {
        assert(all.drop_last().push(all.last()) =~= all);
    }
    assert(dir.push(Part::Name(name)).drop_last() =~= dir);
    assert(dir.push(Part::Parent).drop_last() =~= dir);
}

proof fn lemma_last_dot(stem: Seq<u8>, ext: Seq<u8>)
    requires
        !ext.contains(46),
    ensures
        last_dot(stem.push(46) + ext) == stem.len(),
        last_dot(ext) == -1,
    decreases ext.len(),
{
    let name = stem.push(46) + ext;
    if ext.len() > 0 {
        let front = ext.drop_last();
        assert(ext.last() == ext[ext.len() - 1]);
        assert forall|i: int| 0 <= i < front.len() implies front[i] != 46 by {
            assert(front[i] == ext[i]);
        }
        lemma_last_dot(stem, front);
        assert(name.drop_last() =~= stem.push(46) + front);
        assert(name.last() == ext.last());
    } else {
        assert(name =~= stem.push(46));
    }
}

/// The extension is what follows the last dot of the file name, where something stands before the dot; a
/// name without a dot, or with its only dot in front, has none, and neither has a path without a name.
pub proof fn law_extension_follows_the_last_dot(p: Seq<u8>, stem: Seq<u8>, ext: Seq<u8>)
    requires
        !ext.contains(46),
    ensures
        stem.len() > 0 && file_name_of(p) == Some(stem.push(46) + ext) ==> extension_of(p) == Some(
            ext,
        ),
        file_name_of(p) == Some(Seq::<u8>::empty().push(46) + ext) ==> extension_of(p) is None,
        file_name_of(p) == Some(ext) ==> extension_of(p) is None,
        file_name_of(p) is None ==> extension_of(p) is None,
{
    lemma_last_dot(stem, ext);
    lemma_last_dot(Seq::empty(), ext);
    let name = stem.push(46) + ext;
    assert(name.skip(stem.len() as int + 1) =~= ext);
}

/// Taking an absolute path from a directory gives the absolute path; a relative one is put behind the
/// directory, with one separator between the two.
pub proof fn law_joining_puts_one_behind_the_other(base: Seq<u8>, rel: Seq<u8>)
    ensures
        rel.len() > 0 && rel[0] == 47 ==> joined(base, rel) == rel,
        base.len() > 0 && base.last() != 47 && (rel.len() == 0 || rel[0] != 47) ==> joined(base, rel)
            == base.push(47) + rel,
        base.len() > 0 && base.last() == 47 && (rel.len() == 0 || rel[0] != 47) ==> joined(base, rel)
            == base + rel,
        base.len() == 0 ==> joined(base, rel) == rel,
{
    if base.len() == 0 {
        assert(base + rel =~= rel);
    }
}

/// A component that was taken from a path is the one that contracts speak of.
pub proof fn law_component_is_seen_as_it_is(name: Vec<u8>, list: Seq<Component>, i: int)
    ensures
        Component::Normal(name)@ == Part::Name(name@),
        Component::RootDir@ == Part::Root,
        Component::CurDir@ == Part::Current,
        Component::ParentDir@ == Part::Parent,
        parts(list).len() == list.len(),
        0 <= i < list.len() ==> parts(list)[i] == list[i]@,
{
}

} // verus!
