//! File paths as text: which two name the same file, and how names are joined.

use crate::text::{concat, concat3};
use vstd::prelude::*;

verus! {

/// The pieces of a path between its slashes.
pub open spec fn split_slash(path: Seq<char>) -> Seq<Seq<char>>
    decreases path.len(),
{
    if path.len() == 0 {
        seq![Seq::empty()]
    } else {
        let before = split_slash(path.drop_last());
        if path.last() == '/' {
            before.push(Seq::empty())
        } else {
            before.drop_last().push(before.last().push(path.last()))
        }
    }
}

/// A piece counts as a name unless it is empty or the current directory.
pub open spec fn is_name(piece: Seq<char>) -> bool {
    piece.len() > 0 && piece != seq!['.']
}

/// The names among the pieces of a path, in order.
pub open spec fn names(pieces: Seq<Seq<char>>) -> Seq<Seq<char>>
    decreases pieces.len(),
{
    if pieces.len() == 0 {
        Seq::empty()
    } else if is_name(pieces.last()) {
        names(pieces.drop_last()).push(pieces.last())
    } else {
        names(pieces.drop_last())
    }
}

/// What identifies a path: repeated slashes, a trailing slash and inner `.` pieces do not matter;
/// a leading slash does, and so does a leading `.` piece.
#[verifier::ext_equal]
pub struct PathKey {
    pub rooted: bool,
    pub from_here: bool,
    pub names: Seq<Seq<char>>,
}

/// The identity of a path.
pub open spec fn path_key(path: Seq<char>) -> PathKey {
    PathKey {
        rooted: path.len() > 0 && path[0] == '/',
        from_here: split_slash(path)[0] == seq!['.'],
        names: names(split_slash(path)),
    }
}

/// The characters of each piece.
pub open spec fn deep(pieces: Seq<Vec<char>>) -> Seq<Seq<char>> {
    pieces.map_values(|piece: Vec<char>| piece@)
}

struct Pieces {
    rooted: bool,
    from_here: bool,
    names: Vec<Vec<char>>,
}

impl Pieces {
    spec fn key(&self) -> PathKey {
        PathKey { rooted: self.rooted, from_here: self.from_here, names: deep(self.names@) }
    }
}

fn is_dot(piece: &Vec<char>) -> (r: bool)
    ensures
        r == (piece@ == seq!['.']),
{
    let r: bool = piece.len() == 1 && piece[0] == '.';
    assert(r ==> piece@ =~= seq!['.']);
    r
}

/// Splits a path into what identifies it.
fn pieces_of(path: &str) -> (r: Pieces)
    ensures
        r.key() == path_key(path@),
{
    let len: usize = path.unicode_len();
    let mut found: Vec<Vec<char>> = Vec::new();
    let mut current: Vec<char> = Vec::new();
    let mut from_here: bool = false;
    let mut slash_seen: bool = false;
    let mut i: usize = 0;
    proof {
        assert(path@.take(0) =~= Seq::empty());
        assert(split_slash(path@.take(0)) =~= seq![current@]);
        assert(deep(found@) =~= names(Seq::empty()));
        assert(split_slash(path@.take(0)).drop_last() =~= Seq::empty());
    }
    while i < len
        invariant
            len == path@.len(),
            i <= len,
            split_slash(path@.take(i as int)).len() > 0,
            split_slash(path@.take(i as int)).last() == current@,
            deep(found@) == names(split_slash(path@.take(i as int)).drop_last()),
            slash_seen == (split_slash(path@.take(i as int)).len() > 1),
            from_here == (slash_seen && split_slash(path@.take(i as int))[0] == seq!['.']),
        decreases len - i,
    {
        let c: char = path.get_char(i);
        let ghost before = split_slash(path@.take(i as int));
        let ghost after = split_slash(path@.take(i + 1));
        proof {
            assert(path@.take(i + 1).drop_last() =~= path@.take(i as int));
        }
        if c == '/' {
            proof {
                assert(after == before.push(Seq::empty()));
                assert(after.drop_last() =~= before);
            }
            if !slash_seen {
                from_here = is_dot(&current);
                slash_seen = true;
            }
            if current.len() > 0 && !is_dot(&current) {
                let ghost kept = found@;
                let ghost piece = current;
                found.push(current);
                assert(deep(found@) =~= deep(kept).push(piece@));
            }
            current = Vec::new();
        } else {
            proof {
                assert(after == before.drop_last().push(before.last().push(c)));
                assert(after.drop_last() =~= before.drop_last());
            }
            current.push(c);
        }
        i = i + 1;
    }
    proof {
        assert(path@.take(len as int) =~= path@);
    }
    if !slash_seen {
        from_here = is_dot(&current);
    }
    if current.len() > 0 && !is_dot(&current) {
        let ghost kept = found@;
        let ghost piece = current;
        found.push(current);
        assert(deep(found@) =~= deep(kept).push(piece@));
    }
    let rooted: bool = len > 0 && path.get_char(0) == '/';
    Pieces { rooted, from_here, names: found }
}

fn same_piece(a: &Vec<char>, b: &Vec<char>) -> (r: bool)
    ensures
        r == (a@ == b@),
{
    if a.len() != b.len() {
        return false;
    }
    let mut i: usize = 0;
    while i < a.len()
        invariant
            a@.len() == b@.len(),
            i <= a@.len(),
            forall|k: int| 0 <= k < i ==> a@[k] == b@[k],
        decreases a@.len() - i,
    {
        if a[i] != b[i] {
            return false;
        }
        i = i + 1;
    }
    assert(a@ =~= b@);
    true
}

/// Tells whether two paths name the same file, as far as their text shows.
pub fn same_path(a: &str, b: &str) -> (r: bool)
    ensures
        r == (path_key(a@) == path_key(b@)),
{
    let x = pieces_of(a);
    let y = pieces_of(b);
    if x.rooted != y.rooted || x.from_here != y.from_here || x.names.len() != y.names.len() {
        assert(deep(x.names@).len() == x.names@.len());
        assert(deep(y.names@).len() == y.names@.len());
        return false;
    }
    let mut i: usize = 0;
    while i < x.names.len()
        invariant
            x.key() == path_key(a@),
            y.key() == path_key(b@),
            x.names@.len() == y.names@.len(),
            i <= x.names@.len(),
            forall|k: int| 0 <= k < i ==> x.names@[k]@ == y.names@[k]@,
        decreases x.names@.len() - i,
    {
        if !same_piece(&x.names[i], &y.names[i]) {
            assert(deep(x.names@)[i as int] != deep(y.names@)[i as int]);
            return false;
        }
        i = i + 1;
    }
    assert(deep(x.names@) =~= deep(y.names@));
    true
}

/// A directory followed by the name of an entry in it. There is one slash between the two unless
/// the directory is empty or ends in one; a name that starts with a slash stands alone.
pub open spec fn joined(dir: Seq<char>, name: Seq<char>) -> Seq<char> {
    if name.len() > 0 && name[0] == '/' {
        name
    } else if dir.len() == 0 || dir.last() == '/' {
        dir + name
    } else {
        dir + seq!['/'] + name
    }
}

/// A name that is a single piece of a path.
pub open spec fn is_entry_name(name: Seq<char>) -> bool {
    is_name(name) && forall|i: int| 0 <= i < name.len() ==> name[i] != '/'
}

/// A path that goes on after a slash with a piece.
proof fn lemma_split_after_slash(path: Seq<char>, piece: Seq<char>)
    requires
        forall|i: int| 0 <= i < piece.len() ==> piece[i] != '/',
    ensures
        split_slash(path.push('/') + piece) == split_slash(path).push(piece),
    decreases piece.len(),
{
    let whole = path.push('/') + piece;
    if piece.len() == 0 {
        assert(whole.drop_last() =~= path);
        assert(piece =~= Seq::empty());
    } else {
        let shorter = piece.drop_last();
        lemma_split_after_slash(path, shorter);
        assert(whole.drop_last() =~= path.push('/') + shorter);
        let before = split_slash(path).push(shorter);
        assert(before.drop_last() =~= split_slash(path));
        assert(shorter.push(piece.last()) =~= piece);
    }
}

/// A path without a slash is a single piece.
proof fn lemma_split_without_slash(piece: Seq<char>)
    requires
        forall|i: int| 0 <= i < piece.len() ==> piece[i] != '/',
    ensures
        split_slash(piece) == seq![piece],
    decreases piece.len(),
{
    if piece.len() == 0 {
        assert(piece =~= Seq::empty());
    } else {
        let shorter = piece.drop_last();
        lemma_split_without_slash(shorter);
        assert(shorter.push(piece.last()) =~= piece);
        assert(split_slash(piece) =~= seq![piece]);
    }
}

/// Joining adds one name to those of the directory.
pub proof fn law_joined_names(dir: Seq<char>, name: Seq<char>)
    requires
        name.len() > 0,
        name != seq!['.'],
        forall|i: int| 0 <= i < name.len() ==> name[i] != '/',
    ensures
        is_entry_name(name),
        path_key(joined(dir, name)).names == path_key(dir).names.push(name),
{
    if dir.len() == 0 {
        lemma_split_without_slash(name);
        assert(joined(dir, name) =~= name);
        let pieces = split_slash(name);
        assert(pieces.drop_last() =~= Seq::empty());
        assert(split_slash(dir).drop_last() =~= Seq::empty());
        assert(names(split_slash(dir).drop_last()) =~= Seq::empty());
    } else if dir.last() == '/' {
        let parent = dir.drop_last();
        lemma_split_after_slash(parent, name);
        assert(joined(dir, name) =~= parent.push('/') + name);
        let pieces = split_slash(parent).push(name);
        assert(pieces.drop_last() =~= split_slash(parent));
        assert(split_slash(dir).drop_last() =~= split_slash(parent));
        assert(names(split_slash(dir)) =~= names(split_slash(parent)));
    } else {
        lemma_split_after_slash(dir, name);
        assert(joined(dir, name) =~= dir.push('/') + name);
        let pieces = split_slash(dir).push(name);
        assert(pieces.drop_last() =~= split_slash(dir));
    }
}

/// Joins a directory and the name of an entry in it.
pub fn join(dir: &str, name: &str) -> (r: String)
    ensures
        r@ == joined(dir@, name@),
{
    let dir_len: usize = dir.unicode_len();
    let name_len: usize = name.unicode_len();
    if name_len > 0 && name.get_char(0) == '/' {
        name.to_owned()
    } else if dir_len == 0 || dir.get_char(dir_len - 1) == '/' {
        concat(dir, name)
    } else {
        proof {
            reveal_strlit("/");
            assert("/"@ =~= seq!['/']);
        }
        concat3(dir, "/", name)
    }
}

/// A path that goes on after a slash has the pieces of both sides.
proof fn lemma_split_concat(path: Seq<char>, rest: Seq<char>)
    ensures
        split_slash(path.push('/') + rest) == split_slash(path) + split_slash(rest),
        split_slash(path).len() > 0,
    decreases rest.len(),
{
    let whole = path.push('/') + rest;
    lemma_split_not_empty(path);
    if rest.len() == 0 {
        assert(whole.drop_last() =~= path);
        assert(split_slash(whole) =~= split_slash(path) + split_slash(rest));
    } else {
        let shorter = rest.drop_last();
        lemma_split_concat(path, shorter);
        lemma_split_not_empty(shorter);
        assert(whole.drop_last() =~= path.push('/') + shorter);
        let before = split_slash(path) + split_slash(shorter);
        assert(before.drop_last() =~= split_slash(path) + split_slash(shorter).drop_last());
        assert(before.last() == split_slash(shorter).last());
        assert(split_slash(whole) =~= split_slash(path) + split_slash(rest));
    }
}

proof fn lemma_split_not_empty(path: Seq<char>)
    ensures
        split_slash(path).len() > 0,
    decreases path.len(),
{
    if path.len() > 0 {
        lemma_split_not_empty(path.drop_last());
    }
}

proof fn lemma_names_concat(a: Seq<Seq<char>>, b: Seq<Seq<char>>)
    ensures
        names(a + b) == names(a) + names(b),
    decreases b.len(),
{
    if b.len() == 0 {
        assert(a + b =~= a);
        assert(names(a) + names(b) =~= names(a));
    } else {
        lemma_names_concat(a, b.drop_last());
        assert((a + b).drop_last() =~= a + b.drop_last());
        assert(names(a + b) =~= names(a) + names(b));
    }
}

/// The first piece of a path goes up to its first slash, or to its end.
proof fn lemma_first_piece(path: Seq<char>)
    ensures
        split_slash(path).len() > 0,
        split_slash(path)[0].len() <= path.len(),
        path.take(split_slash(path)[0].len() as int) == split_slash(path)[0],
        forall|i: int| 0 <= i < split_slash(path)[0].len() ==> #[trigger] path[i] != '/',
        split_slash(path)[0].len() < path.len() ==> path[split_slash(path)[0].len() as int] == '/',
        split_slash(path)[0].len() == path.len() <==> split_slash(path).len() == 1,
    decreases path.len(),
{
    if path.len() > 0 {
        let init = path.drop_last();
        lemma_first_piece(init);
        let first = split_slash(init)[0];
        let n = split_slash(path)[0].len() as int;
        assert forall|i: int| 0 <= i < n implies #[trigger] path[i] != '/' by {
            if i < init.len() {
                assert(init[i] == path[i]);
            }
        }
        if first.len() < init.len() {
            assert(init[first.len() as int] == path[first.len() as int]);
            assert(split_slash(path)[0] == first);
            assert(init.take(n) =~= path.take(n));
        } else if path.last() == '/' {
            assert(split_slash(path)[0] == first);
            assert(init.take(n) =~= path.take(n));
        } else {
            assert(split_slash(path)[0] =~= first.push(path.last()));
            assert(init.take(init.len() as int) =~= init);
            assert(path.take(n) =~= split_slash(path)[0]);
        }
    }
}

/// A path is rooted if it starts with a slash, and goes from here if its first piece is a dot.
pub proof fn law_path_start(path: Seq<char>)
    ensures
        path_key(path).rooted <==> path.len() > 0 && path[0] == '/',
        path_key(path).from_here <==> path.len() > 0 && path[0] == '.' && (path.len() == 1
            || path[1] == '/'),
{
    lemma_first_piece(path);
    let first = split_slash(path)[0];
    if path_key(path).from_here {
        assert(first.len() == 1);
        assert(path.take(1)[0] == path[0]);
    } else if path.len() > 0 && path[0] == '.' && (path.len() == 1 || path[1] == '/') {
        if first.len() == 0 {
            assert(path[0] == '/');
        }
        assert(first.len() == 1);
        assert(first =~= seq!['.']);
    }
}

proof fn lemma_names_of_no_name(piece: Seq<char>)
    requires
        !is_name(piece),
        split_slash(piece) == seq![piece],
    ensures
        names(split_slash(piece)) == Seq::<Seq<char>>::empty(),
{
    let pieces = split_slash(piece);
    assert(pieces.drop_last() =~= Seq::empty());
    assert(names(pieces.drop_last()) =~= Seq::empty());
}

/// How a path is spelled does not matter: a slash more between two parts, a dot between them, and a
/// slash at the end.
pub proof fn law_path_spelling(a: Seq<char>, b: Seq<char>)
    ensures
        path_key(a.push('/').push('/') + b) == path_key(a.push('/') + b),
        path_key(a.push('/').push('.').push('/') + b) == path_key(a.push('/') + b),
        a.len() > 0 ==> path_key(a.push('/')) == path_key(a),
{
    let plain = a.push('/') + b;
    lemma_split_concat(a, b);
    lemma_names_concat(split_slash(a), split_slash(b));
    // a slash more
    let slashed = a.push('/').push('/') + b;
    let empty = Seq::<char>::empty();
    lemma_split_concat(a.push('/'), b);
    lemma_split_concat(a, empty);
    assert(a.push('/') + empty =~= a.push('/'));
    lemma_names_concat(split_slash(a.push('/')), split_slash(b));
    lemma_names_concat(split_slash(a), split_slash(empty));
    lemma_names_of_no_name(empty);
    assert(names(split_slash(a)) + names(split_slash(empty)) =~= names(split_slash(a)));
    assert(slashed[0] == plain[0]);
    assert(path_key(slashed) =~= path_key(plain));
    // a dot between
    let dot = seq!['.'];
    let dotted = a.push('/').push('.').push('/') + b;
    lemma_split_concat(a.push('/').push('.'), b);
    lemma_split_concat(a, dot);
    assert(a.push('/') + dot =~= a.push('/').push('.'));
    lemma_names_concat(split_slash(a.push('/').push('.')), split_slash(b));
    lemma_names_concat(split_slash(a), split_slash(dot));
    lemma_split_without_slash(dot);
    lemma_names_of_no_name(dot);
    assert(names(split_slash(a)) + names(split_slash(dot)) =~= names(split_slash(a)));
    assert(dotted[0] == plain[0]);
    assert(path_key(dotted) =~= path_key(plain));
    // a slash at the end
    if a.len() > 0 {
        assert(a.push('/')[0] == a[0]);
        assert(path_key(a.push('/')) =~= path_key(a));
    }
}

/// The path that names lead to, one in the other.
pub open spec fn path_through(names: Seq<Seq<char>>) -> Seq<char>
    decreases names.len(),
{
    if names.len() == 0 {
        Seq::empty()
    } else {
        joined(path_through(names.drop_last()), names.last())
    }
}

/// Names tell paths apart: a path that leads through names is identified by just these names, in
/// their order.
pub proof fn law_names_identify(list: Seq<Seq<char>>)
    requires
        forall|i: int| 0 <= i < list.len() ==> (#[trigger] list[i]).len() > 0 && list[i] != seq!['.'],
        forall|i: int, j: int|
            0 <= i < list.len() && 0 <= j < list[i].len() ==> #[trigger] list[i][j] != '/',
    ensures
        path_key(path_through(list)).names == list,
        !path_key(path_through(list)).rooted,
    decreases list.len(),
{
    if list.len() == 0 {
        let empty = Seq::<char>::empty();
        assert(split_slash(empty).drop_last() =~= Seq::empty());
        assert(names(split_slash(empty).drop_last()) =~= Seq::empty());
        assert(path_key(path_through(list)).names =~= list);
    } else {
        let init = list.drop_last();
        assert forall|i: int| 0 <= i < init.len() implies (#[trigger] init[i]).len() > 0 && init[i]
            != seq!['.'] by {
            assert(init[i] == list[i]);
        }
        assert forall|i: int, j: int|
            0 <= i < init.len() && 0 <= j < init[i].len() implies #[trigger] init[i][j] != '/' by {
            assert(init[i][j] == list[i][j]);
        }
        law_names_identify(init);
        let name = list.last();
        assert forall|j: int| 0 <= j < name.len() implies name[j] != '/' by {
            assert(list[list.len() - 1][j] != '/');
        }
        law_joined_names(path_through(init), list.last());
        law_joined_start(path_through(init), list.last());
        assert(init.push(list.last()) =~= list);
    }
}

/// Joining keeps where a path starts.
pub proof fn law_joined_start(dir: Seq<char>, name: Seq<char>)
    requires
        name.len() > 0,
        name != seq!['.'],
        forall|i: int| 0 <= i < name.len() ==> name[i] != '/',
    ensures
        path_key(joined(dir, name)).rooted == path_key(dir).rooted,
        path_key(joined(dir, name)).from_here == path_key(dir).from_here,
{
    law_path_start(dir);
    law_path_start(joined(dir, name));
    assert(name[0] != '/');
    if dir.len() == 0 {
        assert(joined(dir, name) =~= name);
        assert(name.len() == 1 ==> name =~= seq![name[0]]);
    } else if dir.last() != '/' {
        assert(joined(dir, name)[0] == dir[0]);
    }
}

/// A name in a directory is spelled as the directory, a slash unless there is one already or none
/// is needed, and the name; a name that starts with a slash stands alone.
pub proof fn law_joined_text(dir: Seq<char>, name: Seq<char>)
    ensures
        name.len() > 0 && name[0] == '/' ==> joined(dir, name) == name,
        !(name.len() > 0 && name[0] == '/') ==> {
            let path = joined(dir, name);
            &&& path.len() >= dir.len() + name.len()
            &&& path.take(dir.len() as int) == dir
            &&& path.skip(path.len() - name.len()) == name
            &&& if dir.len() == 0 || dir.last() == '/' {
                path.len() == dir.len() + name.len()
            } else {
                path.len() == dir.len() + name.len() + 1 && path[dir.len() as int] == '/'
            }
        },
{
    if !(name.len() > 0 && name[0] == '/') {
        let path = joined(dir, name);
        assert(path.take(dir.len() as int) =~= dir);
        assert(path.skip(path.len() - name.len()) =~= name);
    }
}

} // verus!
