//! Paths, resolved lexically: `.` and `..` are worked out on the text alone,
//! so `/work/../etc` is `/etc`. Symlinks are not followed.

use crate::text::{
    chars_of, join, joined, lemma_text_order, lemma_text_strict, lemma_text_trans, same,
    text_before, text_lt,
};
use crate::views::{views, views_empty, views_push};
use vstd::prelude::*;

verus! {

broadcast use {views_push, views_empty};

// ---- The model ---------------------------------------------------------

/// A resolved path: whether it starts at the root, and the names on the
/// way.
#[verifier::ext_equal]
pub struct PathView {
    pub absolute: bool,
    pub names: Seq<Seq<char>>,
}

/// The pieces of TEXT between the slashes.
pub open spec fn pieces(text: Seq<char>) -> Seq<Seq<char>>
    decreases text.len(),
{
    if text.len() == 0 {
        seq![Seq::empty()]
    } else {
        let before = pieces(text.drop_last());
        if text.last() == '/' {
            before.push(Seq::empty())
        } else {
            before.drop_last().push(before.last().push(text.last()))
        }
    }
}

/// One step along a path: `..` goes back, and an empty piece or `.` goes
/// nowhere.
pub open spec fn stepped(names: Seq<Seq<char>>, piece: Seq<char>) -> Seq<Seq<char>> {
    if piece.len() == 0 || piece == "."@ {
        names
    } else if piece == ".."@ {
        if names.len() > 0 {
            names.drop_last()
        } else {
            names
        }
    } else {
        names.push(piece)
    }
}

/// All the steps of a list of pieces.
pub open spec fn walked(names: Seq<Seq<char>>, steps: Seq<Seq<char>>) -> Seq<Seq<char>>
    decreases steps.len(),
{
    if steps.len() == 0 {
        names
    } else {
        stepped(walked(names, steps.drop_last()), steps.last())
    }
}

/// A path that starts at the root.
pub open spec fn is_absolute_text(text: Seq<char>) -> bool {
    text.len() > 0 && text[0] == '/'
}

/// What PATH resolves to.
pub open spec fn normalized(path: Seq<char>) -> PathView {
    PathView {
        absolute: is_absolute_text(path),
        names: walked(Seq::empty(), pieces(path)),
    }
}

/// What PATH resolves to from CWD.
pub open spec fn resolved(cwd: Seq<char>, path: Seq<char>) -> PathView {
    if is_absolute_text(path) {
        normalized(path)
    } else {
        PathView {
            absolute: is_absolute_text(cwd),
            names: walked(normalized(cwd).names, pieces(path)),
        }
    }
}

/// A is a prefix of B.
pub open spec fn is_prefix(a: Seq<Seq<char>>, b: Seq<Seq<char>>) -> bool {
    a.len() <= b.len() && b.take(a.len() as int) == a
}

/// PATH is DIR or under it.
pub open spec fn is_under(path: PathView, dir: PathView) -> bool {
    (path.absolute == dir.absolute || (!dir.absolute && dir.names.len() == 0)) && is_prefix(
        dir.names,
        path.names,
    )
}

/// NAME in the directory DIR.
pub open spec fn in_dir(dir: Seq<char>, name: Seq<char>) -> Seq<char> {
    if dir.len() == 0 || dir.last() == '/' {
        dir + name
    } else {
        dir + "/"@ + name
    }
}

/// The path of NAME, a relative one, in the directory DIR.
pub fn join_path(dir: &str, name: &str) -> (r: String)
    ensures
        r@ == in_dir(dir@, name@),
{
    let v = chars_of(dir);
    let mut r = dir.to_owned();
    if v.len() > 0 && v[v.len() - 1] != '/' {
        r.append("/");
    }
    r.append(name);
    r
}

// ---- The order of paths ------------------------------------------------

/// Lists of names in the order of their names.
pub open spec fn names_lt(a: Seq<Seq<char>>, b: Seq<Seq<char>>) -> bool
    decreases b.len(),
{
    if b.len() == 0 {
        false
    } else if a.len() == 0 {
        true
    } else if a[0] == b[0] {
        names_lt(a.skip(1), b.skip(1))
    } else {
        text_lt(a[0], b[0])
    }
}

/// Paths in the order of their components, the root before any name.
pub open spec fn path_lt(a: PathView, b: PathView) -> bool {
    if a.absolute == b.absolute {
        names_lt(a.names, b.names)
    } else if a.absolute {
        b.names.len() > 0
    } else {
        a.names.len() == 0
    }
}

/// Each path of the list comes before those after it.
pub open spec fn ascending(paths: Seq<PathView>) -> bool {
    forall|i: int, j: int|
        0 <= i < j < paths.len() ==> path_lt(#[trigger] paths[i], #[trigger] paths[j])
}

proof fn lemma_names_strict(a: Seq<Seq<char>>)
    ensures
        !names_lt(a, a),
    decreases a.len(),
{
    if a.len() > 0 {
        lemma_names_strict(a.skip(1));
    }
}

proof fn lemma_names_order(a: Seq<Seq<char>>, b: Seq<Seq<char>>)
    ensures
        names_lt(a, b) ==> !names_lt(b, a),
        !names_lt(a, b) && !names_lt(b, a) ==> a == b,
    decreases a.len() + b.len(),
{
    if a.len() > 0 && b.len() > 0 {
        lemma_text_order(a[0], b[0]);
        lemma_text_order(b[0], a[0]);
        if a[0] == b[0] {
            lemma_names_order(a.skip(1), b.skip(1));
            if a.skip(1) == b.skip(1) {
                assert(a =~= seq![a[0]] + a.skip(1));
                assert(b =~= seq![b[0]] + b.skip(1));
            }
        }
    }
    if a.len() == 0 && b.len() == 0 {
        assert(a =~= b);
    }
}

proof fn lemma_names_trans(a: Seq<Seq<char>>, b: Seq<Seq<char>>, c: Seq<Seq<char>>)
    requires
        names_lt(a, b),
        names_lt(b, c),
    ensures
        names_lt(a, c),
    decreases a.len(),
{
    if a.len() > 0 {
        if a[0] == b[0] && b[0] == c[0] {
            lemma_names_trans(a.skip(1), b.skip(1), c.skip(1));
        } else if a[0] != b[0] && b[0] != c[0] {
            lemma_text_trans(a[0], b[0], c[0]);
            lemma_text_strict(a[0]);
        }
    }
}

/// Of two paths, one comes before the other or they are the same; none
/// comes before itself; and the order carries over.
pub proof fn law_paths_are_ordered(a: PathView, b: PathView, c: PathView)
    ensures
        !path_lt(a, a),
        path_lt(a, b) || path_lt(b, a) || a == b,
        path_lt(a, b) ==> !path_lt(b, a),
        path_lt(a, b) && path_lt(b, c) ==> path_lt(a, c),
{
    lemma_names_strict(a.names);
    lemma_names_order(a.names, b.names);
    if path_lt(a, b) && path_lt(b, c) {
        if a.absolute == b.absolute && b.absolute == c.absolute {
            lemma_names_trans(a.names, b.names, c.names);
        }
    }
}

// ---- Resolved paths ----------------------------------------------------

/// A resolved path.
#[derive(Debug, PartialEq, Eq)]
pub struct NormPath {
    pub absolute: bool,
    pub names: Vec<String>,
}

impl View for NormPath {
    type V = PathView;

    open spec fn view(&self) -> PathView {
        PathView { absolute: self.absolute, names: views(self.names@) }
    }
}

/// The resolved paths of a list.
pub open spec fn path_views(v: Seq<NormPath>) -> Seq<PathView> {
    Seq::new(v.len(), |i: int| v[i]@)
}

/// Whether PATH starts at the root.
pub fn is_absolute(path: &str) -> (r: bool)
    ensures
        r == is_absolute_text(path@),
{
    let v = chars_of(path);
    v.len() > 0 && v[0] == '/'
}

/// The pieces of TEXT between the slashes.
fn split(text: &str) -> (r: Vec<String>)
    ensures
        views(r@) == pieces(text@),
{
    let v = chars_of(text);
    let mut done: Vec<String> = Vec::new();
    let mut piece = String::new();
    assert(v@.take(0) =~= Seq::<char>::empty());
    assert(views(done@).push(piece@) =~= pieces(v@.take(0)));
    for i in 0..v.len()
        invariant
            views(done@).push(piece@) == pieces(v@.take(i as int)),
    {
        let ghost before = pieces(v@.take(i as int));
        assert(v@.take(i + 1).drop_last() =~= v@.take(i as int));
        assert(before.last() == piece@);
        assert(before.drop_last() =~= views(done@));
        if v[i] == '/' {
            done.push(piece);
            piece = String::new();
        } else {
            piece.push(v[i]);
        }
    }
    assert(v@.take(v@.len() as int) =~= v@);
    done.push(piece);
    done
}

/// Walks on along TEXT.
fn walk(names: &mut Vec<String>, text: &str)
    ensures
        views(final(names)@) == walked(views(old(names)@), pieces(text@)),
{
    let steps = split(text);
    let ghost all = views(steps@);
    let ghost start = views(names@);
    assert(all.take(0) =~= Seq::<Seq<char>>::empty());
    for i in 0..steps.len()
        invariant
            all == views(steps@),
            views(names@) == walked(start, all.take(i as int)),
    {
        assert(all.take(i + 1).drop_last() =~= all.take(i as int));
        let ghost was = views(names@);
        let piece = steps[i].as_str();
        if piece.is_empty() || same(piece, ".") {
        } else if same(piece, "..") {
            if names.len() > 0 {
                let _ = names.pop();
                assert(views(names@) =~= was.drop_last());
            }
        } else {
            names.push(steps[i].clone());
        }
    }
    assert(all.take(steps@.len() as int) =~= all);
}

/// Resolves `.` and `..` lexically, so `/work/../etc` is `/etc`. Symlinks
/// are not followed: the agent can plant them, and this is not the
/// security boundary.
pub fn normalize(path: &str) -> (r: NormPath)
    ensures
        r@ == normalized(path@),
{
    let mut names: Vec<String> = Vec::new();
    walk(&mut names, path);
    NormPath { absolute: is_absolute(path), names }
}

/// Resolves PATH from CWD.
pub fn resolve(cwd: &str, path: &str) -> (r: NormPath)
    ensures
        r@ == resolved(cwd@, path@),
{
    if is_absolute(path) {
        normalize(path)
    } else {
        let dir = normalize(cwd);
        let mut names = dir.names;
        walk(&mut names, path);
        NormPath { absolute: dir.absolute, names }
    }
}

fn names_before(x: &Vec<String>, y: &Vec<String>) -> (r: bool)
    ensures
        r == names_lt(views(x@), views(y@)),
{
    let ghost a = views(x@);
    let ghost b = views(y@);
    let mut i: usize = 0;
    assert(a.skip(0) =~= a);
    assert(b.skip(0) =~= b);
    while i < x.len() && i < y.len() && same(x[i].as_str(), y[i].as_str())
        invariant
            a == views(x@),
            b == views(y@),
            i <= x@.len(),
            i <= y@.len(),
            names_lt(a, b) == names_lt(a.skip(i as int), b.skip(i as int)),
        decreases x@.len() - i,
    {
        assert(a.skip(i as int)[0] == x@[i as int]@);
        assert(b.skip(i as int)[0] == y@[i as int]@);
        assert(a.skip(i as int).skip(1) =~= a.skip(i + 1));
        assert(b.skip(i as int).skip(1) =~= b.skip(i + 1));
        i += 1;
    }
    if i >= y.len() {
        false
    } else if i >= x.len() {
        true
    } else {
        assert(a.skip(i as int)[0] == x@[i as int]@);
        assert(b.skip(i as int)[0] == y@[i as int]@);
        text_before(x[i].as_str(), y[i].as_str())
    }
}

fn same_names(x: &Vec<String>, y: &Vec<String>) -> (r: bool)
    ensures
        r == (views(x@) == views(y@)),
{
    assert(views(x@).len() == x@.len() && views(y@).len() == y@.len());
    x.len() == y.len() && begins(y, x)
}

/// Whether NAMES start with DIR.
fn begins(names: &Vec<String>, dir: &Vec<String>) -> (r: bool)
    ensures
        r == is_prefix(views(dir@), views(names@)),
        dir@.len() == names@.len() ==> r == (views(names@) == views(dir@)),
{
    if dir.len() > names.len() {
        return false;
    }
    for i in 0..dir.len()
        invariant
            dir@.len() <= names@.len(),
            forall|k: int| 0 <= k < i ==> views(names@)[k] == #[trigger] views(dir@)[k],
    {
        if !same(names[i].as_str(), dir[i].as_str()) {
            assert(views(names@).take(dir@.len() as int)[i as int] != views(dir@)[i as int]);
            return false;
        }
    }
    assert(views(names@).take(dir@.len() as int) =~= views(dir@));
    if dir.len() == names.len() {
        assert(views(names@) =~= views(dir@));
    }
    true
}

impl NormPath {
    /// Whether this path is DIR or under it.
    pub fn starts_with(&self, dir: &NormPath) -> (r: bool)
        ensures
            r == is_under(self@, dir@),
    {
        (self.absolute == dir.absolute || (!dir.absolute && dir.names.len() == 0)) && begins(
            &self.names,
            &dir.names,
        )
    }

    /// Whether this path comes before OTHER.
    fn before(&self, other: &NormPath) -> (r: bool)
        ensures
            r == path_lt(self@, other@),
    {
        if self.absolute == other.absolute {
            names_before(&self.names, &other.names)
        } else if self.absolute {
            other.names.len() > 0
        } else {
            self.names.len() == 0
        }
    }

    /// The path as text.
    pub fn to_text(&self) -> (r: String)
        ensures
            r@ == path_text(self@),
    {
        let mut s = if self.absolute {
            "/".to_owned()
        } else {
            "".to_owned()
        };
        s.append(join(&self.names, "/").as_str());
        s
    }
}

/// A path as text.
pub open spec fn path_text(p: PathView) -> Seq<char> {
    (if p.absolute {
        "/"@
    } else {
        ""@
    }) + joined(p.names, "/"@)
}

/// Adds PATH to the ascending LIST, unless it is there.
pub fn add_path(list: &mut Vec<NormPath>, path: NormPath)
    requires
        ascending(path_views(old(list)@)),
    ensures
        ascending(path_views(final(list)@)),
        forall|p: PathView|
            #![trigger path_views(final(list)@).contains(p)]
            path_views(final(list)@).contains(p) <==> path_views(old(list)@).contains(p) || p
                == path@,
{
    let ghost was = path_views(list@);
    let mut i: usize = 0;
    while i < list.len() && list[i].before(&path)
        invariant
            i <= list@.len(),
            was == path_views(list@),
            forall|k: int| 0 <= k < i ==> path_lt(#[trigger] was[k], path@),
        decreases list@.len() - i,
    {
        assert(was[i as int] == list@[i as int]@);
        i += 1;
    }
    if i < list.len() && list[i].absolute == path.absolute && same_names(
        &list[i].names,
        &path.names,
    ) {
        assert(was[i as int] == path@);
        return ;
    }
    let ghost p = path@;
    list.insert(i, path);
    let ghost now = path_views(list@);
    proof {
        assert(now =~= was.insert(i as int, p));
        assert forall|k: int| i <= k < was.len() implies path_lt(p, #[trigger] was[k]) by {
            law_paths_are_ordered(was[i as int], p, p);
            law_paths_are_ordered(p, was[i as int], was[k]);
        }
        assert forall|a: int, b: int| 0 <= a < b < now.len() implies path_lt(
            #[trigger] now[a],
            #[trigger] now[b],
        ) by {
            if a < i && b == i {
                assert(was[a] == now[a]);
            } else if a == i {
                assert(was[b - 1] == now[b]);
            } else if a < i && b < i {
                assert(was[a] == now[a] && was[b] == now[b]);
            } else if a < i {
                assert(was[a] == now[a] && was[b - 1] == now[b]);
            } else {
                assert(was[a - 1] == now[a] && was[b - 1] == now[b]);
            }
        }
        assert(now[i as int] == p);
        assert forall|q: PathView| #[trigger] now.contains(q) implies was.contains(q) || q
            == p by {
            let k = choose|k: int| 0 <= k < now.len() && now[k] == q;
            if k < i {
                assert(was[k] == q);
            } else if k > i {
                assert(was[k - 1] == q);
            }
        }
        assert forall|q: PathView| was.contains(q) || q == p implies #[trigger] now.contains(
            q,
        ) by {
            if was.contains(q) {
                let k = choose|k: int| 0 <= k < was.len() && was[k] == q;
                if k < i {
                    assert(now[k] == q);
                } else {
                    assert(now[k + 1] == q);
                }
            }
        }
    }
}

// ---- Laws --------------------------------------------------------------

/// A name that a resolved path may hold.
pub open spec fn is_plain(name: Seq<char>) -> bool {
    &&& name.len() > 0
    &&& name != "."@
    &&& name != ".."@
    &&& forall|i: int| 0 <= i < name.len() ==> name[i] != '/'
}

/// Every name of the list is one that a resolved path may hold.
pub open spec fn all_plain(names: Seq<Seq<char>>) -> bool {
    forall|i: int| 0 <= i < names.len() ==> is_plain(#[trigger] names[i])
}

proof fn lemma_pieces_have_no_slash(text: Seq<char>)
    ensures
        pieces(text).len() > 0,
        forall|i: int, j: int|
            0 <= i < pieces(text).len() && 0 <= j < pieces(text)[i].len() ==> (
            #[trigger] pieces(text)[i][j]) != '/',
    decreases text.len(),
{
    if text.len() > 0 {
        let before = pieces(text.drop_last());
        lemma_pieces_have_no_slash(text.drop_last());
        assert forall|i: int, j: int|
            0 <= i < pieces(text).len() && 0 <= j < pieces(text)[i].len() implies (
        #[trigger] pieces(text)[i][j]) != '/' by {
            if text.last() == '/' {
                if i < before.len() {
                    assert(pieces(text)[i] == before[i]);
                }
            } else if i < before.len() - 1 {
                assert(pieces(text)[i] == before[i]);
            } else if j < before.last().len() {
                assert(before[i][j] != '/');
            }
        }
    }
}

proof fn lemma_walk_is_plain(names: Seq<Seq<char>>, steps: Seq<Seq<char>>)
    requires
        all_plain(names),
        forall|i: int, j: int|
            0 <= i < steps.len() && 0 <= j < steps[i].len() ==> (#[trigger] steps[i][j]) != '/',
    ensures
        all_plain(walked(names, steps)),
    decreases steps.len(),
{
    if steps.len() > 0 {
        let before = steps.drop_last();
        assert forall|i: int, j: int|
            0 <= i < before.len() && 0 <= j < before[i].len() implies (#[trigger] before[i][j])
            != '/' by {
            assert(steps[i][j] != '/');
        }
        lemma_walk_is_plain(names, before);
        let piece = steps.last();
        assert forall|j: int| 0 <= j < piece.len() implies piece[j] != '/' by {
            assert(steps[steps.len() - 1][j] != '/');
        }
    }
}

/// A resolved path holds no empty name, no `.` and no `..`, and no slash in
/// a name.
pub proof fn law_normalized_is_plain(path: Seq<char>)
    ensures
        all_plain(normalized(path).names),
{
    lemma_pieces_have_no_slash(path);
    lemma_walk_is_plain(Seq::empty(), pieces(path));
}

/// From an absolute directory, every path resolves to an absolute one, with
/// no `.` or `..` left.
pub proof fn law_resolved_is_absolute(cwd: Seq<char>, path: Seq<char>)
    requires
        is_absolute_text(cwd),
    ensures
        resolved(cwd, path).absolute,
        all_plain(resolved(cwd, path).names),
{
    law_normalized_is_plain(cwd);
    law_normalized_is_plain(path);
    lemma_pieces_have_no_slash(path);
    lemma_walk_is_plain(normalized(cwd).names, pieces(path));
}

proof fn lemma_pieces_of_name(name: Seq<char>)
    requires
        forall|i: int| 0 <= i < name.len() ==> name[i] != '/',
    ensures
        pieces(name) == seq![name],
    decreases name.len(),
{
    if name.len() > 0 {
        let n = name.drop_last();
        assert forall|i: int| 0 <= i < n.len() implies n[i] != '/' by {
            assert(name[i] != '/');
        }
        lemma_pieces_of_name(n);
        assert(name.last() != '/');
        assert(n.push(name.last()) =~= name);
        assert(pieces(name) =~= seq![name]);
    } else {
        assert(name =~= Seq::<char>::empty());
    }
}

proof fn lemma_pieces_append(text: Seq<char>, name: Seq<char>)
    requires
        forall|i: int| 0 <= i < name.len() ==> name[i] != '/',
    ensures
        pieces(text.push('/') + name) == pieces(text).push(name),
    decreases name.len(),
{
    let whole = text.push('/') + name;
    if name.len() == 0 {
        assert(whole =~= text.push('/'));
        assert(whole.drop_last() =~= text);
        assert(name =~= Seq::<char>::empty());
    } else {
        let n = name.drop_last();
        assert forall|i: int| 0 <= i < n.len() implies n[i] != '/' by {
            assert(name[i] != '/');
        }
        lemma_pieces_append(text, n);
        assert(whole.drop_last() =~= text.push('/') + n);
        assert(whole.last() == name.last() && name.last() != '/');
        assert(n.push(name.last()) =~= name);
        assert(pieces(whole) =~= pieces(text).push(name));
    }
}

proof fn lemma_pieces_of_joined(names: Seq<Seq<char>>)
    requires
        all_plain(names),
        names.len() > 0,
    ensures
        pieces(joined(names, seq!['/'])) == names,
    decreases names.len(),
{
    let sep = seq!['/'];
    if names.len() == 1 {
        assert(is_plain(names[0]));
        lemma_pieces_of_name(names[0]);
        assert(names =~= seq![names[0]]);
    } else {
        let before = names.drop_last();
        assert forall|i: int| 0 <= i < before.len() implies is_plain(#[trigger] before[i]) by {
            assert(is_plain(names[i]));
        }
        lemma_pieces_of_joined(before);
        assert(is_plain(names[names.len() - 1]));
        lemma_pieces_append(joined(before, sep), names.last());
        assert(joined(before, sep) + sep =~= joined(before, sep).push('/'));
        assert(before.push(names.last()) =~= names);
    }
}

proof fn lemma_pieces_after_root(text: Seq<char>)
    ensures
        pieces(seq!['/'] + text) == seq![Seq::<char>::empty()] + pieces(text),
    decreases text.len(),
{
    let whole = seq!['/'] + text;
    let first = seq![Seq::<char>::empty()];
    if text.len() == 0 {
        assert(whole.drop_last() =~= text);
        assert(pieces(whole) =~= first + pieces(text));
    } else {
        let t = text.drop_last();
        lemma_pieces_after_root(t);
        lemma_pieces_have_no_slash(t);
        assert(whole.drop_last() =~= seq!['/'] + t);
        assert((first + pieces(t)).last() == pieces(t).last());
        assert((first + pieces(t)).drop_last() =~= first + pieces(t).drop_last());
        assert(pieces(whole) =~= first + pieces(text));
    }
}

proof fn lemma_walk_plain(names: Seq<Seq<char>>, steps: Seq<Seq<char>>)
    requires
        all_plain(steps),
    ensures
        walked(names, steps) == names + steps,
    decreases steps.len(),
{
    if steps.len() == 0 {
        assert(names + steps =~= names);
    } else {
        let before = steps.drop_last();
        assert forall|i: int| 0 <= i < before.len() implies is_plain(#[trigger] before[i]) by {
            assert(is_plain(steps[i]));
        }
        lemma_walk_plain(names, before);
        assert(is_plain(steps[steps.len() - 1]));
        assert((names + before).push(steps.last()) =~= names + steps);
    }
}

proof fn lemma_walk_skips_empty(names: Seq<Seq<char>>, steps: Seq<Seq<char>>)
    ensures
        walked(names, seq![Seq::<char>::empty()] + steps) == walked(names, steps),
    decreases steps.len(),
{
    let all = seq![Seq::<char>::empty()] + steps;
    if steps.len() == 0 {
        assert(all.drop_last() =~= steps);
    } else {
        lemma_walk_skips_empty(names, steps.drop_last());
        assert(all.drop_last() =~= seq![Seq::<char>::empty()] + steps.drop_last());
    }
}

/// A resolved path, written out, resolves to itself.
pub proof fn law_normalize_is_idempotent(path: Seq<char>)
    ensures
        normalized(path_text(normalized(path))) == normalized(path),
{
    let p = normalized(path);
    let sep = seq!['/'];
    let empty = Seq::<Seq<char>>::empty();
    law_normalized_is_plain(path);
    reveal_strlit("/");
    reveal_strlit("");
    assert("/"@ =~= sep);
    assert(""@ =~= Seq::<char>::empty());
    let body = joined(p.names, sep);
    if p.names.len() > 0 {
        lemma_pieces_of_joined(p.names);
        lemma_walk_plain(empty, p.names);
        assert(empty + p.names =~= p.names);
        assert(walked(empty, pieces(body)) == p.names);
    } else {
        assert(p.names =~= empty);
        assert(body =~= Seq::<char>::empty());
        reveal_with_fuel(walked, 3);
        assert(seq![Seq::<char>::empty()].drop_last() =~= empty);
        assert(walked(empty, pieces(body)) == p.names);
    }
    if p.absolute {
        lemma_pieces_after_root(body);
        lemma_walk_skips_empty(empty, pieces(body));
    } else {
        assert(""@ + body =~= body);
        if p.names.len() > 0 {
            lemma_joined_starts_with_first(p.names);
            assert(is_plain(p.names[0]));
        }
    }
}

proof fn lemma_joined_starts_with_first(names: Seq<Seq<char>>)
    requires
        all_plain(names),
        names.len() > 0,
    ensures
        joined(names, seq!['/']).len() > 0,
        joined(names, seq!['/'])[0] == names[0][0],
    decreases names.len(),
{
    assert(is_plain(names[0]));
    if names.len() > 1 {
        let before = names.drop_last();
        assert forall|i: int| 0 <= i < before.len() implies is_plain(#[trigger] before[i]) by {
            assert(is_plain(names[i]));
        }
        lemma_joined_starts_with_first(before);
    }
}

/// A directory is under itself, and what is under a directory that is under
/// another is under that one too.
pub proof fn law_under_is_transitive(a: PathView, b: PathView, c: PathView)
    ensures
        is_under(a, a),
        is_under(a, b) && is_under(b, c) ==> is_under(a, c),
{
    assert(a.names.take(a.names.len() as int) =~= a.names);
    if is_prefix(b.names, a.names) && is_prefix(c.names, b.names) {
        assert(a.names.take(c.names.len() as int) =~= b.names.take(c.names.len() as int));
    }
}

/// A path goes on step by step: an empty step and `.` lead nowhere, `..`
/// leads back (from the root, nowhere), and a name leads into it.
pub proof fn law_paths_go_step_by_step(path: Seq<char>, step: Seq<char>)
    requires
        forall|i: int| 0 <= i < step.len() ==> step[i] != '/',
    ensures
        ({
            let before = normalized(path);
            let after = normalized(path.push('/') + step);
            &&& path.len() > 0 ==> after.absolute == before.absolute
            &&& step.len() == 0 || step == "."@ ==> after.names == before.names
            &&& step == ".."@ ==> after.names == if before.names.len() > 0 {
                before.names.drop_last()
            } else {
                before.names
            }
            &&& step.len() > 0 && step != "."@ && step != ".."@ ==> after.names
                == before.names.push(step)
        }),
{
    lemma_pieces_append(path, step);
    assert(pieces(path).push(step).drop_last() =~= pieces(path));
    reveal_strlit(".");
    reveal_strlit("..");
    assert("."@.len() == 1 && ".."@.len() == 2);
}

/// A path is absolute just where it starts with a slash; the root has no
/// names, and neither has an empty path.
pub proof fn law_absolute_paths_start_with_a_slash(rest: Seq<char>, path: Seq<char>)
    ensures
        normalized(seq!['/'] + rest).absolute,
        path.len() > 0 && path[0] != '/' ==> !normalized(path).absolute,
        !normalized(Seq::empty()).absolute,
        normalized(seq!['/']).names.len() == 0,
        normalized(seq!['/'] + rest).names == normalized(rest).names,
{
    let empty = Seq::<Seq<char>>::empty();
    lemma_pieces_after_root(rest);
    lemma_walk_skips_empty(empty, pieces(rest));
    lemma_pieces_after_root(Seq::empty());
    assert(seq!['/'] + Seq::<char>::empty() =~= seq!['/']);
    lemma_walk_skips_empty(empty, pieces(Seq::empty()));
    reveal_with_fuel(walked, 2);
    assert(seq![Seq::<char>::empty()].drop_last() =~= empty);
}

proof fn lemma_pieces_join(text: Seq<char>, more: Seq<char>)
    ensures
        pieces(text.push('/') + more) == pieces(text) + pieces(more),
    decreases more.len(),
{
    let whole = text.push('/') + more;
    if more.len() == 0 {
        assert(whole =~= text.push('/'));
        assert(whole.drop_last() =~= text);
        assert(pieces(whole) =~= pieces(text) + pieces(more));
    } else {
        let m = more.drop_last();
        lemma_pieces_join(text, m);
        lemma_pieces_have_no_slash(m);
        assert(whole.drop_last() =~= text.push('/') + m);
        assert(whole.last() == more.last());
        assert((pieces(text) + pieces(m)).last() == pieces(m).last());
        assert((pieces(text) + pieces(m)).drop_last() =~= pieces(text) + pieces(m).drop_last());
        assert(pieces(whole) =~= pieces(text) + pieces(more));
    }
}

proof fn lemma_walk_on(names: Seq<Seq<char>>, a: Seq<Seq<char>>, b: Seq<Seq<char>>)
    ensures
        walked(names, a + b) == walked(walked(names, a), b),
    decreases b.len(),
{
    if b.len() == 0 {
        assert(a + b =~= a);
    } else {
        lemma_walk_on(names, a, b.drop_last());
        assert((a + b).drop_last() =~= a + b.drop_last());
    }
}

/// A relative path is taken from the working directory, as if it were written
/// after it; an absolute one stands for itself.
pub proof fn law_relative_paths_start_at_the_cwd(cwd: Seq<char>, path: Seq<char>)
    ensures
        path.len() > 0 && path[0] == '/' ==> resolved(cwd, path) == normalized(path),
        cwd.len() > 0 && (path.len() == 0 || path[0] != '/') ==> resolved(cwd, path) == normalized(
            cwd.push('/') + path,
        ),
{
    lemma_pieces_join(cwd, path);
    lemma_walk_on(Seq::empty(), pieces(cwd), pieces(path));
}

/// A path is under a directory just where its names go on from the
/// directory's.
pub proof fn law_under_is_further_on(dir: PathView, rest: Seq<Seq<char>>, path: PathView)
    requires
        dir.absolute,
    ensures
        is_under(PathView { absolute: true, names: dir.names + rest }, dir),
        !is_under(PathView { absolute: false, names: dir.names + rest }, dir),
        is_under(path, dir) ==> path.absolute && path.names == dir.names + path.names.skip(
            dir.names.len() as int,
        ),
        is_under(path, dir) ==> path.names.len() >= dir.names.len(),
{
    assert((dir.names + rest).take(dir.names.len() as int) =~= dir.names);
    if is_prefix(dir.names, path.names) {
        assert(path.names =~= dir.names + path.names.skip(dir.names.len() as int));
    }
}

/// A name in a directory is written after it, with one slash between.
pub proof fn law_names_follow_their_directory(dir: Seq<char>, name: Seq<char>)
    ensures
        dir.len() > 0 && dir.last() != '/' ==> in_dir(dir, name) == dir.push('/') + name,
        dir.len() > 0 && dir.last() == '/' ==> in_dir(dir, name) == dir + name,
        in_dir(Seq::empty(), name) == name,
{
    reveal_strlit("/");
    assert(dir + "/"@ + name =~= dir.push('/') + name);
    assert(Seq::<char>::empty() + name =~= name);
}

} // verus!
