//! Unix paths, as text and as lists of components.
use crate::split::{cut, views};
use crate::text::{chars_of, same};
use vstd::prelude::*;

verus! {

// ---------------------------------------------------------------------------
// Paths as text
// ---------------------------------------------------------------------------

/// The path `b` seen from the directory `a`: an absolute path stands for
/// itself, any other is appended behind a slash.
pub open spec fn join_text(a: Seq<char>, b: Seq<char>) -> Seq<char> {
    if b.len() > 0 && b[0] == '/' {
        b
    } else if a.len() == 0 || a.last() == '/' {
        a + b
    } else {
        a + "/"@ + b
    }
}

/// The path `b` seen from the directory `a`.
pub fn joined_text(a: &str, b: &str) -> (r: String)
    ensures
        r@ == join_text(a@, b@),
{
    let x = chars_of(a);
    let y = chars_of(b);
    if y.len() > 0 && y[0] == '/' {
        return b.to_string();
    }
    let mut out = a.to_string();
    if x.len() > 0 && x[x.len() - 1] != '/' {
        out.push_str("/");
    }
    out.push_str(b);
    out
}

// ---------------------------------------------------------------------------
// Paths as components
// ---------------------------------------------------------------------------

/// Whether a piece of a path names a component of its own.
pub open spec fn is_component(piece: Seq<char>) -> bool {
    piece != ""@ && piece != "."@
}

/// The components that the pieces between the slashes of a path name.
pub open spec fn named(pieces: Seq<Seq<char>>) -> Seq<Seq<char>> {
    pieces.filter(|p: Seq<char>| is_component(p))
}

/// The components of a path: a leading slash is a component `/`, a leading
/// single dot of a relative path is kept, empty pieces and other single dots
/// are not components.
pub open spec fn components(path: Seq<char>) -> Seq<Seq<char>> {
    let pieces = crate::split::split(path, '/');
    if path.len() > 0 && path[0] == '/' {
        seq!["/"@] + named(pieces)
    } else if pieces[0] == "."@ {
        seq!["."@] + named(pieces)
    } else {
        named(pieces)
    }
}

/// The components of the path `rest` seen from the directory `base`.
pub open spec fn join_components(base: Seq<Seq<char>>, rest: Seq<char>) -> Seq<Seq<char>> {
    if base.len() == 0 || (rest.len() > 0 && rest[0] == '/') {
        components(rest)
    } else {
        base + named(crate::split::split(rest, '/'))
    }
}

/// The components behind those of `base`, where the path lies below it.
pub open spec fn below(base: Seq<Seq<char>>, path: Seq<Seq<char>>) -> Option<Seq<Seq<char>>> {
    if base.is_prefix_of(path) {
        Some(path.subrange(base.len() as int, path.len() as int))
    } else {
        None
    }
}

/// The components of the directory that holds a path.
pub open spec fn parent_of(path: Seq<Seq<char>>) -> Option<Seq<Seq<char>>> {
    if path.len() == 0 || path.last() == "/"@ {
        None
    } else {
        Some(path.drop_last())
    }
}

/// The last component of a path, where it names a file.
pub open spec fn file_name_of(path: Seq<Seq<char>>) -> Option<Seq<char>> {
    if path.len() == 0 || path.last() == "/"@ || path.last() == "."@ || path.last() == ".."@ {
        None
    } else {
        Some(path.last())
    }
}

/// The text of a path with the given components.
pub open spec fn path_text(path: Seq<Seq<char>>) -> Seq<char> {
    if path.len() > 0 && path[0] == "/"@ {
        "/"@ + crate::split::join(path.subrange(1, path.len() as int), "/"@)
    } else {
        crate::split::join(path, "/"@)
    }
}

/// Whether components are those of a path: only the first one can be `/` or `.`, and
/// no other one holds a slash or is empty.
pub open spec fn is_normal(path: Seq<Seq<char>>) -> bool {
    forall|i: int|
        0 <= i < path.len() ==> {
            ||| i == 0 && (path[i] == "/"@ || path[i] == "."@)
            ||| is_component(#[trigger] path[i]) && !path[i].contains('/')
        }
}

proof fn lemma_named_all(pieces: Seq<Seq<char>>)
    requires
        forall|i: int| 0 <= i < pieces.len() ==> is_component(#[trigger] pieces[i]),
    ensures
        named(pieces) == pieces,
    decreases pieces.len(),
{
    reveal(Seq::filter);
    if pieces.len() > 0 {
        lemma_named_all(pieces.drop_last());
        assert(is_component(pieces.last()));
        assert(pieces.drop_last().push(pieces.last()) =~= pieces);
    } else {
        assert(named(pieces) =~= pieces);
    }
}

proof fn lemma_named_after(first: Seq<char>, pieces: Seq<Seq<char>>)
    requires
        !is_component(first),
    ensures
        named(seq![first] + pieces) == named(pieces),
    decreases pieces.len(),
{
    reveal(Seq::filter);
    let all = seq![first] + pieces;
    if pieces.len() > 0 {
        lemma_named_after(first, pieces.drop_last());
        assert(all.drop_last() =~= seq![first] + pieces.drop_last());
        assert(all.last() == pieces.last());
    } else {
        lemma_named_all(pieces);
        lemma_named_all(all.drop_last());
        assert(all.last() == first);
        assert(all.drop_last() =~= pieces);
    }
}

proof fn lemma_join_start(parts: Seq<Seq<char>>, sep: Seq<char>)
    requires
        parts.len() > 0,
        parts[0].len() > 0,
    ensures
        crate::split::join(parts, sep).len() > 0,
        crate::split::join(parts, sep)[0] == parts[0][0],
    decreases parts.len(),
{
    if parts.len() > 1 {
        lemma_join_start(parts.drop_last(), sep);
    }
}

proof fn lemma_absolute(rest: Seq<Seq<char>>)
    requires
        forall|i: int|
            0 <= i < rest.len() ==> is_component(#[trigger] rest[i]) && !rest[i].contains('/'),
    ensures
        components("/"@ + crate::split::join(rest, "/"@)) == seq!["/"@] + rest,
{
    reveal_strlit("/");
    reveal_strlit("");
    assert("/"@ =~= seq!['/']);
    let tail = crate::split::join(rest, "/"@);
    let text = "/"@ + tail;
    crate::split::lemma_split_concat(""@, '/', tail);
    crate::split::lemma_split_whole(""@, '/');
    assert(""@ + seq!['/'] + tail =~= text);
    let pieces = crate::split::split(tail, '/');
    lemma_named_after(""@, pieces);
    assert(crate::split::split(text, '/') == seq![""@] + pieces);
    assert(named(pieces) == rest) by {
        if rest.len() > 0 {
            crate::split::lemma_split_joined(rest, '/');
            lemma_named_all(rest);
        } else {
            lemma_named_nothing();
            assert(tail =~= ""@);
            assert(rest =~= seq![]);
        }
    }
}

/// An empty text has no components.
proof fn lemma_named_nothing()
    ensures
        crate::split::split(""@, '/') == seq![""@],
        named(seq![""@]) == Seq::<Seq<char>>::empty(),
{
    reveal_strlit("");
    crate::split::lemma_split_whole(""@, '/');
    lemma_named_after(""@, seq![]);
    lemma_named_all(seq![]);
    assert(seq![""@] + Seq::<Seq<char>>::empty() =~= seq![""@]);
}

proof fn lemma_relative(path: Seq<Seq<char>>)
    requires
        is_normal(path),
        path.len() > 0,
        path[0] != "/"@,
    ensures
        components(crate::split::join(path, "/"@)) == path,
{
    reveal_strlit("/");
    reveal_strlit("");
    reveal_strlit(".");
    assert("/"@ =~= seq!['/']);
    let text = crate::split::join(path, "/"@);
    assert(path[0].len() > 0) by {
        if path[0].len() == 0 {
            assert(path[0] =~= ""@);
        }
    }
    assert forall|i: int| 0 <= i < path.len() implies !(#[trigger] path[i]).contains('/') by {
        if path[i] == "."@ {
            assert("."@[0] == '.');
        }
    }
    lemma_join_start(path, "/"@);
    crate::split::lemma_split_joined(path, '/');
    assert(text[0] != '/') by {
        assert(path[0].contains(path[0][0]));
    }
    if path[0] == "."@ {
        let rest = path.subrange(1, path.len() as int);
        assert forall|i: int| 0 <= i < rest.len() implies is_component(#[trigger] rest[i]) by {
            assert(rest[i] == path[i + 1]);
        }
        assert(seq!["."@] + rest =~= path);
        lemma_named_after("."@, rest);
        lemma_named_all(rest);
    } else {
        lemma_named_all(path);
    }
}

/// The text of a path gives its components back.
pub proof fn text_gives_components_back(path: Seq<Seq<char>>)
    requires
        is_normal(path),
    ensures
        components(path_text(path)) == path,
{
    if path.len() == 0 {
        reveal_strlit("");
        reveal_strlit(".");
        lemma_named_nothing();
        assert(path_text(path) =~= ""@);
        assert(path =~= seq![]);
    } else if path[0] == "/"@ {
        let rest = path.subrange(1, path.len() as int);
        assert forall|i: int| 0 <= i < rest.len() implies is_component(#[trigger] rest[i])
            && !rest[i].contains('/') by {
            assert(rest[i] == path[i + 1]);
        }
        lemma_absolute(rest);
        assert(seq!["/"@] + rest =~= path);
    } else {
        lemma_relative(path);
    }
}

/// What a text writes is a path, and one text that writes it is that of its components:
/// two texts of one path have the same text in the end.
pub proof fn components_are_normal(text: Seq<char>)
    ensures
        is_normal(components(text)),
        components(path_text(components(text))) == components(text),
{
    let pieces = crate::split::split(text, '/');
    crate::split::lemma_split_pieces(text, '/', text.len() + 1);
    let names = named(pieces);
    assert forall|i: int| 0 <= i < names.len() implies is_component(#[trigger] names[i])
        && !names[i].contains('/') by {
        lemma_named_from(pieces, i);
    }
    text_gives_components_back(components(text));
}

proof fn lemma_named_from(pieces: Seq<Seq<char>>, i: int)
    requires
        0 <= i < named(pieces).len(),
    ensures
        is_component(named(pieces)[i]),
        pieces.contains(named(pieces)[i]),
    decreases pieces.len(),
{
    reveal(Seq::filter);
    let rest = pieces.drop_last();
    if i < named(rest).len() {
        lemma_named_from(rest, i);
        let j = rest.index_of(named(rest)[i]);
        assert(pieces[j] == rest[j]);
    } else {
        assert(pieces[pieces.len() - 1] == pieces.last());
    }
}

/// The components of the pieces of two lists are those of the one and those of the other.
proof fn lemma_named_concat(a: Seq<Seq<char>>, b: Seq<Seq<char>>)
    ensures
        named(a + b) == named(a) + named(b),
{
    Seq::filter_distributes_over_add(a, b, |p: Seq<char>| is_component(p));
}

/// What comes before the named components of a path.
spec fn lead(text: Seq<char>) -> Seq<Seq<char>> {
    if text.len() > 0 && text[0] == '/' {
        seq!["/"@]
    } else if crate::split::split(text, '/')[0] == "."@ {
        seq!["."@]
    } else {
        seq![]
    }
}

proof fn lemma_lead(text: Seq<char>)
    ensures
        components(text) == lead(text) + named(crate::split::split(text, '/')),
{
    assert(seq![] + named(crate::split::split(text, '/')) =~= named(
        crate::split::split(text, '/'),
    ));
}

/// A text with something behind a slash has its pieces before the others.
proof fn lemma_lead_behind(a: Seq<char>, b: Seq<char>)
    requires
        a.len() > 0,
    ensures
        lead(a + seq!['/'] + b) == lead(a),
        components(a + seq!['/'] + b) == components(a) + named(crate::split::split(b, '/')),
{
    let whole = a + seq!['/'] + b;
    crate::split::lemma_split_concat(a, '/', b);
    let pa = crate::split::split(a, '/');
    let pb = crate::split::split(b, '/');
    assert(pa.len() > 0);
    assert((pa + pb)[0] == pa[0]);
    assert(whole[0] == a[0]);
    lemma_named_concat(pa, pb);
    lemma_lead(a);
    lemma_lead(whole);
    assert(components(whole) =~= components(a) + named(pb));
}

/// What stands behind a slash adds its components.
pub proof fn lemma_behind_slash(a: Seq<char>, b: Seq<char>)
    requires
        a.len() > 0,
    ensures
        components(a + seq!['/'] + b) == components(a) + named(crate::split::split(b, '/')),
{
    lemma_lead_behind(a, b);
}

/// A piece that is no component adds none.
pub proof fn lemma_no_component(piece: Seq<char>, pieces: Seq<Seq<char>>)
    requires
        !is_component(piece),
    ensures
        named(seq![piece] + pieces) == named(pieces),
{
    lemma_named_after(piece, pieces);
}

/// No pieces have no components.
pub proof fn lemma_nothing_named()
    ensures
        named(Seq::empty()) == Seq::<Seq<char>>::empty(),
{
    lemma_named_all(seq![]);
}

/// The text of a path seen from a directory writes the path seen from that directory.
pub proof fn joined_text_gives_joined_components(a: Seq<char>, b: Seq<char>)
    ensures
        components(join_text(a, b)) == join_components(components(a), b),
{
    reveal_strlit("/");
    reveal_strlit("");
    reveal_strlit(".");
    assert("/"@ =~= seq!['/']);
    let pa = crate::split::split(a, '/');
    let pb = crate::split::split(b, '/');
    if b.len() > 0 && b[0] == '/' {
    } else if a.len() == 0 {
        assert(a =~= ""@);
        assert(a + b =~= b);
        lemma_named_nothing();
        lemma_lead(a);
        assert(components(a) =~= seq![]);
    } else {
        assert(components(a).len() > 0) by {
            lemma_lead(a);
            if a[0] != '/' && pa[0] != "."@ {
                lemma_first_piece(a);
                lemma_named_first(pa);
            }
        }
        if a.last() == '/' {
            let c = a.drop_last();
            assert(a =~= c + seq!['/'] + Seq::<char>::empty());
            assert(a + b =~= c + seq!['/'] + b);
            if c.len() > 0 {
                lemma_lead_behind(c, Seq::empty());
                lemma_lead_behind(c, b);
                lemma_named_nothing();
                assert(Seq::<char>::empty() =~= ""@);
                assert(components(c) + Seq::<Seq<char>>::empty() =~= components(c));
            } else {
                assert(c =~= ""@);
                crate::split::lemma_split_concat(c, '/', b);
                crate::split::lemma_split_concat(c, '/', Seq::empty());
                lemma_named_nothing();
                lemma_named_after(""@, pb);
                lemma_named_after(""@, seq![""@]);
                lemma_lead(a + b);
                lemma_lead(a);
                assert(Seq::<char>::empty() =~= ""@);
                assert((a + b)[0] == '/');
                assert(components(a) =~= seq!["/"@]);
            }
        } else {
            lemma_lead_behind(a, b);
        }
    }
}

/// One component seen from a directory stands behind those of the directory.
pub proof fn lemma_join_one(dir: Seq<Seq<char>>, name: Seq<char>)
    requires
        dir.len() > 0,
        is_component(name),
        !name.contains('/'),
    ensures
        join_components(dir, name) == dir.push(name),
{
    crate::split::lemma_split_whole(name, '/');
    lemma_named_all(seq![name]);
    if name.len() > 0 && name[0] == '/' {
        assert(name.contains(name[0]));
    }
    assert(dir + seq![name] =~= dir.push(name));
}

/// The first piece of a text that begins with no slash is not empty.
proof fn lemma_first_piece(a: Seq<char>)
    requires
        a.len() > 0,
        a[0] != '/',
    ensures
        crate::split::split(a, '/')[0].len() > 0,
{
    crate::text::lemma_find_from(a, seq!['/'], 0);
    if let Some(k) = crate::text::find(a, seq!['/']) {
        assert(a.subrange(k, k + 1)[0] == a[k]);
        assert(a.subrange(k, k + 1) == seq!['/']);
        assert(a[k] == '/');
    }
}

/// Pieces of which the first one is a component have one.
proof fn lemma_named_first(pieces: Seq<Seq<char>>)
    requires
        pieces.len() > 0,
        pieces[0].len() > 0,
        pieces[0] != "."@,
    ensures
        named(pieces).len() > 0,
{
    reveal_strlit("");
    reveal(Seq::filter);
    let first = seq![pieces[0]];
    lemma_named_concat(first, pieces.drop_first());
    assert(first + pieces.drop_first() =~= pieces);
    lemma_named_all(first);
}

/// A path on disk: its text and the list of its components. Two paths that differ only
/// in repeated slashes or in single dots are the same path.
#[derive(Debug)]
pub struct DiskPath {
    text: String,
    parts: Vec<String>,
}

impl View for DiskPath {
    type V = Seq<Seq<char>>;

    closed spec fn view(&self) -> Seq<Seq<char>> {
        views(self.parts@)
    }
}

/// A copy of a list of texts.
pub fn copy_texts(v: &Vec<String>) -> (r: Vec<String>)
    ensures
        views(r@) == views(v@),
        r@ == v@,
{
    let r = v.clone();
    proof {
        assert(r@ =~= v@);
    }
    r
}

/// Whether two lists hold the same texts.
pub fn same_texts(a: &Vec<String>, b: &Vec<String>) -> (r: bool)
    ensures
        r == (views(a@) == views(b@)),
{
    if a.len() != b.len() {
        proof {
            assert(views(a@).len() == a@.len() && views(b@).len() == b@.len());
        }
        return false;
    }
    let mut i: usize = 0;
    while i < a.len()
        invariant
            i <= a@.len(),
            a@.len() == b@.len(),
            forall|j: int| 0 <= j < i ==> a@[j]@ == b@[j]@,
        decreases a@.len() - i,
    {
        if !same(&a[i], &b[i]) {
            proof {
                assert(views(a@)[i as int] == a@[i as int]@);
                assert(views(b@)[i as int] == b@[i as int]@);
            }
            return false;
        }
        i = i + 1;
    }
    proof {
        assert(views(a@) =~= views(b@));
    }
    true
}

/// The components among the pieces of a path.
fn named_pieces(s: &str) -> (r: Vec<String>)
    ensures
        views(r@) == named(crate::split::split(s@, '/')),
{
    let pieces = cut(s, '/');
    let mut out: Vec<String> = Vec::new();
    let ghost all = views(pieces@);
    let mut i: usize = 0;
    while i < pieces.len()
        invariant
            i <= pieces@.len(),
            all == views(pieces@),
            views(out@) == named(all.take(i as int)),
        decreases pieces@.len() - i,
    {
        let ghost before = out@;
        proof {
            assert(all.take(i + 1).drop_last() =~= all.take(i as int));
            assert(all.take(i + 1).last() == pieces@[i as int]@);
            reveal(Seq::filter);
        }
        if !same(&pieces[i], "") && !same(&pieces[i], ".") {
            out.push(pieces[i].clone());
            proof {
                assert(views(out@) =~= views(before).push(pieces@[i as int]@));
            }
        }
        i = i + 1;
    }
    proof {
        assert(all.take(all.len() as int) =~= all);
    }
    out
}

/// The components of a path.
fn components_of(s: &str) -> (r: Vec<String>)
    ensures
        views(r@) == components(s@),
{
    let v = chars_of(s);
    let pieces = cut(s, '/');
    let mut names = named_pieces(s);
    let mut parts: Vec<String> = Vec::new();
    proof {
        assert(views(pieces@).len() > 0);
    }
    if v.len() > 0 && v[0] == '/' {
        parts.push("/".to_string());
    } else if same(&pieces[0], ".") {
        parts.push(".".to_string());
    }
    let ghost head = parts@;
    let ghost tail = names@;
    parts.append(&mut names);
    proof {
        assert(views(parts@) =~= views(head) + views(tail));
        assert(views(pieces@)[0] == pieces@[0]@);
        if head.len() > 0 {
            assert(views(head) =~= seq![head[0]@]);
        } else {
            assert(views(head) + views(tail) =~= views(tail));
        }
    }
    parts
}

/// The text of the path with the given components.
fn text_of_parts(parts: &Vec<String>) -> (r: String)
    ensures
        r@ == path_text(views(parts@)),
{
    if parts.len() > 0 && same(&parts[0], "/") {
        let mut rest = copy_texts(parts);
        rest.remove(0);
        proof {
            assert(views(rest@) =~= views(parts@).subrange(1, parts@.len() as int));
        }
        let mut out = "/".to_string();
        out.push_str(&crate::split::joined(&rest, "/"));
        out
    } else {
        crate::split::joined(parts, "/")
    }
}

impl DiskPath {
    /// The text writes the components.
    #[verifier::type_invariant]
    spec fn is_written(&self) -> bool {
        components(self.text@) == views(self.parts@)
    }

    /// The text of the path, as it was given.
    pub closed spec fn shown(&self) -> Seq<char> {
        self.text@
    }

    /// The path that a text writes.
    pub fn from_text(s: &str) -> (r: DiskPath)
        ensures
            r@ == components(s@),
            r.shown() == s@,
    {
        DiskPath { text: s.to_string(), parts: components_of(s) }
    }

    /// The text of the path, as it was given.
    pub fn text(&self) -> (r: String)
        ensures
            r@ == self.shown(),
            components(r@) == self@,
    {
        proof {
            use_type_invariant(self);
        }
        self.text.clone()
    }

    /// The components of the path.
    pub fn parts(&self) -> (r: &Vec<String>)
        ensures
            views(r@) == self@,
    {
        &self.parts
    }

    /// The path of `rest` seen from this directory.
    pub fn join(&self, rest: &str) -> (r: DiskPath)
        ensures
            r@ == join_components(self@, rest@),
            r.shown() == join_text(self.shown(), rest@),
    {
        proof {
            use_type_invariant(self);
            joined_text_gives_joined_components(self.text@, rest@);
        }
        DiskPath::from_text(&joined_text(&self.text, rest))
    }

    /// The components of this path below the directory `base`.
    pub fn relative_to(&self, base: &DiskPath) -> (r: Option<Vec<String>>)
        ensures
            match r {
                None => below(base@, self@) is None,
                Some(v) => below(base@, self@) == Some(views(v@)),
            },
    {
        if base.parts.len() > self.parts.len() {
            return None;
        }
        let mut i: usize = 0;
        while i < base.parts.len()
            invariant
                i <= base.parts@.len() <= self.parts@.len(),
                forall|j: int| 0 <= j < i ==> base.parts@[j]@ == self.parts@[j]@,
            decreases base.parts@.len() - i,
        {
            if !same(&base.parts[i], &self.parts[i]) {
                proof {
                    assert(base@[i as int] == base.parts@[i as int]@);
                    assert(self@.subrange(0, base@.len() as int)[i as int]
                        == self.parts@[i as int]@);
                }
                return None;
            }
            i = i + 1;
        }
        proof {
            assert(base@ =~= self@.subrange(0, base@.len() as int));
        }
        let mut out: Vec<String> = Vec::new();
        while i < self.parts.len()
            invariant
                base.parts@.len() <= i <= self.parts@.len(),
                views(out@) == self@.subrange(base@.len() as int, i as int),
            decreases self.parts@.len() - i,
        {
            let ghost before = out@;
            out.push(self.parts[i].clone());
            proof {
                assert(views(out@) =~= views(before).push(self.parts@[i as int]@));
                assert(self@.subrange(base@.len() as int, i + 1) =~= self@.subrange(
                    base@.len() as int,
                    i as int,
                ).push(self@[i as int]));
            }
            i = i + 1;
        }
        Some(out)
    }

    /// The directory that holds the path.
    pub fn parent(&self) -> (r: Option<DiskPath>)
        ensures
            match r {
                None => parent_of(self@) is None,
                Some(p) => parent_of(self@) == Some(p@),
            },
    {
        if self.parts.len() == 0 || same(&self.parts[self.parts.len() - 1], "/") {
            return None;
        }
        let mut parts = copy_texts(&self.parts);
        parts.pop();
        let text = text_of_parts(&parts);
        proof {
            use_type_invariant(self);
            assert(views(parts@) =~= self@.drop_last());
            components_are_normal(self.text@);
            assert forall|i: int| 0 <= i < views(parts@).len() implies ({
                ||| i == 0 && (views(parts@)[i] == "/"@ || views(parts@)[i] == "."@)
                ||| is_component(#[trigger] views(parts@)[i]) && !views(parts@)[i].contains('/')
            }) by {
                assert(views(parts@)[i] == self@[i]);
            }
            text_gives_components_back(views(parts@));
        }
        Some(DiskPath { text, parts })
    }

    /// The last component of the path, where it names a file.
    pub fn file_name(&self) -> (r: Option<String>)
        ensures
            crate::text::opt_view(r) == file_name_of(self@),
    {
        if self.parts.len() == 0 {
            return None;
        }
        let last = &self.parts[self.parts.len() - 1];
        if same(last, "/") || same(last, ".") || same(last, "..") {
            None
        } else {
            Some(last.clone())
        }
    }

    /// Whether the two are the same path.
    pub fn is(&self, other: &DiskPath) -> (r: bool)
        ensures
            r == (self@ == other@),
    {
        same_texts(&self.parts, &other.parts)
    }

    /// A copy of the path.
    pub fn copy(&self) -> (r: DiskPath)
        ensures
            r@ == self@,
            r.shown() == self.shown(),
    {
        proof {
            use_type_invariant(self);
        }
        DiskPath { text: self.text.clone(), parts: copy_texts(&self.parts) }
    }
}

} // verus!
