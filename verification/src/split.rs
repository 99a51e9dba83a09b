//! Trimming, splitting and joining text.
use crate::text::{chars_of, char_is_space, position_of, matches_at, string_between};
use vstd::prelude::*;

verus! {

// ---------------------------------------------------------------------------
// Trimming
// ---------------------------------------------------------------------------

/// A text without the white space at its beginning.
pub open spec fn trim_start(s: Seq<char>) -> Seq<char>
    decreases s.len(),
{
    if s.len() > 0 && crate::text::is_space(s[0]) {
        trim_start(s.drop_first())
    } else {
        s
    }
}

/// A text without the white space at its end.
pub open spec fn trim_end(s: Seq<char>) -> Seq<char>
    decreases s.len(),
{
    if s.len() > 0 && crate::text::is_space(s.last()) {
        trim_end(s.drop_last())
    } else {
        s
    }
}

/// A text without the white space around it.
pub open spec fn trim(s: Seq<char>) -> Seq<char> {
    trim_end(trim_start(s))
}

/// A text without any copies of `pat` at its beginning.
pub open spec fn trim_start_of(s: Seq<char>, pat: Seq<char>) -> Seq<char>
    decreases s.len(),
{
    if pat.len() > 0 && pat.is_prefix_of(s) {
        trim_start_of(s.skip(pat.len() as int), pat)
    } else {
        s
    }
}

/// A text without any copies of `pat` at its end.
pub open spec fn trim_end_of(s: Seq<char>, pat: Seq<char>) -> Seq<char>
    decreases s.len(),
{
    if pat.len() > 0 && pat.is_suffix_of(s) {
        trim_end_of(s.take(s.len() - pat.len()), pat)
    } else {
        s
    }
}

/// The two ends that trimming white space leaves of the characters.
pub fn trim_bounds(v: &[char]) -> (r: (usize, usize))
    ensures
        r.0 <= r.1 <= v@.len(),
        v@.subrange(r.0 as int, r.1 as int) == trim(v@),
{
    let mut a: usize = 0;
    proof {
        assert(v@.subrange(0, v@.len() as int) =~= v@);
    }
    while a < v.len() && char_is_space(v[a])
        invariant
            a <= v@.len(),
            trim_start(v@) == trim_start(v@.subrange(a as int, v@.len() as int)),
        decreases v@.len() - a,
    {
        proof {
            assert(v@.subrange(a as int, v@.len() as int).drop_first() =~= v@.subrange(
                a + 1,
                v@.len() as int,
            ));
        }
        a = a + 1;
    }
    let mut b: usize = v.len();
    proof {
        assert(trim_start(v@) == v@.subrange(a as int, b as int));
    }
    while a < b && char_is_space(v[b - 1])
        invariant
            a <= b <= v@.len(),
            trim(v@) == trim_end(v@.subrange(a as int, b as int)),
        decreases b,
    {
        proof {
            assert(v@.subrange(a as int, b as int).drop_last() =~= v@.subrange(a as int, b - 1));
        }
        b = b - 1;
    }
    (a, b)
}

/// A text without the white space around it.
pub fn trimmed(s: &str) -> (r: String)
    ensures
        r@ == trim(s@),
{
    let v = chars_of(s);
    let (a, b) = trim_bounds(&v);
    string_between(&v, a, b)
}

/// A text without any copies of a pattern at its beginning.
pub fn trimmed_start_of(s: &str, pat: &str) -> (r: String)
    ensures
        r@ == trim_start_of(s@, pat@),
{
    let v = chars_of(s);
    let p = chars_of(pat);
    let n: usize = v.len();
    let mut a: usize = 0;
    proof {
        assert(v@.subrange(0, v@.len() as int) =~= v@);
    }
    while p.len() > 0 && matches_at(&v, &p, a)
        invariant
            n == v@.len(),
            a <= n,
            p@ == pat@,
            trim_start_of(s@, pat@) == trim_start_of(v@.subrange(a as int, v@.len() as int), pat@),
        decreases v@.len() - a,
    {
        proof {
            let rest = v@.subrange(a as int, v@.len() as int);
            assert(rest.subrange(0, p@.len() as int) =~= v@.subrange(a as int, a + p@.len()));
            assert(rest.skip(p@.len() as int) =~= v@.subrange(a + p@.len(), v@.len() as int));
        }
        a = a + p.len();
    }
    proof {
        let rest = v@.subrange(a as int, v@.len() as int);
        if p@.len() > 0 && p@.is_prefix_of(rest) {
            assert(v@.subrange(a as int, a + p@.len()) =~= rest.subrange(0, p@.len() as int));
        }
    }
    string_between(&v, a, v.len())
}

/// A text without any copies of a pattern at its end.
pub fn trimmed_end_of(s: &str, pat: &str) -> (r: String)
    ensures
        r@ == trim_end_of(s@, pat@),
{
    let v = chars_of(s);
    let p = chars_of(pat);
    let mut b: usize = v.len();
    proof {
        assert(v@.subrange(0, v@.len() as int) =~= v@);
    }
    while p.len() > 0 && p.len() <= b && matches_at(&v, &p, b - p.len())
        invariant
            b <= v@.len(),
            p@ == pat@,
            trim_end_of(s@, pat@) == trim_end_of(v@.subrange(0, b as int), pat@),
        decreases b,
    {
        proof {
            let rest = v@.subrange(0, b as int);
            assert(rest.subrange(b - p@.len(), b as int) =~= v@.subrange(b - p@.len(), b as int));
            assert(rest.take(b - p@.len()) =~= v@.subrange(0, b - p@.len()));
        }
        b = b - p.len();
    }
    proof {
        let rest = v@.subrange(0, b as int);
        if p@.len() > 0 && p@.is_suffix_of(rest) {
            assert(v@.subrange(b - p@.len(), b as int) =~= rest.subrange(b - p@.len(), b as int));
        }
    }
    string_between(&v, 0, b)
}

// ---------------------------------------------------------------------------
// Splitting
// ---------------------------------------------------------------------------

/// The texts of a sequence of strings.
pub open spec fn views(v: Seq<String>) -> Seq<Seq<char>> {
    v.map_values(|s: String| s@)
}

/// What stands before and behind the first occurrence of `pat`.
pub open spec fn split_once(s: Seq<char>, pat: Seq<char>) -> Option<(Seq<char>, Seq<char>)> {
    match crate::text::find(s, pat) {
        None => None,
        Some(i) => Some((s.subrange(0, i), s.subrange(i + pat.len(), s.len() as int))),
    }
}

/// The at most `n` pieces that the separator `c` cuts a text into; the last one
/// may hold further separators.
pub open spec fn splitn(s: Seq<char>, c: char, n: nat) -> Seq<Seq<char>>
    decreases n,
{
    if n <= 1 {
        seq![s]
    } else {
        match split_once(s, seq![c]) {
            None => seq![s],
            Some((a, b)) => seq![a] + splitn(b, c, (n - 1) as nat),
        }
    }
}

/// The pieces that the separator `c` cuts a text into.
pub open spec fn split(s: Seq<char>, c: char) -> Seq<Seq<char>> {
    splitn(s, c, s.len() + 1)
}

/// The two optional views of a pair of strings.
pub open spec fn pair_view(p: Option<(String, String)>) -> Option<(Seq<char>, Seq<char>)> {
    match p {
        None => None,
        Some((a, b)) => Some((a@, b@)),
    }
}

/// What stands before and behind the first occurrence of a pattern.
pub fn cut_once(s: &str, pat: &str) -> (r: Option<(String, String)>)
    ensures
        pair_view(r) == split_once(s@, pat@),
{
    let v = chars_of(s);
    let p = chars_of(pat);
    match position_of(&v, &p) {
        None => None,
        Some(i) => Some((string_between(&v, 0, i), string_between(&v, i + p.len(), v.len()))),
    }
}

/// The at most `n` pieces that a separator cuts a text into.
pub fn cut_n(s: &str, c: char, n: usize) -> (r: Vec<String>)
    ensures
        views(r@) == splitn(s@, c, n as nat),
{
    let v = chars_of(s);
    let mut sep: Vec<char> = Vec::new();
    sep.push(c);
    let mut out: Vec<String> = Vec::new();
    let mut rest: Vec<char> = v;
    let mut left: usize = n;
    proof {
        assert(views(out@) + splitn(rest@, c, left as nat) =~= splitn(s@, c, n as nat));
        assert(sep@ =~= seq![c]);
    }
    while left > 1
        invariant
            sep@ == seq![c],
            views(out@) + splitn(rest@, c, left as nat) == splitn(s@, c, n as nat),
        decreases left,
    {
        match position_of(&rest, &sep) {
            None => {
                let last = crate::text::string_of(&rest);
                let ghost before = out@;
                out.push(last);
                proof {
                    assert(views(out@) =~= views(before) + seq![rest@]);
                }
                return out;
            },
            Some(i) => {
                let piece = string_between(&rest, 0, i);
                let ghost before = out@;
                let ghost whole = rest@;
                out.push(piece);
                rest = chars_of(&string_between(&rest, i + 1, rest.len()));
                proof {
                    assert(views(out@) =~= views(before) + seq![piece@]);
                    assert(views(before) + (seq![piece@] + splitn(rest@, c, (left - 1) as nat))
                        =~= views(before) + seq![piece@] + splitn(rest@, c, (left - 1) as nat));
                }
                left = left - 1;
            },
        }
    }
    let last = crate::text::string_of(&rest);
    let ghost before = out@;
    out.push(last);
    proof {
        assert(views(out@) =~= views(before) + seq![rest@]);
    }
    out
}

/// Cutting further than there are characters changes nothing.
proof fn lemma_splitn_enough(s: Seq<char>, c: char, n: nat, m: nat)
    requires
        s.len() < n,
        s.len() < m,
    ensures
        splitn(s, c, n) == splitn(s, c, m),
    decreases s.len(),
{
    crate::text::lemma_find_from(s, seq![c], 0);
    match split_once(s, seq![c]) {
        None => {},
        Some((a, b)) => {
            lemma_splitn_enough(b, c, (n - 1) as nat, (m - 1) as nat);
        },
    }
}

/// A text without the separator is its only piece.
pub proof fn lemma_split_whole(s: Seq<char>, c: char)
    requires
        !s.contains(c),
    ensures
        split(s, c) == seq![s],
{
    crate::text::lemma_find_from(s, seq![c], 0);
    if let Some(i) = crate::text::find(s, seq![c]) {
        assert(s.subrange(i, i + 1)[0] == s[i]);
        assert(s.subrange(i, i + 1) == seq![c]);
        assert(s[i] == c);
    }
}

/// The pieces of two texts with a separator between them are the pieces of the one
/// and those of the other.
pub proof fn lemma_split_concat(a: Seq<char>, c: char, b: Seq<char>)
    ensures
        split(a + seq![c] + b, c) == split(a, c) + split(b, c),
    decreases a.len(),
{
    let whole = a + seq![c] + b;
    crate::text::lemma_find_from(a, seq![c], 0);
    match crate::text::find(a, seq![c]) {
        None => {
            assert forall|j: int| 0 <= j < a.len() implies a[j] != c by {
                assert(!crate::text::occurs_at(a, seq![c], j));
                assert(a[j] == c ==> a.subrange(j, j + 1) =~= seq![c]);
            }
            assert(!a.contains(c));
            lemma_split_whole(a, c);
            let k = a.len() as int;
            assert(whole.subrange(k, k + 1) =~= seq![c]);
            assert forall|j: int| 0 <= j < k implies !crate::text::occurs_at(
                whole,
                seq![c],
                j,
            ) by {
                assert(whole.subrange(j, j + 1)[0] == a[j]);
            }
            crate::text::lemma_find_is(whole, seq![c], k);
            assert(whole.subrange(0, k) =~= a);
            assert(whole.subrange(k + 1, whole.len() as int) =~= b);
            lemma_splitn_enough(b, c, whole.len(), b.len() + 1);
            assert(split(whole, c) =~= seq![a] + split(b, c));
        },
        Some(i) => {
            let rest = a.subrange(i + 1, a.len() as int);
            lemma_split_concat(rest, c, b);
            assert(whole.subrange(i, i + 1) =~= a.subrange(i, i + 1));
            assert forall|j: int| 0 <= j < i implies !crate::text::occurs_at(
                whole,
                seq![c],
                j,
            ) by {
                assert(!crate::text::occurs_at(a, seq![c], j));
                assert(whole.subrange(j, j + 1) =~= a.subrange(j, j + 1));
            }
            crate::text::lemma_find_is(whole, seq![c], i);
            let tail = rest + seq![c] + b;
            assert(whole.subrange(i + 1, whole.len() as int) =~= tail);
            assert(whole.subrange(0, i) =~= a.subrange(0, i));
            lemma_splitn_enough(tail, c, whole.len(), tail.len() + 1);
            lemma_splitn_enough(rest, c, a.len(), rest.len() + 1);
            assert(split(whole, c) =~= seq![a.subrange(0, i)] + split(tail, c));
            assert(split(a, c) =~= seq![a.subrange(0, i)] + split(rest, c));
            assert(split(whole, c) =~= split(a, c) + split(b, c));
        },
    }
}

/// The pieces that a separator cuts a text into.
pub fn cut(s: &str, c: char) -> (r: Vec<String>)
    ensures
        views(r@) == split(s@, c),
{
    let v = chars_of(s);
    if v.len() < usize::MAX {
        return cut_n(s, c, v.len() + 1);
    }
    let mut sep: Vec<char> = Vec::new();
    sep.push(c);
    proof {
        assert(sep@ =~= seq![c]);
        crate::text::lemma_find_from(s@, seq![c], 0);
    }
    match position_of(&v, &sep) {
        None => {
            let mut out: Vec<String> = Vec::new();
            out.push(crate::text::string_of(&v));
            proof {
                assert(views(out@) =~= seq![s@]);
            }
            out
        },
        Some(i) => {
            let mut out: Vec<String> = Vec::new();
            let first = string_between(&v, 0, i);
            let rest = string_between(&v, i + 1, v.len());
            out.push(first);
            let mut tail = cut_n(&rest, c, usize::MAX);
            proof {
                lemma_splitn_enough(rest@, c, usize::MAX as nat, s@.len());
            }
            let ghost t = tail@;
            out.append(&mut tail);
            proof {
                assert(views(out@) =~= seq![first@] + views(t));
            }
            out
        },
    }
}

/// No piece holds the separator.
pub proof fn lemma_split_pieces(s: Seq<char>, c: char, n: nat)
    requires
        s.len() < n,
    ensures
        forall|i: int| 0 <= i < splitn(s, c, n).len() ==> !(#[trigger] splitn(s, c, n)[i]).contains(c),
    decreases s.len(),
{
    crate::text::lemma_find_from(s, seq![c], 0);
    match crate::text::find(s, seq![c]) {
        None => {
            assert forall|j: int| 0 <= j < s.len() implies s[j] != c by {
                assert(!crate::text::occurs_at(s, seq![c], j));
                assert(s[j] == c ==> s.subrange(j, j + 1) =~= seq![c]);
            }
        },
        Some(k) => {
            let a = s.subrange(0, k);
            let b = s.subrange(k + 1, s.len() as int);
            assert(!a.contains(c)) by {
                assert forall|j: int| 0 <= j < a.len() implies a[j] != c by {
                    assert(!crate::text::occurs_at(s, seq![c], j));
                    assert(s[j] == c ==> s.subrange(j, j + 1) =~= seq![c]);
                }
            }
            lemma_split_pieces(b, c, (n - 1) as nat);
            let rest = splitn(b, c, (n - 1) as nat);
            assert forall|i: int| 0 <= i < splitn(s, c, n).len() implies !(#[trigger] splitn(
                s,
                c,
                n,
            )[i]).contains(c) by {
                if i > 0 {
                    assert(splitn(s, c, n)[i] == rest[i - 1]);
                }
            }
        },
    }
}

// ---------------------------------------------------------------------------
// Joining
// ---------------------------------------------------------------------------

/// The texts of a list with a separator between each two of them.
pub open spec fn join(parts: Seq<Seq<char>>, sep: Seq<char>) -> Seq<char>
    decreases parts.len(),
{
    if parts.len() == 0 {
        seq![]
    } else if parts.len() == 1 {
        parts[0]
    } else {
        join(parts.drop_last(), sep) + sep + parts.last()
    }
}

/// Texts without the separator are the pieces of what they are joined to.
pub proof fn lemma_split_joined(parts: Seq<Seq<char>>, c: char)
    requires
        parts.len() > 0,
        forall|i: int| 0 <= i < parts.len() ==> !(#[trigger] parts[i]).contains(c),
    ensures
        split(join(parts, seq![c]), c) == parts,
    decreases parts.len(),
{
    lemma_split_whole(parts.last(), c);
    if parts.len() == 1 {
        assert(seq![parts[0]] =~= parts);
    } else {
        let rest = parts.drop_last();
        lemma_split_joined(rest, c);
        lemma_split_concat(join(rest, seq![c]), c, parts.last());
        assert(rest + seq![parts.last()] =~= parts);
    }
}

/// The pieces of some texts, in order.
pub open spec fn pieces_of(parts: Seq<Seq<char>>, c: char) -> Seq<Seq<char>>
    decreases parts.len(),
{
    if parts.len() == 0 {
        seq![]
    } else {
        pieces_of(parts.drop_last(), c) + split(parts.last(), c)
    }
}

/// The pieces of what texts are joined to are the pieces of those texts.
pub proof fn lemma_pieces_joined(parts: Seq<Seq<char>>, c: char)
    requires
        parts.len() > 0,
    ensures
        split(join(parts, seq![c]), c) == pieces_of(parts, c),
    decreases parts.len(),
{
    if parts.len() == 1 {
        assert(pieces_of(parts.drop_last(), c) =~= seq![]);
        assert(pieces_of(parts, c) =~= split(parts[0], c));
    } else {
        lemma_pieces_joined(parts.drop_last(), c);
        lemma_split_concat(join(parts.drop_last(), seq![c]), c, parts.last());
    }
}

/// The texts of a list with a separator between each two of them.
pub fn joined(parts: &Vec<String>, sep: &str) -> (r: String)
    ensures
        r@ == join(views(parts@), sep@),
{
    let mut out = String::new();
    let mut i: usize = 0;
    let ghost all = views(parts@);
    while i < parts.len()
        invariant
            i <= parts@.len(),
            all == views(parts@),
            out@ == join(all.take(i as int), sep@),
        decreases parts@.len() - i,
    {
        proof {
            assert(all.take(i + 1).drop_last() =~= all.take(i as int));
            assert(all.take(i + 1).last() == parts@[i as int]@);
        }
        if i > 0 {
            out.push_str(sep);
        }
        out.push_str(&parts[i]);
        i = i + 1;
    }
    proof {
        assert(all.take(all.len() as int) =~= all);
    }
    out
}

/// A text with every `a` replaced by `b`.
pub open spec fn replace_char(s: Seq<char>, a: char, b: char) -> Seq<char> {
    s.map_values(|c: char| if c == a { b } else { c })
}

/// A text with every `a` replaced by `b`.
pub fn replaced(s: &str, a: char, b: char) -> (r: String)
    ensures
        r@ == replace_char(s@, a, b),
{
    let v = chars_of(s);
    let mut out = String::new();
    let mut i: usize = 0;
    while i < v.len()
        invariant
            i <= v@.len(),
            v@ == s@,
            out@ == replace_char(s@.take(i as int), a, b),
        decreases v@.len() - i,
    {
        proof {
            assert(s@.take(i + 1) =~= s@.take(i as int).push(v@[i as int]));
            assert(replace_char(s@.take(i + 1), a, b) =~= replace_char(
                s@.take(i as int),
                a,
                b,
            ).push(if v@[i as int] == a { b } else { v@[i as int] }));
        }
        if v[i] == a {
            out.push(b);
        } else {
            out.push(v[i]);
        }
        i = i + 1;
    }
    proof {
        assert(s@.take(s@.len() as int) =~= s@);
    }
    out
}

/// Where a text stands first in a list.
pub fn index_in(v: &Vec<String>, s: &str) -> (r: Option<usize>)
    ensures
        match r {
            None => views(v@).index_of_first(s@) is None,
            Some(i) => i < v@.len() && views(v@).index_of_first(s@) == Some(i as int),
        },
        r is None <==> !views(v@).contains(s@),
{
    let ghost all = views(v@);
    proof {
        all.index_of_first_ensures(s@);
    }
    let mut i: usize = 0;
    while i < v.len()
        invariant
            i <= v@.len(),
            all == views(v@),
            forall|j: int| 0 <= j < i ==> all[j] != s@,
            match all.index_of_first(s@) {
                None => !all.contains(s@),
                Some(k) => 0 <= k < all.len() && all[k] == s@ && forall|j: int|
                    0 <= j < k ==> all[j] != s@,
            },
        decreases v@.len() - i,
    {
        if crate::text::same(&v[i], s) {
            proof {
                assert(all[i as int] == s@);
                assert(all.contains(s@));
            }
            return Some(i);
        }
        proof {
            assert(all[i as int] == v@[i as int]@);
        }
        i = i + 1;
    }
    None
}

} // verus!
