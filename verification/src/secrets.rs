//! Secrets that handlers read from their environment.
use crate::paths::{join_text, joined_text};
use crate::split::{
    cut, cut_once, lemma_split_concat, lemma_split_whole, split, split_once, trim, trimmed, views,
};
use crate::text::{chars_of, lemma_find_is, same};
use crate::text_map::TextMap;
use crate::tools::external::opt_str;
use vstd::prelude::*;

verus! {

/// The file that holds the secrets of a user.
pub open spec fn secrets_file(home: Option<Seq<char>>) -> Seq<char> {
    join_text(
        match home {
            None => ""@,
            Some(h) => h,
        },
        ".config/modixfs/secrets.env"@,
    )
}

/// The file that holds the secrets of a user.
pub fn secrets_path(home: Option<&str>) -> (r: String)
    ensures
        r@ == secrets_file(opt_str(home)),
{
    joined_text(
        match home {
            None => "",
            Some(h) => h,
        },
        ".config/modixfs/secrets.env",
    )
}

/// A name and its value.
pub type Pair = (Seq<char>, Seq<char>);

/// The views of a list of names with values.
pub open spec fn pairs_view(v: Seq<(String, String)>) -> Seq<Pair> {
    v.map_values(|p: (String, String)| (p.0@, p.1@))
}

/// The name and value that a line gives. Blank lines, comments and lines without an
/// equals sign give none.
pub open spec fn line_pair(line: Seq<char>) -> Option<Pair> {
    let l = trim(line);
    if l.len() == 0 || l[0] == '#' {
        None
    } else {
        match split_once(l, "="@) {
            None => None,
            Some((k, v)) => Some((trim(k), v)),
        }
    }
}

/// The names and values that some lines give.
pub open spec fn lines_pairs(lines: Seq<Seq<char>>) -> Seq<Pair>
    decreases lines.len(),
{
    if lines.len() == 0 {
        seq![]
    } else {
        match line_pair(lines.last()) {
            None => lines_pairs(lines.drop_last()),
            Some(p) => lines_pairs(lines.drop_last()).push(p),
        }
    }
}

/// The names and values that a file of secrets gives.
pub open spec fn file_pairs(content: Seq<char>) -> Seq<Pair> {
    lines_pairs(split(content, '\n'))
}

/// The name and value that a line gives.
fn parse_line(line: &str) -> (r: Option<(String, String)>)
    ensures
        crate::split::pair_view(r) == line_pair(line@),
{
    let l = trimmed(line);
    let v = chars_of(&l);
    if v.len() == 0 || v[0] == '#' {
        return None;
    }
    match cut_once(&l, "=") {
        None => None,
        Some((k, value)) => Some((trimmed(&k), value)),
    }
}

/// The names and values that a file of secrets gives, in order.
pub fn parse_env_file(content: &str) -> (r: Vec<(String, String)>)
    ensures
        pairs_view(r@) == file_pairs(content@),
{
    let lines = cut(content, '\n');
    let ghost all = views(lines@);
    let mut out: Vec<(String, String)> = Vec::new();
    let mut i: usize = 0;
    proof {
        assert(all.take(0) =~= seq![]);
        assert(pairs_view(out@) =~= seq![]);
    }
    while i < lines.len()
        invariant
            i <= lines@.len(),
            all == views(lines@),
            pairs_view(out@) == lines_pairs(all.take(i as int)),
        decreases lines@.len() - i,
    {
        let ghost before = pairs_view(out@);
        proof {
            assert(all.take(i + 1).drop_last() =~= all.take(i as int));
            assert(all.take(i + 1).last() == lines@[i as int]@);
        }
        if let Some((k, v)) = parse_line(&lines[i]) {
            out.push((k, v));
            proof {
                assert(pairs_view(out@) =~= before.push((k@, v@)));
            }
        }
        i = i + 1;
    }
    proof {
        assert(all.take(all.len() as int) =~= all);
    }
    out
}

/// Whether a list of names and values has a name.
pub open spec fn has_key(pairs: Seq<Pair>, key: Seq<char>) -> bool {
    exists|i: int| 0 <= i < pairs.len() && (#[trigger] pairs[i]).0 == key
}

/// Whether a list of names and values has a name.
fn contains_key(pairs: &Vec<(String, String)>, key: &str) -> (r: bool)
    ensures
        r == has_key(pairs_view(pairs@), key@),
{
    let ghost all = pairs_view(pairs@);
    let mut i: usize = 0;
    while i < pairs.len()
        invariant
            i <= pairs@.len(),
            all == pairs_view(pairs@),
            forall|j: int| 0 <= j < i ==> (#[trigger] all[j]).0 != key@,
        decreases pairs@.len() - i,
    {
        proof {
            assert(all[i as int] == (pairs@[i as int].0@, pairs@[i as int].1@));
        }
        if same(&pairs[i].0, key) {
            return true;
        }
        i = i + 1;
    }
    false
}

/// Whether a secret is there: in the environment, or in the file of secrets.
pub fn has_secret(key: &str, env: &TextMap<String>, file: Option<&str>) -> (r: bool)
    requires
        env.wf(),
    ensures
        r == (env@.contains_key(key@) || (opt_str(file) matches Some(f) && has_key(
            file_pairs(f),
            key@,
        ))),
{
    if env.get(key).is_some() {
        return true;
    }
    match file {
        None => false,
        Some(f) => contains_key(&parse_env_file(f), key),
    }
}

/// The variables that have to be set from a list of names and values: those that are
/// not set yet, each with its first value.
pub open spec fn unset_pairs(pairs: Seq<Pair>, set: Set<Seq<char>>) -> Seq<Pair>
    decreases pairs.len(),
{
    if pairs.len() == 0 {
        seq![]
    } else {
        let rest = unset_pairs(pairs.drop_last(), set);
        let p = pairs.last();
        if set.contains(p.0) || has_key(rest, p.0) {
            rest
        } else {
            rest.push(p)
        }
    }
}

/// The variables that have to be set from a file of secrets. What the environment
/// holds already is kept.
pub fn secrets_to_set(file: &str, env: &TextMap<String>) -> (r: Vec<(String, String)>)
    requires
        env.wf(),
    ensures
        pairs_view(r@) == unset_pairs(file_pairs(file@), env@.dom()),
{
    let pairs = parse_env_file(file);
    let ghost all = pairs_view(pairs@);
    let mut out: Vec<(String, String)> = Vec::new();
    let mut i: usize = 0;
    proof {
        assert(all.take(0) =~= seq![]);
        assert(pairs_view(out@) =~= seq![]);
    }
    while i < pairs.len()
        invariant
            i <= pairs@.len(),
            env.wf(),
            all == pairs_view(pairs@),
            pairs_view(out@) == unset_pairs(all.take(i as int), env@.dom()),
        decreases pairs@.len() - i,
    {
        let ghost before = pairs_view(out@);
        proof {
            assert(all.take(i + 1).drop_last() =~= all.take(i as int));
            assert(all.take(i + 1).last() == (pairs@[i as int].0@, pairs@[i as int].1@));
        }
        if env.get(&pairs[i].0).is_none() && !contains_key(&out, &pairs[i].0) {
            out.push((pairs[i].0.clone(), pairs[i].1.clone()));
            proof {
                assert(pairs_view(out@) =~= before.push(
                    (pairs@[i as int].0@, pairs@[i as int].1@),
                ));
            }
        }
        i = i + 1;
    }
    proof {
        assert(all.take(all.len() as int) =~= all);
    }
    out
}

/// The line that a secret is kept in.
pub open spec fn secret_line(key: Seq<char>, value: Seq<char>) -> Seq<char> {
    key + "="@ + value + "\n"@
}

/// The line to append to the file of secrets for a secret.
pub fn secret_entry(key: &str, value: &str) -> (r: String)
    ensures
        r@ == secret_line(key@, value@),
{
    let mut s = key.to_string();
    s.push_str("=");
    s.push_str(value);
    s.push_str("\n");
    s
}

proof fn lemma_lines_concat(a: Seq<Seq<char>>, b: Seq<Seq<char>>)
    ensures
        lines_pairs(a + b) == lines_pairs(a) + lines_pairs(b),
    decreases b.len(),
{
    if b.len() == 0 {
        assert(a + b =~= a);
        assert(lines_pairs(a) + lines_pairs(b) =~= lines_pairs(a));
    } else {
        lemma_lines_concat(a, b.drop_last());
        assert((a + b).drop_last() =~= a + b.drop_last());
        assert((a + b).last() == b.last());
        if let Some(p) = line_pair(b.last()) {
            assert((lines_pairs(a) + lines_pairs(b.drop_last())).push(p) =~= lines_pairs(a) + (
            lines_pairs(b.drop_last()).push(p)));
        }
    }
}

proof fn lemma_blank_line()
    ensures
        lines_pairs(split(""@, '\n')) == Seq::<Pair>::empty(),
{
    reveal_strlit("");
    lemma_split_whole(""@, '\n');
    let one = seq![""@];
    assert(one.drop_last() =~= seq![]);
    assert(trim(""@) =~= ""@);
    assert(lines_pairs(one) =~= lines_pairs(one.drop_last()));
}

/// A secret that was appended to a file of secrets is read back, behind those that
/// were there: as long as the file ends with a newline, the name holds no equals sign
/// and does not begin like a comment, and neither name nor value holds a newline or
/// white space around it.
pub proof fn appended_secret_is_read_back(content: Seq<char>, key: Seq<char>, value: Seq<char>)
    requires
        content.len() == 0 || content.last() == '\n',
        key.len() > 0,
        key[0] != '#',
        !key.contains('='),
        !key.contains('\n'),
        !value.contains('\n'),
        trim(key) == key,
        trim(key + "="@ + value) == key + "="@ + value,
    ensures
        file_pairs(content + secret_line(key, value)) == file_pairs(content).push((key, value)),
{
    reveal_strlit("=");
    reveal_strlit("\n");
    reveal_strlit("");
    let line = key + "="@ + value;
    let none = ""@;
    assert(!line.contains('\n')) by {
        assert forall|i: int| 0 <= i < line.len() implies line[i] != '\n' by {
            if i < key.len() {
                assert(line[i] == key[i]);
            } else if i > key.len() {
                assert(line[i] == value[i - key.len() - 1]);
            }
        }
    }
    // The line gives the pair.
    assert(line_pair(line) == Some((key, value))) by {
        assert(line[0] == key[0]);
        let k = key.len() as int;
        assert(line.subrange(k, k + 1) =~= "="@);
        assert forall|j: int| 0 <= j < k implies !crate::text::occurs_at(line, "="@, j) by {
            assert(line.subrange(j, j + 1)[0] == key[j]);
        }
        lemma_find_is(line, "="@, k);
        assert(line.subrange(0, k) =~= key);
        assert(line.subrange(k + 1, line.len() as int) =~= value);
    }
    lemma_split_whole(line, '\n');
    let one = seq![line];
    assert(one.drop_last() =~= seq![]);
    assert(one.last() == line);
    assert(lines_pairs(one.drop_last()) =~= seq![]);
    assert(lines_pairs(one) =~= seq![].push((key, value)));
    lemma_blank_line();
    // The appended part cuts into the line and a blank one.
    lemma_split_concat(line, '\n', none);
    let tail = line + seq!['\n'] + none;
    assert(secret_line(key, value) =~= tail);
    lemma_lines_concat(one, split(none, '\n'));
    assert(file_pairs(tail) =~= seq![(key, value)]);
    if content.len() == 0 {
        assert(content =~= none);
        assert(content + tail =~= tail);
        assert(file_pairs(content) =~= seq![]);
        assert(file_pairs(content).push((key, value)) =~= seq![(key, value)]);
    } else {
        let head = content.drop_last();
        assert(content =~= head + seq!['\n'] + none);
        lemma_split_concat(head, '\n', none);
        lemma_lines_concat(split(head, '\n'), split(none, '\n'));
        assert(file_pairs(content) =~= file_pairs(head));
        assert(content + tail =~= head + seq!['\n'] + tail);
        lemma_split_concat(head, '\n', tail);
        lemma_lines_concat(split(head, '\n'), split(tail, '\n'));
        assert(file_pairs(head) + seq![(key, value)] =~= file_pairs(content).push((key, value)));
    }
}

} // verus!
