//! What manifests, configurations and files of secrets mean.
use super::texts::{a_separator_is_found, blank};
use crate::config::{resolved, token_variable, ToolConfig};
use crate::manifest::{
    all_in_order, complains, file_named, file_names, first_out_of_order, first_unknown, in_order,
    invokes, is_unknown, kind_key, kind_text, FileKind, FileSpec,
};
use crate::paths::join_text;
use crate::secrets::{
    file_pairs, has_key, line_pair, lines_pairs, secret_line, secrets_file, unset_pairs, Pair,
};
use crate::split::{split, trim};
use crate::text::uppercase;
use vstd::prelude::*;

verus! {

// ---------------------------------------------------------------------------
// Manifests
// ---------------------------------------------------------------------------

/// A file of a manifest is found by its name, the first one of that name; a name that no
/// file has is not found.
pub proof fn files_are_found_by_name(files: Seq<FileSpec>, name: Seq<char>, i: int)
    ensures
        0 <= i < files.len() && files[i].name@ == name && (forall|j: int|
            0 <= j < i ==> (#[trigger] files[j]).name@ != name) ==> file_named(files, name) == Some(
            files[i],
        ),
        (forall|j: int| 0 <= j < files.len() ==> (#[trigger] files[j]).name@ != name)
            ==> file_named(files, name) is None,
{
    let names = file_names(files);
    names.index_of_first_ensures(name);
    if file_named(files, name) is Some {
        let k = names.index_of_first(name)->0;
        assert(names[k] == files[k].name@);
        if 0 <= i < files.len() && files[i].name@ == name {
            assert(names[i] == name);
            if k < i {
                assert(files[k].name@ == name);
            }
        }
    } else if 0 <= i < files.len() && files[i].name@ == name {
        assert(names[i] == name);
        assert(names.contains(name));
    }
}

/// A file runs something if it is written to run or read to run, and each kind has its word
/// in manifests and its name in messages.
pub proof fn kinds_have_their_words(kind: FileKind)
    ensures
        match kind {
            FileKind::WriteInvoke => invokes(kind) && kind_key(kind) == "write_invoke"@
                && kind_text(kind) == "WriteInvoke"@,
            FileKind::ReadInvoke => invokes(kind) && kind_key(kind) == "read_invoke"@ && kind_text(
                kind,
            ) == "ReadInvoke"@,
            FileKind::Passthrough => !invokes(kind) && kind_key(kind) == "passthrough"@
                && kind_text(kind) == "Passthrough"@,
            FileKind::Readonly => !invokes(kind) && kind_key(kind) == "readonly"@ && kind_text(kind)
                == "Readonly"@,
        },
{
}

/// Whether a file of a manifest may stand there: one that runs something has a handler or a
/// chain of one or more declared files, not both; one that runs nothing has no handler.
pub open spec fn may_stand(files: Seq<FileSpec>, f: FileSpec) -> bool {
    match f.kind {
        FileKind::Passthrough | FileKind::Readonly => f.handler is None,
        FileKind::WriteInvoke | FileKind::ReadInvoke => {
            &&& f.handler is Some || f.pipe is Some
            &&& !(f.handler is Some && f.pipe is Some)
            &&& f.pipe is Some ==> f.pipe->0@.len() != 0 && forall|k: int|
                0 <= k < f.pipe->0@.len() ==> names_a_file(files, #[trigger] f.pipe->0@[k]@)
        },
    }
}

/// Whether some file has a name.
pub open spec fn names_a_file(files: Seq<FileSpec>, name: Seq<char>) -> bool {
    exists|j: int| 0 <= j < files.len() && (#[trigger] files[j]).name@ == name
}

proof fn lemma_unknown(files: Seq<FileSpec>, name: Seq<char>)
    ensures
        is_unknown(files, name) == !names_a_file(files, name),
{
    let names = file_names(files);
    if names.contains(name) {
        let j = names.index_of(name);
        assert(names[j] == name);
        assert(files[j].name@ == name);
    }
    if names_a_file(files, name) {
        let j = choose|j: int| 0 <= j < files.len() && (#[trigger] files[j]).name@ == name;
        assert(names[j] == name);
    }
}

/// A manifest is valid exactly if every file of it may stand there.
pub proof fn manifests_are_valid_file_by_file(files: Seq<FileSpec>, f: FileSpec)
    ensures
        in_order(files, f) == may_stand(files, f),
        all_in_order(files) <==> forall|i: int|
            0 <= i < files.len() ==> may_stand(files, #[trigger] files[i]),
{
    lemma_may_stand(files, f);
    assert forall|i: int| 0 <= i < files.len() implies in_order(files, #[trigger] files[i])
        == may_stand(files, files[i]) by {
        lemma_may_stand(files, files[i]);
    }
}

proof fn lemma_may_stand(files: Seq<FileSpec>, f: FileSpec)
    ensures
        in_order(files, f) == may_stand(files, f),
{
    if f.pipe is Some {
        assert forall|k: int| 0 <= k < f.pipe->0@.len() implies is_unknown(
            files,
            #[trigger] f.pipe->0@[k]@,
        ) == !names_a_file(files, f.pipe->0@[k]@) by {
            lemma_unknown(files, f.pipe->0@[k]@);
        }
    }
}

/// What is said of a file that may not stand in its manifest: what is wrong with it, and
/// where a stage of its chain is unknown, the first such stage.
pub proof fn complaints_name_the_file(files: Seq<FileSpec>, f: FileSpec, m: Seq<char>, k: int)
    requires
        !may_stand(files, f),
        complains(files, f, m),
    ensures
        ({
            let runs = f.kind == FileKind::WriteInvoke || f.kind == FileKind::ReadInvoke;
            &&& f.kind == FileKind::Passthrough ==> m == "file '"@ + f.name@
                + "' has kind Passthrough but specifies a handler (not allowed)"@
            &&& f.kind == FileKind::Readonly ==> m == "file '"@ + f.name@
                + "' has kind Readonly but specifies a handler (not allowed)"@
            &&& f.kind == FileKind::WriteInvoke && f.handler is None && f.pipe is None ==> m
                == "file '"@ + f.name@
                + "' has kind WriteInvoke but neither handler nor pipe specified"@
            &&& f.kind == FileKind::ReadInvoke && f.handler is None && f.pipe is None ==> m
                == "file '"@ + f.name@
                + "' has kind ReadInvoke but neither handler nor pipe specified"@
            &&& runs && f.handler is Some && f.pipe is Some ==> m == "file '"@ + f.name@
                + "' specifies both handler and pipe; use one or the other"@
            &&& runs && f.handler is None && f.pipe is Some && f.pipe->0@.len() == 0 ==> m
                == "file '"@ + f.name@ + "' pipe must contain at least one stage"@
            &&& runs && f.handler is None && f.pipe is Some && 0 <= k < f.pipe->0@.len()
                && !names_a_file(files, f.pipe->0@[k]@) && (forall|j: int|
                0 <= j < k ==> names_a_file(files, #[trigger] f.pipe->0@[j]@)) ==> m == "file '"@
                + f.name@ + "' pipe references unknown endpoint '"@ + f.pipe->0@[k]@ + "'"@
        }),
{
    lemma_may_stand(files, f);
    let runs = f.kind == FileKind::WriteInvoke || f.kind == FileKind::ReadInvoke;
    lemma_complaints();
    if f.kind == FileKind::Passthrough {
        assert(m =~= "file '"@ + f.name@
            + "' has kind Passthrough but specifies a handler (not allowed)"@);
    }
    if f.kind == FileKind::Readonly {
        assert(m =~= "file '"@ + f.name@
            + "' has kind Readonly but specifies a handler (not allowed)"@);
    }
    if f.kind == FileKind::WriteInvoke && f.handler is None && f.pipe is None {
        assert(m =~= "file '"@ + f.name@
            + "' has kind WriteInvoke but neither handler nor pipe specified"@);
    }
    if f.kind == FileKind::ReadInvoke && f.handler is None && f.pipe is None {
        assert(m =~= "file '"@ + f.name@
            + "' has kind ReadInvoke but neither handler nor pipe specified"@);
    }
    if runs && f.handler is None && f.pipe is Some && f.pipe->0@.len() > 0 {
        let stages = f.pipe->0@;
        let n = choose|n: int| #[trigger]
            first_unknown(files, stages, n) && m == "file '"@ + f.name@
                + "' pipe references unknown endpoint '"@ + stages[n]@ + "'"@;
        lemma_unknown(files, stages[n]@);
        if 0 <= k < stages.len() {
            lemma_unknown(files, stages[k]@);
            if n < k {
                assert(names_a_file(files, stages[n]@) || !names_a_file(files, stages[n]@));
            }
            if k < n {
                assert(!is_unknown(files, stages[k]@));
            }
        }
    }
}

proof fn lemma_complaints()
    ensures
        "' has kind Passthrough but specifies a handler (not allowed)"@ == "' has kind "@
            + "Passthrough"@ + " but specifies a handler (not allowed)"@,
        "' has kind Readonly but specifies a handler (not allowed)"@ == "' has kind "@
            + "Readonly"@ + " but specifies a handler (not allowed)"@,
        "' has kind WriteInvoke but neither handler nor pipe specified"@ == "' has kind "@
            + "WriteInvoke"@ + " but neither handler nor pipe specified"@,
        "' has kind ReadInvoke but neither handler nor pipe specified"@ == "' has kind "@
            + "ReadInvoke"@ + " but neither handler nor pipe specified"@,
{
    reveal_strlit("' has kind ");
    lemma_handler_complaints();
    lemma_missing_complaints();
}

proof fn lemma_handler_complaints()
    ensures
        "' has kind Passthrough but specifies a handler (not allowed)"@ == "' has kind "@
            + "Passthrough"@ + " but specifies a handler (not allowed)"@,
        "' has kind Readonly but specifies a handler (not allowed)"@ == "' has kind "@
            + "Readonly"@ + " but specifies a handler (not allowed)"@,
{
    reveal_strlit("' has kind ");
    reveal_strlit("Passthrough");
    reveal_strlit("Readonly");
    reveal_strlit(" but specifies a handler (not allowed)");
    reveal_strlit("' has kind Passthrough but specifies a handler (not allowed)");
    reveal_strlit("' has kind Readonly but specifies a handler (not allowed)");
    assert("' has kind Passthrough but specifies a handler (not allowed)"@ =~= "' has kind "@
        + "Passthrough"@ + " but specifies a handler (not allowed)"@);
    assert("' has kind Readonly but specifies a handler (not allowed)"@ =~= "' has kind "@
        + "Readonly"@ + " but specifies a handler (not allowed)"@);
}

proof fn lemma_missing_complaints()
    ensures
        "' has kind WriteInvoke but neither handler nor pipe specified"@ == "' has kind "@
            + "WriteInvoke"@ + " but neither handler nor pipe specified"@,
        "' has kind ReadInvoke but neither handler nor pipe specified"@ == "' has kind "@
            + "ReadInvoke"@ + " but neither handler nor pipe specified"@,
{
    reveal_strlit("' has kind ");
    reveal_strlit("WriteInvoke");
    reveal_strlit("ReadInvoke");
    reveal_strlit(" but neither handler nor pipe specified");
    reveal_strlit("' has kind WriteInvoke but neither handler nor pipe specified");
    reveal_strlit("' has kind ReadInvoke but neither handler nor pipe specified");
    assert("' has kind WriteInvoke but neither handler nor pipe specified"@ =~= "' has kind "@
        + "WriteInvoke"@ + " but neither handler nor pipe specified"@);
    assert("' has kind ReadInvoke but neither handler nor pipe specified"@ =~= "' has kind "@
        + "ReadInvoke"@ + " but neither handler nor pipe specified"@);
}

/// The file that a complaint is about is the first one that may not stand there.
pub proof fn the_first_wrong_file_is_named(files: Seq<FileSpec>, i: int)
    requires
        0 <= i < files.len(),
    ensures
        first_out_of_order(files, i) <==> !may_stand(files, files[i]) && forall|j: int|
            0 <= j < i ==> may_stand(files, #[trigger] files[j]),
{
    assert forall|j: int| 0 <= j < files.len() implies in_order(files, #[trigger] files[j])
        == may_stand(files, files[j]) by {
        lemma_may_stand(files, files[j]);
    }
}

// ---------------------------------------------------------------------------
// Configurations
// ---------------------------------------------------------------------------

/// The token of a tool is in the variable that is configured for it, and where none is, in
/// the one that is called after the tool.
pub proof fn tokens_are_named_after_their_tool(c: ToolConfig)
    ensures
        c.token_env is Some ==> token_variable(c) == c.token_env->0@,
        c.token_env is None ==> token_variable(c) == uppercase(c.name@) + "_TOKEN"@,
{
}

/// A directory below `~/` lies below the home directory, and nowhere where that is unknown;
/// any other directory stands for itself.
pub proof fn home_is_resolved(rest: Seq<char>, home: Seq<char>, other: Seq<char>)
    requires
        other.len() < 2 || other[0] != '~' || other[1] != '/',
    ensures
        resolved("~/"@ + rest, None) is None,
        resolved("~/"@ + rest, Some(home)) == Some(join_text(home, rest)),
        resolved(other, Some(home)) == Some(other),
        resolved(other, None) == Some(other),
{
    reveal_strlit("~/");
    super::texts::affixes_are_stripped(other, "~/"@, rest);
    if "~/"@.is_prefix_of(other) {
        assert(other.subrange(0, 2)[0] == other[0]);
        assert(other.subrange(0, 2)[1] == other[1]);
        assert("~/"@[0] == '~' && "~/"@[1] == '/');
    }
}

// ---------------------------------------------------------------------------
// Files of secrets
// ---------------------------------------------------------------------------

/// Where the file of secrets lies.
pub proof fn secrets_lie_below_home(home: Seq<char>)
    requires
        home.len() > 0,
        home.last() != '/',
    ensures
        secrets_file(Some(home)) == home + "/.config/modixfs/secrets.env"@,
        secrets_file(None) == ".config/modixfs/secrets.env"@,
{
    reveal_strlit("");
    reveal_strlit("/.config/modixfs/secrets.env");
    reveal_strlit(".config/modixfs/secrets.env");
    assert(""@ =~= Seq::<char>::empty());
    super::texts::paths_are_joined_by_one_slash(home, ".config/modixfs/secrets.env"@);
    assert("/.config/modixfs/secrets.env"@ =~= seq!['/'] + ".config/modixfs/secrets.env"@);
    assert(home + "/.config/modixfs/secrets.env"@ =~= home + seq!['/']
        + ".config/modixfs/secrets.env"@);
}

/// A line of a file of secrets gives a name and a value, the value as it stands: what comes
/// before and behind the first equals sign. Lines of white space, comments, and lines
/// without an equals sign give nothing.
pub proof fn secret_lines_are_read(line: Seq<char>, key: Seq<char>, value: Seq<char>)
    ensures
        blank(line) ==> line_pair(line) is None,
        trim(line).len() > 0 && trim(line)[0] == '#' ==> line_pair(line) is None,
        !trim(line).contains('=') ==> line_pair(line) is None,
        trim(line) == key + "="@ + value && !key.contains('=') && trim(line)[0] != '#'
            ==> line_pair(line) == Some((trim(key), value)),
{
    reveal_strlit("=");
    assert("="@ =~= seq!['=']);
    super::texts::trimming_takes_white_space_only(line);
    if !trim(line).contains('=') {
        a_separator_is_found(trim(line), '=', Seq::empty());
    }
    if !key.contains('=') {
        a_separator_is_found(key, '=', value);
    }
}

/// A secret is written as one line: its name, an equals sign, its value.
pub proof fn secrets_are_written_in_lines(key: Seq<char>, value: Seq<char>)
    ensures
        secret_line(key, value) == key + "="@ + value + "\n"@,
{
}

proof fn lemma_lines_add_up(a: Seq<Seq<char>>, b: Seq<Seq<char>>)
    ensures
        lines_pairs(a + b) == lines_pairs(a) + lines_pairs(b),
    decreases b.len(),
{
    if b.len() == 0 {
        assert(a + b =~= a);
        assert(lines_pairs(a) + lines_pairs(b) =~= lines_pairs(a));
    } else {
        lemma_lines_add_up(a, b.drop_last());
        assert((a + b).drop_last() =~= a + b.drop_last());
        assert((a + b).last() == b.last());
        assert(lines_pairs(a + b) =~= lines_pairs(a) + lines_pairs(b));
    }
}

/// The pairs of a file are those of its lines, in order.
pub proof fn files_of_secrets_are_read_by_line(a: Seq<char>, b: Seq<char>, line: Seq<char>)
    requires
        !line.contains('\n'),
    ensures
        file_pairs(a + seq!['\n'] + b) == file_pairs(a) + file_pairs(b),
        file_pairs(line) == (match line_pair(line) {
            Some(p) => seq![p],
            None => Seq::<Pair>::empty(),
        }),
{
    crate::split::lemma_split_concat(a, '\n', b);
    lemma_lines_add_up(split(a, '\n'), split(b, '\n'));
    crate::split::lemma_split_whole(line, '\n');
    let one = seq![line];
    assert(one.drop_last() =~= Seq::<Seq<char>>::empty());
    assert(one.last() == line);
    assert(lines_pairs(Seq::<Seq<char>>::empty()) =~= Seq::<Pair>::empty());
    assert(lines_pairs(one) =~= (match line_pair(line) {
        Some(p) => seq![p],
        None => Seq::<Pair>::empty(),
    }));
}

/// Secrets do not take the place of what is set: of the pairs of a file those remain whose
/// name is not set and did not come before in the file.
pub proof fn set_names_are_left_alone(pairs: Seq<Pair>, p: Pair, set: Set<Seq<char>>)
    ensures
        unset_pairs(Seq::empty(), set) == Seq::<Pair>::empty(),
        unset_pairs(pairs.push(p), set) == (if set.contains(p.0) || (exists|j: int|
            0 <= j < pairs.len() && (#[trigger] pairs[j]).0 == p.0) {
            unset_pairs(pairs, set)
        } else {
            unset_pairs(pairs, set).push(p)
        }),
{
    assert(pairs.push(p).drop_last() =~= pairs);
    assert(unset_pairs(Seq::<Pair>::empty(), set) =~= Seq::<Pair>::empty());
    lemma_unset_keys(pairs, set, p.0);
}

proof fn lemma_unset_keys(pairs: Seq<Pair>, set: Set<Seq<char>>, key: Seq<char>)
    ensures
        has_key(unset_pairs(pairs, set), key) <==> !set.contains(key) && exists|j: int|
            0 <= j < pairs.len() && (#[trigger] pairs[j]).0 == key,
    decreases pairs.len(),
{
    if pairs.len() > 0 {
        let front = pairs.drop_last();
        let rest = unset_pairs(front, set);
        let all = unset_pairs(pairs, set);
        lemma_unset_keys(front, set, key);
        lemma_unset_keys(front, set, pairs.last().0);
        if exists|j: int| 0 <= j < front.len() && (#[trigger] front[j]).0 == key {
            let j = choose|j: int| 0 <= j < front.len() && (#[trigger] front[j]).0 == key;
            assert(pairs[j].0 == key);
        }
        if exists|j: int| 0 <= j < pairs.len() && (#[trigger] pairs[j]).0 == key {
            let j = choose|j: int| 0 <= j < pairs.len() && (#[trigger] pairs[j]).0 == key;
            if j < front.len() {
                assert(front[j].0 == key);
            }
        }
        if has_key(rest, key) {
            let i = choose|i: int| 0 <= i < rest.len() && (#[trigger] rest[i]).0 == key;
            assert(all[i].0 == key);
        }
        if pairs.last().0 == key && !set.contains(key) && !has_key(rest, key) {
            assert(all[rest.len() as int].0 == key);
        }
        if has_key(all, key) {
            let i = choose|i: int| 0 <= i < all.len() && (#[trigger] all[i]).0 == key;
            if i < rest.len() {
                assert(rest[i].0 == key);
            } else {
                assert(all[i] == pairs.last());
                assert(pairs[pairs.len() - 1].0 == key);
            }
        }
    } else {
        assert(unset_pairs(pairs, set) =~= Seq::<Pair>::empty());
    }
}

} // verus!
