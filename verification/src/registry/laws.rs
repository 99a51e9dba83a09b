//! What the documents on the tools of a mount show.
use super::{index_line, manifest_at, prompt_file_line, prompt_section, ToolRegistry};
use crate::manifest::{invokes, FileSpec, Manifest};
use crate::split::{
    join, lemma_pieces_joined, lemma_split_concat, lemma_split_whole, pieces_of, split,
};
use crate::text::concat;
use vstd::prelude::*;

verus! {

/// Whether a line of the root index is that of a tool.
pub open spec fn is_list_line(line: Seq<char>) -> bool {
    "- **"@.is_prefix_of(line)
}

/// The line of the root index for each tool, in the order of their names.
pub open spec fn tool_lines(r: ToolRegistry) -> Seq<Seq<char>> {
    Seq::new(
        r.names().len(),
        |i: int| index_line(r.names()[i], r@[r.names()[i]].model().description),
    )
}

proof fn lemma_filter_all(s: Seq<Seq<char>>)
    requires
        forall|i: int| 0 <= i < s.len() ==> is_list_line(#[trigger] s[i]),
    ensures
        s.filter(|l: Seq<char>| is_list_line(l)) == s,
    decreases s.len(),
{
    reveal(Seq::filter);
    if s.len() > 0 {
        let rest = s.drop_last();
        assert forall|i: int| 0 <= i < rest.len() implies is_list_line(#[trigger] rest[i]) by {
            assert(rest[i] == s[i]);
        }
        lemma_filter_all(rest);
        assert(is_list_line(s[s.len() - 1]));
        assert(rest.push(s.last()) =~= s);
    } else {
        assert(s.filter(|l: Seq<char>| is_list_line(l)) =~= s);
    }
}

proof fn lemma_filter_none(s: Seq<Seq<char>>)
    requires
        forall|i: int| 0 <= i < s.len() ==> !is_list_line(#[trigger] s[i]),
    ensures
        s.filter(|l: Seq<char>| is_list_line(l)) == Seq::<Seq<char>>::empty(),
    decreases s.len(),
{
    reveal(Seq::filter);
    if s.len() > 0 {
        let rest = s.drop_last();
        assert forall|i: int| 0 <= i < rest.len() implies !is_list_line(#[trigger] rest[i]) by {
            assert(rest[i] == s[i]);
        }
        lemma_filter_none(rest);
        assert(!is_list_line(s[s.len() - 1]));
    } else {
        assert(s.filter(|l: Seq<char>| is_list_line(l)) =~= s);
    }
}

/// The pieces of lines that are their own pieces.
proof fn lemma_single_pieces(lines: Seq<Seq<char>>)
    requires
        forall|i: int| 0 <= i < lines.len() ==> !(#[trigger] lines[i]).contains('\n'),
    ensures
        pieces_of(lines, '\n') == lines,
    decreases lines.len(),
{
    if lines.len() > 0 {
        let rest = lines.drop_last();
        assert forall|i: int| 0 <= i < rest.len() implies !(#[trigger] rest[i]).contains('\n') by {
            assert(rest[i] == lines[i]);
        }
        lemma_single_pieces(rest);
        assert(!lines[lines.len() - 1].contains('\n'));
        lemma_split_whole(lines.last(), '\n');
        assert(rest + seq![lines.last()] =~= lines);
    } else {
        assert(pieces_of(lines, '\n') =~= lines);
    }
}

/// The line of a tool is one line, and a list line.
proof fn lemma_tool_line(name: Seq<char>, desc: Seq<char>)
    requires
        !name.contains('\n'),
        !desc.contains('\n'),
    ensures
        !index_line(name, desc).contains('\n'),
        is_list_line(index_line(name, desc)),
{
    reveal_strlit("- **");
    reveal_strlit("** — ");
    let mark = "- **"@;
    let dash = "** — "@;
    let line = index_line(name, desc);
    assert forall|j: int| 0 <= j < line.len() implies line[j] != '\n' by {
        let n = mark.len() + name.len();
        if j < mark.len() {
            assert(line[j] == mark[j]);
        } else if j < n {
            assert(line[j] == name[j - mark.len()]);
        } else if j < n + dash.len() {
            assert(line[j] == dash[j - n]);
        } else {
            assert(line[j] == desc[j - n - dash.len()]);
        }
    }
    assert(line.subrange(0, mark.len() as int) =~= mark);
}

/// Whether no character of a text from the `i`th on is a newline.
spec fn is_one_line(s: Seq<char>, i: int) -> bool
    decreases s.len() - i,
{
    0 <= i < s.len() ==> s[i] != '\n' && is_one_line(s, i + 1)
}

proof fn lemma_one_line(s: Seq<char>, i: int)
    requires
        0 <= i,
        is_one_line(s, i),
    ensures
        forall|j: int| i <= j < s.len() ==> s[j] != '\n',
    decreases s.len() - i,
{
    if i < s.len() {
        lemma_one_line(s, i + 1);
    }
}

proof fn lemma_title()
    ensures
        forall|j: int| 0 <= j < 19 ==> "# LiveFolders Tools\n"@[j] != '\n',
        "# LiveFolders Tools\n"@.len() == 20,
        "# LiveFolders Tools\n"@[0] == '#',
        "# LiveFolders Tools\n"@[19] == '\n',
{
    reveal_strlit("# LiveFolders Tools\n");
}

proof fn lemma_hint()
    ensures
        forall|j: int|
            1 <= j < "\nRead `<tool>/how_to.md` to learn how to invoke each tool."@.len()
                ==> "\nRead `<tool>/how_to.md` to learn how to invoke each tool."@[j] != '\n',
        "\nRead `<tool>/how_to.md` to learn how to invoke each tool."@.len() > 10,
        "\nRead `<tool>/how_to.md` to learn how to invoke each tool."@[0] == '\n',
        "\nRead `<tool>/how_to.md` to learn how to invoke each tool."@[1] == 'R',
{
    reveal_strlit("\nRead `<tool>/how_to.md` to learn how to invoke each tool.");
    reveal_with_fuel(is_one_line, 70);
    lemma_one_line("\nRead `<tool>/how_to.md` to learn how to invoke each tool."@, 1);
}

/// The lines of a text that a newline ends or begins, and that begins with no list mark,
/// are no list lines.
proof fn lemma_no_list_line(s: Seq<char>, bare: Seq<char>)
    requires
        s == bare + seq!['\n'] + Seq::<char>::empty() || s == Seq::<char>::empty() + seq!['\n']
            + bare,
        bare.len() > 0,
        bare[0] != '-',
        !bare.contains('\n'),
    ensures
        split(s, '\n').filter(|l: Seq<char>| is_list_line(l)) == Seq::<Seq<char>>::empty(),
{
    reveal_strlit("- **");
    let nothing = Seq::<char>::empty();
    lemma_split_concat(bare, '\n', nothing);
    lemma_split_concat(nothing, '\n', bare);
    lemma_split_whole(bare, '\n');
    lemma_split_whole(nothing, '\n');
    assert(!is_list_line(bare)) by {
        if is_list_line(bare) {
            assert("- **"@ == bare.subrange(0, 4));
            assert(bare.subrange(0, 4)[0] == bare[0]);
        }
    }
    assert(!is_list_line(nothing));
    lemma_filter_none(seq![bare] + seq![nothing]);
    lemma_filter_none(seq![nothing] + seq![bare]);
}

/// The lines around those of the tools are no list lines.
proof fn lemma_other_lines()
    ensures
        split("# LiveFolders Tools\n"@, '\n').filter(|l: Seq<char>| is_list_line(l)) == Seq::<
            Seq<char>,
        >::empty(),
        split(
            "\nRead `<tool>/how_to.md` to learn how to invoke each tool."@,
            '\n',
        ).filter(|l: Seq<char>| is_list_line(l)) == Seq::<Seq<char>>::empty(),
{
    lemma_title();
    lemma_hint();
    let title = "# LiveFolders Tools\n"@;
    let hint = "\nRead `<tool>/how_to.md` to learn how to invoke each tool."@;
    let bare = title.drop_last();
    let tail = hint.drop_first();
    assert(title =~= bare + seq!['\n'] + Seq::<char>::empty());
    assert(hint =~= Seq::<char>::empty() + seq!['\n'] + tail);
    lemma_no_list_line(title, bare);
    lemma_no_list_line(hint, tail);
}

/// The lines of a text that is joined from a head, single lines and a tail.
proof fn lemma_joined_lines(title: Seq<char>, lines: Seq<Seq<char>>, hint: Seq<char>)
    requires
        forall|i: int| 0 <= i < lines.len() ==> !(#[trigger] lines[i]).contains('\n'),
    ensures
        split(join(seq![title] + lines + seq![hint], seq!['\n']), '\n') == split(title, '\n')
            + lines + split(hint, '\n'),
{
    let head = seq![title];
    let all = head + lines + seq![hint];
    assert(all.drop_last() =~= head + lines);
    assert(all.last() == hint);
    lemma_pieces_joined(all, '\n');
    lemma_pieces_split(head, lines);
    lemma_single_pieces(lines);
    assert(pieces_of(head, '\n') == split(title, '\n')) by {
        assert(head.drop_last().len() == 0);
        assert(pieces_of(head.drop_last(), '\n') =~= seq![]);
        assert(head.last() == title);
        assert(pieces_of(head, '\n') =~= split(title, '\n'));
    }
}

/// A text that is joined begins with its first part and ends with its last one.
proof fn lemma_joined_ends(parts: Seq<Seq<char>>, sep: Seq<char>)
    requires
        parts.len() > 1,
    ensures
        parts[0].is_prefix_of(join(parts, sep)),
        parts.last().is_suffix_of(join(parts, sep)),
{
    lemma_join_begins(parts, sep);
    let text = join(parts, sep);
    let last = parts.last();
    assert(text.subrange(text.len() - last.len(), text.len() as int) =~= last);
}

/// The list lines among some lines, where all are in the middle.
proof fn lemma_filter_middle(a: Seq<Seq<char>>, lines: Seq<Seq<char>>, b: Seq<Seq<char>>)
    requires
        forall|i: int| 0 <= i < lines.len() ==> is_list_line(#[trigger] lines[i]),
        a.filter(|l: Seq<char>| is_list_line(l)) == Seq::<Seq<char>>::empty(),
        b.filter(|l: Seq<char>| is_list_line(l)) == Seq::<Seq<char>>::empty(),
    ensures
        (a + lines + b).filter(|l: Seq<char>| is_list_line(l)) == lines,
{
    let f = |l: Seq<char>| is_list_line(l);
    lemma_filter_all(lines);
    Seq::filter_distributes_over_add(a + lines, b, f);
    Seq::filter_distributes_over_add(a, lines, f);
    assert(Seq::<Seq<char>>::empty() + lines + Seq::<Seq<char>>::empty() =~= lines);
}

/// The root index has exactly one list line for each tool, with its name and description,
/// in the order of the names, as long as these hold no newline; it begins with its title
/// and ends with the hint at `how_to.md`.
pub proof fn index_lists_every_tool(r: ToolRegistry)
    requires
        r.wf(),
        forall|i: int|
            0 <= i < r.names().len() ==> !(#[trigger] r.names()[i]).contains('\n')
                && !r@[r.names()[i]].model().description.contains('\n'),
    ensures
        ({
            let text = join(r.index_lines(), "\n"@);
            &&& split(text, '\n').filter(|l: Seq<char>| is_list_line(l)) == tool_lines(r)
            &&& "# LiveFolders Tools\n"@.is_prefix_of(text)
            &&& "\nRead `<tool>/how_to.md` to learn how to invoke each tool."@.is_suffix_of(text)
        }),
{
    assert("\n"@ =~= seq!['\n']) by {
        reveal_strlit("\n");
    }
    let lines = tool_lines(r);
    let title = "# LiveFolders Tools\n"@;
    let hint = "\nRead `<tool>/how_to.md` to learn how to invoke each tool."@;
    assert forall|i: int| 0 <= i < lines.len() implies !(#[trigger] lines[i]).contains('\n')
        && is_list_line(lines[i]) by {
        let name = r.names()[i];
        lemma_tool_line(name, r@[name].model().description);
    }
    lemma_other_lines();
    assert(r.index_lines() =~= seq![title] + lines + seq![hint]);
    lemma_joined_lines(title, lines, hint);
    lemma_filter_middle(split(title, '\n'), lines, split(hint, '\n'));
    lemma_joined_ends(r.index_lines(), seq!['\n']);
}

proof fn lemma_pieces_split(a: Seq<Seq<char>>, b: Seq<Seq<char>>)
    ensures
        pieces_of(a + b, '\n') == pieces_of(a, '\n') + pieces_of(b, '\n'),
    decreases b.len(),
{
    if b.len() == 0 {
        assert(a + b =~= a);
        assert(pieces_of(a, '\n') + pieces_of(b, '\n') =~= pieces_of(a, '\n'));
    } else {
        lemma_pieces_split(a, b.drop_last());
        assert((a + b).drop_last() =~= a + b.drop_last());
        assert((a + b).last() == b.last());
        assert(pieces_of(a + b, '\n') =~= pieces_of(a, '\n') + pieces_of(b, '\n'));
    }
}

proof fn lemma_join_begins(parts: Seq<Seq<char>>, sep: Seq<char>)
    requires
        parts.len() > 0,
    ensures
        parts[0].is_prefix_of(join(parts, sep)),
    decreases parts.len(),
{
    if parts.len() > 1 {
        lemma_join_begins(parts.drop_last(), sep);
        let a = join(parts.drop_last(), sep);
        let b = join(parts, sep);
        assert(b.subrange(0, parts[0].len() as int) =~= a.subrange(0, parts[0].len() as int));
    } else {
        assert(join(parts, sep).subrange(0, parts[0].len() as int) =~= parts[0]);
    }
}

/// Whether the system prompt shows a declared file: it runs something and is not hidden.
pub open spec fn is_shown(f: FileSpec) -> bool {
    !f.hidden && invokes(f.kind)
}

proof fn lemma_shown_lines(mount: Seq<char>, name: Seq<char>, files: Seq<FileSpec>)
    ensures
        concat(
            files.filter(|f: FileSpec| is_shown(f)).map_values(
                |f: FileSpec| prompt_file_line(mount, name, f),
            ),
        ) == concat(files.map_values(|f: FileSpec| prompt_file_line(mount, name, f))),
    decreases files.len(),
{
    reveal(Seq::filter);
    reveal_strlit("");
    let line = |f: FileSpec| prompt_file_line(mount, name, f);
    let show = |f: FileSpec| is_shown(f);
    let lines = files.map_values(line);
    let kept = files.filter(show).map_values(line);
    if files.len() > 0 {
        let rest = files.drop_last();
        lemma_shown_lines(mount, name, rest);
        assert(lines.drop_last() =~= rest.map_values(line));
        assert(lines.last() == line(files.last()));
        if is_shown(files.last()) {
            assert(kept.drop_last() =~= rest.filter(show).map_values(line));
            assert(kept.last() == line(files.last()));
        } else {
            assert(kept =~= rest.filter(show).map_values(line));
            assert(line(files.last()) =~= Seq::<char>::empty());
            assert(concat(lines) =~= concat(lines.drop_last()));
        }
    } else {
        assert(kept =~= lines);
    }
}

/// The system prompt shows the files that run something and are not hidden, and no others:
/// dropping the others from the manifests leaves it as it is.
pub proof fn prompt_shows_what_runs(
    r: ToolRegistry,
    mount: Seq<char>,
    manifests: Seq<Option<Manifest>>,
    fewer: Seq<Option<Manifest>>,
)
    requires
        fewer.len() == manifests.len(),
        forall|i: int|
            0 <= i < manifests.len() ==> match (#[trigger] manifests[i], fewer[i]) {
                (None, None) => true,
                (Some(m), Some(n)) => n.files@ == m.files@.filter(|f: FileSpec| is_shown(f)),
                _ => false,
            },
    ensures
        r.prompt(mount, fewer) == r.prompt(mount, manifests),
{
    let section = |ms: Seq<Option<Manifest>>, i: int|
        prompt_section(mount, r.names()[i], r@[r.names()[i]].model(), manifest_at(ms, i));
    let a = Seq::new(r.names().len(), |i: int| section(manifests, i));
    let b = Seq::new(r.names().len(), |i: int| section(fewer, i));
    assert forall|i: int| 0 <= i < a.len() implies a[i] == b[i] by {
        if i < manifests.len() {
            if let Some(m) = manifests[i] {
                lemma_shown_lines(mount, r.names()[i], m.files@);
            }
        }
    }
    assert(a =~= b);
    let one = Seq::new(
        r.names().len(),
        |i: int|
            prompt_section(
                mount,
                r.names()[i],
                r@[r.names()[i]].model(),
                manifest_at(manifests, i),
            ),
    );
    let two = Seq::new(
        r.names().len(),
        |i: int|
            prompt_section(
                mount,
                r.names()[i],
                r@[r.names()[i]].model(),
                manifest_at(fewer, i),
            ),
    );
    assert(one =~= a);
    assert(two =~= b);
}

} // verus!
