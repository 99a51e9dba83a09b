//! What holds of texts that are trimmed, cut, joined and compared.
use crate::number::{decimal, digits_value, is_digits, parsed_i32, signed_decimal};
use crate::order::before;
use crate::paths::{components, file_name_of, join_text, parent_of, path_text};
use crate::split::{
    join, replace_char, split, split_once, splitn, trim, trim_end, trim_end_of, trim_start,
    trim_start_of,
};
use crate::text::{
    concat, find, has, is_space, lemma_find_from, occurs_at, without_prefix, without_suffix,
};
use vstd::prelude::*;

verus! {

/// The characters that Unicode counts as white space.
pub open spec fn white(c: char) -> bool {
    let n = c as u32;
    n == 9 || n == 10 || n == 11 || n == 12 || n == 13 || n == 32 || n == 133 || n == 160 || n
        == 5760 || (8192 <= n && n <= 8202) || n == 8232 || n == 8233 || n == 8239 || n == 8287 || n
        == 12288
}

/// Whether a text is made of white space alone.
pub open spec fn blank(s: Seq<char>) -> bool {
    forall|i: int| 0 <= i < s.len() ==> white(#[trigger] s[i])
}

proof fn lemma_trim_start(s: Seq<char>) -> (n: int)
    ensures
        0 <= n <= s.len(),
        blank(s.take(n)),
        trim_start(s) == s.skip(n),
        n < s.len() ==> !white(s[n]),
    decreases s.len(),
{
    if s.len() > 0 && is_space(s[0]) {
        let m = lemma_trim_start(s.drop_first());
        assert forall|i: int| 0 <= i < m + 1 implies white(#[trigger] s.take(m + 1)[i]) by {
            if i > 0 {
                assert(s.drop_first().take(m)[i - 1] == s[i]);
            }
        }
        assert(s.drop_first().skip(m) =~= s.skip(m + 1));
        if m + 1 < s.len() {
            assert(s.drop_first()[m] == s[m + 1]);
        }
        m + 1
    } else {
        assert(s.skip(0) =~= s);
        0
    }
}

proof fn lemma_trim_end(s: Seq<char>) -> (n: int)
    ensures
        0 <= n <= s.len(),
        blank(s.skip(n)),
        trim_end(s) == s.take(n),
        n > 0 ==> !white(s[n - 1]),
    decreases s.len(),
{
    if s.len() > 0 && is_space(s.last()) {
        let m = lemma_trim_end(s.drop_last());
        assert forall|i: int| 0 <= i < s.len() - m implies white(#[trigger] s.skip(m)[i]) by {
            if i < s.len() - m - 1 {
                assert(s.drop_last().skip(m)[i] == s[i + m]);
            }
        }
        assert(s.drop_last().take(m) =~= s.take(m));
        m
    } else {
        assert(s.take(s.len() as int) =~= s);
        s.len() as int
    }
}

/// Trimming takes white space off both ends, all of it, and nothing else.
pub proof fn trimming_takes_white_space_only(s: Seq<char>)
    ensures
        exists|i: int, j: int|
            0 <= i <= j <= s.len() && trim(s) == #[trigger] s.subrange(i, j) && blank(s.take(i))
                && blank(s.skip(j)),
        trim(s).len() > 0 ==> !white(trim(s)[0]) && !white(trim(s).last()),
        trim(s).len() == 0 <==> blank(s),
{
    let i = lemma_trim_start(s);
    let t = s.skip(i);
    let m = lemma_trim_end(t);
    let j = i + m;
    assert(trim(s) =~= s.subrange(i, j));
    assert forall|k: int| 0 <= k < s.len() - j implies white(#[trigger] s.skip(j)[k]) by {
        assert(t.skip(m)[k] == s[j + k]);
    }
    if trim(s).len() > 0 {
        assert(trim(s)[0] == s[i]);
        assert(trim(s).last() == t[m - 1]);
    } else {
        assert forall|k: int| 0 <= k < s.len() implies white(#[trigger] s[k]) by {
            if k < i {
                assert(s.take(i)[k] == s[k]);
            } else {
                assert(s.skip(j)[k - j] == s[k]);
            }
        }
    }
    if blank(s) && trim(s).len() > 0 {
        assert(white(s[i]));
    }
}

/// A text so many times behind itself.
pub open spec fn repeated(pat: Seq<char>, n: nat) -> Seq<char>
    decreases n,
{
    if n == 0 {
        seq![]
    } else {
        pat + repeated(pat, (n - 1) as nat)
    }
}

proof fn lemma_repeated_end(pat: Seq<char>, n: nat)
    ensures
        repeated(pat, n + 1) == repeated(pat, n) + pat,
    decreases n,
{
    if n > 0 {
        lemma_repeated_end(pat, (n - 1) as nat);
        assert(repeated(pat, n + 1) =~= repeated(pat, n) + pat);
    } else {
        assert(repeated(pat, 1) =~= repeated(pat, 0) + pat);
    }
}

/// Taking a pattern off the beginning takes copies of it off, all of them, and nothing else.
pub proof fn prefixes_are_taken_off(s: Seq<char>, pat: Seq<char>)
    requires
        pat.len() > 0,
    ensures
        exists|n: nat| s == #[trigger] repeated(pat, n) + trim_start_of(s, pat),
        !pat.is_prefix_of(trim_start_of(s, pat)),
    decreases s.len(),
{
    if pat.is_prefix_of(s) {
        let rest = s.skip(pat.len() as int);
        prefixes_are_taken_off(rest, pat);
        let n = choose|n: nat| rest == #[trigger] repeated(pat, n) + trim_start_of(rest, pat);
        assert(s =~= pat + rest) by {
            assert(s.subrange(0, pat.len() as int) =~= pat);
        }
        assert(s =~= repeated(pat, n + 1) + trim_start_of(s, pat));
    } else {
        assert(s =~= repeated(pat, 0) + trim_start_of(s, pat));
    }
}

/// Taking a pattern off the end takes copies of it off, all of them, and nothing else.
pub proof fn suffixes_are_taken_off(s: Seq<char>, pat: Seq<char>)
    requires
        pat.len() > 0,
    ensures
        exists|n: nat| s == trim_end_of(s, pat) + #[trigger] repeated(pat, n),
        !pat.is_suffix_of(trim_end_of(s, pat)),
    decreases s.len(),
{
    if pat.is_suffix_of(s) {
        let rest = s.take(s.len() - pat.len());
        suffixes_are_taken_off(rest, pat);
        let n = choose|n: nat| rest == trim_end_of(rest, pat) + #[trigger] repeated(pat, n);
        assert(s =~= rest + pat) by {
            assert(s.subrange(s.len() - pat.len(), s.len() as int) =~= pat);
        }
        lemma_repeated_end(pat, n);
        assert(s =~= trim_end_of(s, pat) + repeated(pat, n + 1));
    } else {
        assert(s =~= trim_end_of(s, pat) + repeated(pat, 0));
    }
}

/// A text that begins with a prefix is the prefix and what is left, and so for a suffix.
pub proof fn affixes_are_stripped(s: Seq<char>, pat: Seq<char>, rest: Seq<char>)
    ensures
        without_prefix(pat + rest, pat) == Some(rest),
        without_suffix(rest + pat, pat) == Some(rest),
        without_prefix(s, pat) matches Some(t) ==> s == pat + t,
        without_suffix(s, pat) matches Some(t) ==> s == t + pat,
{
    let a = pat + rest;
    assert(a.subrange(0, pat.len() as int) =~= pat);
    assert(a.subrange(pat.len() as int, a.len() as int) =~= rest);
    let b = rest + pat;
    assert(b.subrange(b.len() - pat.len(), b.len() as int) =~= pat);
    assert(b.subrange(0, b.len() - pat.len()) =~= rest);
    if let Some(t) = without_prefix(s, pat) {
        assert(s =~= pat + t);
    }
    if let Some(t) = without_suffix(s, pat) {
        assert(s =~= t + pat);
    }
}

/// A text is cut at the first separator: what comes before it, the separator, and what
/// comes behind it are the text, and no separator begins earlier. A text that is not cut
/// holds none.
pub proof fn texts_are_cut_at_the_first_separator(s: Seq<char>, sep: Seq<char>)
    ensures
        match split_once(s, sep) {
            Some((a, b)) => s == a + sep + b && forall|i: int|
                0 <= i < a.len() ==> #[trigger] s.subrange(i, i + sep.len()) != sep,
            None => forall|i: int|
                0 <= i <= s.len() - sep.len() ==> #[trigger] s.subrange(i, i + sep.len()) != sep,
        },
{
    lemma_find_from(s, sep, 0);
    match find(s, sep) {
        Some(k) => {
            assert(occurs_at(s, sep, k));
            assert(s =~= s.subrange(0, k) + sep + s.subrange(k + sep.len(), s.len() as int));
            assert forall|i: int| 0 <= i < k implies #[trigger] s.subrange(i, i + sep.len()) != sep by {
                assert(!occurs_at(s, sep, i));
            }
        },
        None => {
            assert forall|i: int| 0 <= i <= s.len() - sep.len() implies #[trigger] s.subrange(
                i,
                i + sep.len(),
            ) != sep by {
                assert(!occurs_at(s, sep, i));
            }
        },
    }
}

/// Joining two lists of texts puts the separator between them, and one text is joined to
/// itself.
pub proof fn joining_puts_separators_between(
    a: Seq<Seq<char>>,
    b: Seq<Seq<char>>,
    one: Seq<char>,
    sep: Seq<char>,
)
    requires
        a.len() > 0,
        b.len() > 0,
    ensures
        join(a + b, sep) == join(a, sep) + sep + join(b, sep),
        join(seq![one], sep) == one,
        join(Seq::empty(), sep) == Seq::<char>::empty(),
    decreases b.len(),
{
    assert((a + b).drop_last() =~= a + b.drop_last());
    assert((a + b).last() == b.last());
    if b.len() > 1 {
        joining_puts_separators_between(a, b.drop_last(), one, sep);
        assert(join(a + b, sep) =~= join(a, sep) + sep + join(b, sep));
    } else {
        assert(a + b.drop_last() =~= a);
        assert(b.last() == b[0]);
    }
}

/// Putting lists of texts behind each other puts what they say behind each other.
pub proof fn concatenation_adds_up(a: Seq<Seq<char>>, b: Seq<Seq<char>>, one: Seq<char>)
    ensures
        concat(a + b) == concat(a) + concat(b),
        concat(seq![one]) == one,
        concat(Seq::empty()) == Seq::<char>::empty(),
    decreases b.len(),
{
    assert(seq![one].drop_last() =~= Seq::<Seq<char>>::empty());
    assert(concat(Seq::<Seq<char>>::empty()) =~= Seq::<char>::empty());
    assert(seq![one].last() == one);
    assert(concat(seq![one]) =~= one);
    if b.len() == 0 {
        assert(a + b =~= a);
        assert(concat(a) + concat(b) =~= concat(a));
    } else {
        concatenation_adds_up(a, b.drop_last(), one);
        assert((a + b).drop_last() =~= a + b.drop_last());
        assert((a + b).last() == b.last());
        assert(concat(a + b) =~= concat(a) + concat(b));
    }
}

/// Cutting a text undoes joining its pieces: the pieces of a text, joined, are the text,
/// there are no more of them than were asked for, and no piece but the last one of all that
/// were asked for holds the separator.
pub proof fn cutting_undoes_joining(s: Seq<char>, c: char, n: nat)
    requires
        n > 0,
    ensures
        join(splitn(s, c, n), seq![c]) == s,
        1 <= splitn(s, c, n).len() <= n,
        forall|i: int|
            0 <= i < splitn(s, c, n).len() - 1 ==> !(#[trigger] splitn(s, c, n)[i]).contains(c),
        splitn(s, c, n).len() < n ==> !splitn(s, c, n).last().contains(c),
    decreases n,
{
    let sep = seq![c];
    let pieces = splitn(s, c, n);
    texts_are_cut_at_the_first_separator(s, sep);
    if n > 1 {
        match split_once(s, sep) {
            None => {
                assert(join(pieces, sep) == s);
                assert forall|i: int| 0 <= i < s.len() implies s[i] != c by {
                    assert(s[i] == c ==> s.subrange(i, i + 1) =~= sep);
                }
            },
            Some((a, b)) => {
                let rest = splitn(b, c, (n - 1) as nat);
                cutting_undoes_joining(b, c, (n - 1) as nat);
                joining_puts_separators_between(seq![a], rest, a, sep);
                assert(pieces == seq![a] + rest);
                assert forall|i: int| 0 <= i < a.len() implies a[i] != c by {
                    assert(s[i] == a[i]);
                    assert(a[i] == c ==> s.subrange(i, i + 1) =~= sep);
                }
                assert forall|i: int| 0 <= i < pieces.len() - 1 implies !(#[trigger] pieces[i]).contains(
                    c,
                ) by {
                    if i > 0 {
                        assert(pieces[i] == rest[i - 1]);
                    }
                }
                assert(pieces.last() == rest.last());
            },
        }
    }
}

/// All pieces of a text are free of the separator, and joined they are the text.
pub proof fn all_pieces_make_the_text(s: Seq<char>, c: char)
    ensures
        join(split(s, c), seq![c]) == s,
        forall|i: int| 0 <= i < split(s, c).len() ==> !(#[trigger] split(s, c)[i]).contains(c),
{
    cutting_undoes_joining(s, c, s.len() + 1);
    crate::split::lemma_split_pieces(s, c, s.len() + 1);
}

/// Replacing a character changes that character and no other.
pub proof fn replacing_changes_one_character(s: Seq<char>, a: char, b: char, i: int)
    requires
        0 <= i < s.len(),
    ensures
        replace_char(s, a, b).len() == s.len(),
        s[i] == a ==> replace_char(s, a, b)[i] == b,
        s[i] != a ==> replace_char(s, a, b)[i] == s[i],
{
}

/// Numbers are written in decimal: a digit stands for itself, and ten times a number and a
/// digit is written as the number with the digit behind it. No number but zero begins with
/// a zero.
pub proof fn numbers_are_written_in_decimal(n: nat, d: nat)
    requires
        d < 10,
    ensures
        decimal(d) == seq![(0x30 + d) as char],
        n > 0 ==> decimal(n * 10 + d) == decimal(n).push((0x30 + d) as char),
        n > 0 ==> decimal(n)[0] != '0',
        signed_decimal(-(n as int) - 1) == seq!['-'] + decimal(n + 1),
        signed_decimal(n as int) == decimal(n),
    decreases n,
{
    reveal_strlit("-");
    assert("-"@ =~= seq!['-']);
    assert((n * 10 + d) / 10 == n && (n * 10 + d) % 10 == d);
    if n > 0 {
        if n >= 10 {
            numbers_are_written_in_decimal(n / 10, n % 10);
            crate::number::lemma_decimal(n / 10);
            assert(decimal(n)[0] == decimal(n / 10)[0]);
        }
    }
}

/// A process number is read from digits with or without a sign; anything else is none.
pub proof fn process_numbers_are_read(s: Seq<char>)
    ensures
        is_digits(s) && digits_value(s) <= i32::MAX ==> parsed_i32(s) == Some(
            digits_value(s) as i32,
        ) && parsed_i32(seq!['+'] + s) == Some(digits_value(s) as i32) && parsed_i32(seq!['-'] + s)
            == Some((-(digits_value(s) as int)) as i32),
        parsed_i32(s) is Some ==> s.len() > 0,
        forall|i: int|
            0 <= i < s.len() && !(48 <= (#[trigger] s[i]) as u32 && s[i] as u32 <= 57) && !(i == 0 && (s[i] == '-'
                || s[i] == '+')) ==> parsed_i32(s) is None,
{
    if is_digits(s) {
        assert(crate::number::is_digit(s[0]));
        let p = seq!['+'] + s;
        let m = seq!['-'] + s;
        assert(p.subrange(1, p.len() as int) =~= s);
        assert(m.subrange(1, m.len() as int) =~= s);
    }
    assert forall|i: int|
        0 <= i < s.len() && !(48 <= (#[trigger] s[i]) as u32 && s[i] as u32 <= 57) && !(i == 0 && (s[i] == '-'
            || s[i] == '+')) implies parsed_i32(s) is None by {
        let u = crate::number::unsigned_part(s);
        assert(!crate::number::is_digit(s[i]));
        if u.len() < s.len() {
            assert(u[i - 1] == s[i]);
            assert(!is_digits(u));
        } else {
            assert(u[i] == s[i]);
            assert(!is_digits(u));
        }
    }
}

/// The value of digits: one more digit multiplies by ten and adds the digit.
pub proof fn digits_count_tenfold(s: Seq<char>, d: nat)
    requires
        d < 10,
    ensures
        digits_value(s.push((0x30 + d) as char)) == digits_value(s) * 10 + d,
        digits_value(Seq::empty()) == 0,
        is_digits(seq![(0x30 + d) as char]),
{
    let c = (0x30 + d) as char;
    assert(s.push(c).drop_last() =~= s);
}

/// Texts are ordered by their first difference: behind a common beginning the smaller
/// character decides, and a text comes before every longer one that begins with it.
pub proof fn the_first_difference_decides(
    p: Seq<char>,
    c: char,
    d: char,
    x: Seq<char>,
    y: Seq<char>,
)
    ensures
        c < d ==> before(p + seq![c] + x, p + seq![d] + y),
        c > d ==> !before(p + seq![c] + x, p + seq![d] + y),
        before(p, p + seq![c] + x),
        !before(p + seq![c] + x, p),
    decreases p.len(),
{
    let a = p + seq![c] + x;
    let b = p + seq![d] + y;
    if p.len() > 0 {
        let q = p.drop_first();
        the_first_difference_decides(q, c, d, x, y);
        assert(a.drop_first() =~= q + seq![c] + x);
        assert(b.drop_first() =~= q + seq![d] + y);
        assert(a[0] == p[0] && b[0] == p[0]);
    }
}

/// A path below a directory: an absolute one stands for itself, another one comes behind the
/// directory and one slash.
pub proof fn paths_are_joined_by_one_slash(dir: Seq<char>, rest: Seq<char>)
    requires
        dir.len() > 0,
        rest.len() == 0 || rest[0] != '/',
    ensures
        dir.last() != '/' ==> join_text(dir, rest) == dir + seq!['/'] + rest,
        dir.last() == '/' ==> join_text(dir, rest) == dir + rest,
        join_text(dir, seq!['/'] + rest) == seq!['/'] + rest,
        join_text(Seq::empty(), rest) == rest,
{
    reveal_strlit("/");
    assert("/"@ =~= seq!['/']);
    assert(Seq::<char>::empty() + rest =~= rest);
}

/// A file is its name in the directory that holds it.
pub proof fn a_file_is_its_name_in_its_directory(path: Seq<Seq<char>>, name: Seq<char>)
    ensures
        name != "/"@ ==> parent_of(path.push(name)) == Some(path),
        name != "/"@ && name != "."@ && name != ".."@ ==> file_name_of(path.push(name)) == Some(
            name,
        ),
        file_name_of(path) is Some && parent_of(path) is Some ==> parent_of(path)->0.push(
            file_name_of(path)->0,
        ) == path,
{
    assert(path.push(name).drop_last() =~= path);
    if path.len() > 0 {
        assert(path.drop_last().push(path.last()) =~= path);
    }
}

/// What a path writes does not depend on doubled slashes and single dots in it, nor on a
/// slash at its end.
pub proof fn paths_ignore_doubled_slashes(a: Seq<char>, b: Seq<char>)
    requires
        a.len() > 0,
    ensures
        components(a + seq!['/', '/'] + b) == components(a + seq!['/'] + b),
        components(a + seq!['/', '.', '/'] + b) == components(a + seq!['/'] + b),
        components(a + seq!['/']) == components(a),
{
    reveal_strlit(".");
    reveal_strlit("");
    let one = seq!['/'] + b;
    let dot = seq!['.', '/'] + b;
    assert(a + seq!['/', '/'] + b =~= a + seq!['/'] + one);
    assert(a + seq!['/', '.', '/'] + b =~= a + seq!['/'] + dot);
    assert(a + seq!['/'] =~= a + seq!['/'] + Seq::<char>::empty());
    crate::paths::lemma_behind_slash(a, b);
    crate::paths::lemma_behind_slash(a, one);
    crate::paths::lemma_behind_slash(a, dot);
    crate::paths::lemma_behind_slash(a, Seq::empty());
    crate::split::lemma_split_concat(Seq::empty(), '/', b);
    crate::split::lemma_split_concat(seq!['.'], '/', b);
    crate::split::lemma_split_whole(Seq::empty(), '/');
    crate::split::lemma_split_whole(seq!['.'], '/');
    assert(one =~= Seq::<char>::empty() + seq!['/'] + b);
    assert(dot =~= seq!['.'] + seq!['/'] + b);
    assert(Seq::<char>::empty() =~= ""@);
    assert(seq!['.'] =~= "."@);
    crate::paths::lemma_no_component(""@, split(b, '/'));
    crate::paths::lemma_no_component("."@, split(b, '/'));
    crate::paths::lemma_no_component(""@, Seq::empty());
    assert(seq![""@] + Seq::<Seq<char>>::empty() =~= seq![""@]);
    assert(components(a) + crate::paths::named(Seq::empty()) =~= components(a)) by {
        crate::paths::lemma_nothing_named();
    }
}

/// A plain name below a directory is the directory and the name, and the text of a path
/// gives the path back.
pub proof fn plain_names_are_components(dir: Seq<Seq<char>>, name: Seq<char>)
    requires
        crate::paths::is_normal(dir),
        dir.len() > 0,
        name.len() > 0,
        name != seq!['.'],
        !name.contains('/'),
    ensures
        components(join_text(path_text(dir), name)) == dir.push(name),
        crate::paths::join_components(dir, name) == dir.push(name),
        components(path_text(dir)) == dir,
{
    reveal_strlit("");
    reveal_strlit(".");
    assert("."@ =~= seq!['.']);
    assert(""@.len() == 0);
    crate::paths::text_gives_components_back(dir);
    crate::paths::joined_text_gives_joined_components(path_text(dir), name);
    crate::paths::lemma_join_one(dir, name);
}

/// A path of several names below a directory is reached name by name.
pub proof fn paths_are_joined_name_by_name(dir: Seq<Seq<char>>, a: Seq<char>, b: Seq<char>)
    requires
        dir.len() > 0,
        a.len() > 0,
        a[0] != '/',
        b.len() > 0 ==> b[0] != '/',
    ensures
        crate::paths::join_components(dir, a + seq!['/'] + b) == crate::paths::join_components(
            crate::paths::join_components(dir, a),
            b,
        ),
{
    crate::split::lemma_split_concat(a, '/', b);
    let f = |p: Seq<char>| crate::paths::is_component(p);
    Seq::filter_distributes_over_add(split(a, '/'), split(b, '/'), f);
    assert((a + seq!['/'] + b)[0] == a[0]);
    assert(crate::paths::join_components(dir, a + seq!['/'] + b)
        =~= crate::paths::join_components(crate::paths::join_components(dir, a), b));
}

/// What lies below a directory is the directory and the rest of the path.
pub proof fn what_is_below_a_directory_begins_with_it(
    dir: Seq<Seq<char>>,
    rest: Seq<Seq<char>>,
    path: Seq<Seq<char>>,
)
    ensures
        crate::paths::below(dir, dir + rest) == Some(rest),
        crate::paths::below(dir, path) matches Some(r) ==> path == dir + r,
{
    assert((dir + rest).subrange(0, dir.len() as int) =~= dir);
    assert((dir + rest).subrange(dir.len() as int, (dir + rest).len() as int) =~= rest);
    if let Some(r) = crate::paths::below(dir, path) {
        assert(path =~= dir + r);
    }
}

/// A text whose beginning has no separator is cut behind that beginning; one without a
/// separator is not cut.
pub proof fn a_separator_is_found(a: Seq<char>, c: char, b: Seq<char>)
    requires
        !a.contains(c),
    ensures
        split_once(a + seq![c] + b, seq![c]) == Some((a, b)),
        split_once(a, seq![c]) is None,
        !b.contains(c) ==> split_once(b, seq![c]) is None,
{
    let whole = a + seq![c] + b;
    let k = a.len() as int;
    assert(whole.subrange(k, k + 1) =~= seq![c]);
    assert forall|j: int| 0 <= j < k implies !occurs_at(whole, seq![c], j) by {
        assert(whole[j] == a[j]);
        assert(whole.subrange(j, j + 1)[0] == whole[j]);
    }
    crate::text::lemma_find_is(whole, seq![c], k);
    assert(whole.subrange(0, k) =~= a);
    assert(whole.subrange(k + 1, whole.len() as int) =~= b);
    texts_are_cut_at_the_first_separator(a, seq![c]);
    if let Some((x, y)) = split_once(a, seq![c]) {
        assert(a[x.len() as int] == c);
    }
    texts_are_cut_at_the_first_separator(b, seq![c]);
    if let Some((x, y)) = split_once(b, seq![c]) {
        assert(b[x.len() as int] == c);
    }
}

/// A part of a text is found in it.
pub proof fn parts_are_found(a: Seq<char>, part: Seq<char>, b: Seq<char>)
    ensures
        has(a + part + b, part),
{
    let s = a + part + b;
    lemma_find_from(s, part, 0);
    let k = a.len() as int;
    assert(s.subrange(k, k + part.len()) =~= part);
    assert(occurs_at(s, part, k));
}

/// What is found in a text is a part of it.
pub proof fn found_parts_are_there(s: Seq<char>, part: Seq<char>)
    requires
        has(s, part),
    ensures
        exists|a: Seq<char>, b: Seq<char>| s == #[trigger] (a + part + b),
{
    lemma_find_from(s, part, 0);
    let k = find(s, part)->0;
    assert(occurs_at(s, part, k));
    assert(s =~= s.subrange(0, k) + part + s.subrange(k + part.len(), s.len() as int));
}

} // verus!
