//! Reading the two configuration files: the backup destination (the first
//! line of its file, ending in a backslash) and the folders to back up (the
//! lines of their file that hold a backslash).
use vstd::prelude::*;
use crate::text::{
    chars_of, has_char, lemma_lines_single, lemma_lines_split, lemma_trim_end,
    lemma_trim_end_concat, lemma_trim_end_idempotent, lines, lines_exec, trim_end, trim_end_exec,
};

verus! {

/// What the destination is taken to be when its file holds no line at all.
pub open spec fn placeholder_destination() -> Seq<char> {
    "makeRustHappy"@
}

/// The first line of the destination file, without trailing whitespace
/// (the file itself is cut of trailing whitespace first).
pub open spec fn destination_line(contents: Seq<char>) -> Seq<char> {
    let ls = lines(trim_end(contents));
    if ls.len() == 0 {
        placeholder_destination()
    } else {
        trim_end(ls[0])
    }
}

/// The backup destination named by the destination file: its first line,
/// with a backslash added where it does not end in one. `None` where that
/// line is empty, for there is no last character to look at.
pub open spec fn destination_spec(contents: Seq<char>) -> Option<Seq<char>> {
    let line = destination_line(contents);
    if line.len() == 0 {
        None
    } else if line.last() == '\\' {
        Some(line)
    } else {
        Some(line.push('\\'))
    }
}

/// Reads the backup destination from the contents of its file.
pub fn destination_from_file(contents: &str) -> (res: Option<Vec<char>>)
    ensures
        res is None <==> destination_spec(contents@) is None,
        res matches Some(d) ==> destination_spec(contents@) == Some(d@),
{
    let all = chars_of(contents);
    let read = trim_end_exec(all.as_slice());
    let ls = lines_exec(read.as_slice());
    let ghost lv = ls@.map_values(|l: Vec<char>| l@);
    let line = if ls.len() == 0 {
        chars_of("makeRustHappy")
    } else {
        assert(lv[0] == ls@[0]@);
        trim_end_exec(ls[0].as_slice())
    };
    assert(line@ == destination_line(contents@));
    if line.len() == 0 {
        return None;
    }
    let mut line = line;
    if line[line.len() - 1] != '\\' {
        line.push('\\');
    }
    Some(line)
}

/// Where the destination is refused.
#[derive(PartialEq, Eq, Structural, Debug, Clone, Copy)]
pub enum DestinationCheck {
    /// Longer than the Windows path limit allows.
    TooLong,
    /// Empty.
    Empty,
    /// Usable.
    Usable,
}

pub open spec fn destination_check_spec(destination: Seq<char>) -> DestinationCheck {
    if destination.len() > crate::paths::MAX_PATH_WIN - 1 {
        DestinationCheck::TooLong
    } else if destination.len() == 0 {
        DestinationCheck::Empty
    } else {
        DestinationCheck::Usable
    }
}

/// Checks the destination's length.
pub fn check_destination(destination: &[char]) -> (r: DestinationCheck)
    ensures
        r == destination_check_spec(destination@),
{
    if destination.len() > (crate::paths::MAX_PATH_WIN - 1) as usize {
        DestinationCheck::TooLong
    } else if destination.len() == 0 {
        DestinationCheck::Empty
    } else {
        DestinationCheck::Usable
    }
}

/// The line names a folder: it holds a backslash.
pub open spec fn names_folder() -> spec_fn(Seq<char>) -> bool {
    |line: Seq<char>| line.contains('\\')
}

/// The folders to back up: the lines of the saves file (cut of trailing
/// whitespace first) that hold a backslash, in file order.
pub open spec fn save_locales_spec(contents: Seq<char>) -> Seq<Seq<char>> {
    lines(trim_end(contents)).filter(names_folder())
}

/// Reads the folders to back up from the contents of their file.
pub fn save_locales(contents: &str) -> (res: Vec<Vec<char>>)
    ensures
        res@.map_values(|l: Vec<char>| l@) == save_locales_spec(contents@),
{
    let all = chars_of(contents);
    let read = trim_end_exec(all.as_slice());
    let ls = lines_exec(read.as_slice());
    let ghost lv = ls@.map_values(|l: Vec<char>| l@);
    let mut res: Vec<Vec<char>> = Vec::new();
    let mut i: usize = 0;
    while i < ls.len()
        invariant
            i <= ls@.len(),
            lv == ls@.map_values(|l: Vec<char>| l@),
            lv == lines(trim_end(contents@)),
            res@.map_values(|l: Vec<char>| l@) == lv.take(i as int).filter(names_folder()),
        decreases ls@.len() - i,
    {
        let line = &ls[i];
        assert(lv[i as int] == line@);
        assert(lv.take(i + 1).drop_last() == lv.take(i as int));
        reveal(Seq::filter);
        let ghost before = res@.map_values(|l: Vec<char>| l@);
        if has_char(line.as_slice(), '\\') {
            res.push(line.clone());
            assert(res@.map_values(|l: Vec<char>| l@) == before.push(line@));
        }
        i = i + 1;
    }
    assert(lv.take(lv.len() as int) == lv);
    res
}

/// Every folder read holds a backslash, every line that holds one is read,
/// and no more are read than the file has lines.
pub proof fn lemma_save_locales(contents: Seq<char>)
    ensures
        forall|i: int|
            0 <= i < save_locales_spec(contents).len() ==> (#[trigger] save_locales_spec(
                contents,
            )[i]).contains('\\'),
        forall|i: int|
            0 <= i < lines(trim_end(contents)).len() && (#[trigger] lines(trim_end(contents))[i]).contains('\\')
                ==> save_locales_spec(contents).contains(lines(trim_end(contents))[i]),
        save_locales_spec(contents).len() <= lines(trim_end(contents)).len(),
{
    let ls = lines(trim_end(contents));
    assert forall|i: int| 0 <= i < save_locales_spec(contents).len() implies (#[trigger] save_locales_spec(contents)[i]).contains('\\') by {
        ls.lemma_filter_pred(names_folder(), i);
    }
    assert forall|i: int| 0 <= i < ls.len() && (#[trigger] ls[i]).contains('\\') implies save_locales_spec(contents).contains(ls[i]) by {
        ls.lemma_filter_contains(names_folder(), i);
    }
    ls.lemma_filter_len(names_folder());
}

/// A destination that is read ends in a backslash.
pub proof fn lemma_destination_ends_in_backslash(contents: Seq<char>)
    ensures
        destination_spec(contents) matches Some(d) ==> d.len() > 0 && d.last() == '\\',
{
}

/// A line as the destination: with a backslash added where it does not end in one.
pub open spec fn with_backslash(line: Seq<char>) -> Seq<char> {
    if line.last() == '\\' {
        line
    } else {
        line.push('\\')
    }
}

proof fn lemma_trimmed_line(a: Seq<char>)
    requires
        !a.contains('\n'),
        trim_end(a).len() > 0,
    ensures
        !trim_end(a).contains('\n'),
        lines(trim_end(a)) == seq![trim_end(a)],
{
    lemma_trim_end(a);
    let t = trim_end(a);
    if t.contains('\n') {
        let k = choose|k: int| 0 <= k < t.len() && t[k] == '\n';
        assert(a[k] == t[k]);
        assert(a.contains('\n'));
    }
    lemma_lines_single(t);
}

/// A destination file of one line names that line, cut of trailing
/// whitespace, with a backslash at its end.
pub proof fn lemma_destination_single_line(a: Seq<char>)
    requires
        !a.contains('\n'),
        trim_end(a).len() > 0,
    ensures
        destination_spec(a) == Some(with_backslash(trim_end(a))),
{
    lemma_trimmed_line(a);
    lemma_trim_end_idempotent(a);
}

/// A destination file with more lines names its first line only, cut of
/// trailing whitespace (a `\r` before the line break among it), with a
/// backslash at its end.
pub proof fn lemma_destination_first_line(a: Seq<char>, b: Seq<char>)
    requires
        !a.contains('\n'),
        trim_end(a).len() > 0,
        trim_end(b).len() > 0,
    ensures
        destination_spec(a + seq!['\n'] + b) == Some(with_backslash(trim_end(a))),
{
    lemma_trim_end_concat(a + seq!['\n'], b);
    lemma_lines_split(a, trim_end(b));
    assert(a + seq!['\n'] + trim_end(b) == (a + seq!['\n']) + trim_end(b));
    let line = if a.len() > 0 && a.last() == '\r' {
        a.drop_last()
    } else {
        a
    };
    assert(lines(trim_end(a + seq!['\n'] + b))[0] == line);
    if a.len() > 0 && a.last() == '\r' {
        assert(crate::text::is_white_space('\r'));
        assert(trim_end(a) == trim_end(a.drop_last()));
    }
}

/// A destination is refused as too long above 1023 characters and as empty
/// at 0; else it is usable.
pub proof fn lemma_destination_check_table(destination: Seq<char>)
    ensures
        (destination_check_spec(destination) == DestinationCheck::TooLong) <==> destination.len() > 1023,
        (destination_check_spec(destination) == DestinationCheck::Empty) <==> destination.len() == 0,
        (destination_check_spec(destination) == DestinationCheck::Usable) <==> (1 <= destination.len() <= 1023),
{
}

proof fn lemma_filter_single(line: Seq<char>)
    ensures
        seq![line].filter(names_folder()) == (if line.contains('\\') {
            seq![line]
        } else {
            Seq::<Seq<char>>::empty()
        }),
{
    reveal(Seq::filter);
    assert(seq![line].drop_last() =~= Seq::<Seq<char>>::empty());
    assert(Seq::<Seq<char>>::empty().filter(names_folder()) == Seq::<Seq<char>>::empty());
    assert(seq![line].last() == line);
    if line.contains('\\') {
        assert(Seq::<Seq<char>>::empty().push(line) =~= seq![line]);
    }
}

/// A saves file of one line names that line (cut of trailing whitespace)
/// where it holds a backslash, and nothing else.
pub proof fn lemma_save_locales_single(a: Seq<char>)
    requires
        !a.contains('\n'),
        trim_end(a).len() > 0,
    ensures
        save_locales_spec(a) == (if trim_end(a).contains('\\') {
            seq![trim_end(a)]
        } else {
            Seq::<Seq<char>>::empty()
        }),
{
    lemma_trimmed_line(a);
    lemma_filter_single(trim_end(a));
}

/// The folders of a saves file are its first line where that line holds a
/// backslash (with a `\r` before the line break dropped), followed by the
/// folders of the rest: every such line is kept, once, in file order.
pub proof fn lemma_save_locales_split(a: Seq<char>, b: Seq<char>)
    requires
        !a.contains('\n'),
        trim_end(b).len() > 0,
    ensures
        ({
            let line = if a.len() > 0 && a.last() == '\r' {
                a.drop_last()
            } else {
                a
            };
            save_locales_spec(a + seq!['\n'] + b) == (if line.contains('\\') {
                seq![line]
            } else {
                Seq::<Seq<char>>::empty()
            }) + save_locales_spec(b)
        }),
{
    let line = if a.len() > 0 && a.last() == '\r' {
        a.drop_last()
    } else {
        a
    };
    lemma_trim_end_concat(a + seq!['\n'], b);
    assert(a + seq!['\n'] + trim_end(b) == (a + seq!['\n']) + trim_end(b));
    lemma_lines_split(a, trim_end(b));
    Seq::filter_distributes_over_add(seq![line], lines(trim_end(b)), names_folder());
    lemma_filter_single(line);
}

} // verus!
