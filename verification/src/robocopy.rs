//! The mirroring copies: where each folder goes, the command line of its
//! copy, the exit code read from the copy's status, and what that code means.
use vstd::prelude::*;
use crate::text::{
    chars_of, concat, contains_exec, contains_seq, find_exec, find_spec, lemma_find_char,
    lemma_remove_char,
    remove_char, remove_char_exec, slice_chars, string_of,
};
use crate::number::{decimal, lemma_decimal_digits, lemma_parse_decimal, parse_u64, parse_u64_exec};

verus! {

/// Where a folder is copied to: the target path, the computer's name, a
/// backslash, then the folder's path without its colons.
pub open spec fn target_path(unc: Seq<char>, computer: Seq<char>, locale: Seq<char>) -> Seq<char> {
    unc + computer + seq!['\\'] + remove_char(locale, ':')
}

pub fn target_path_exec(unc: &[char], computer: &[char], locale: &[char]) -> (res: Vec<char>)
    ensures
        res@ == target_path(unc@, computer@, locale@),
{
    let mut res = concat(unc, computer);
    res.push('\\');
    let rest = remove_char_exec(locale, ':');
    res.extend_from_slice(rest.as_slice());
    res
}

/// A target path ends in the folder's path with every colon dropped and
/// every other character kept.
pub proof fn lemma_target_path(unc: Seq<char>, computer: Seq<char>, locale: Seq<char>)
    ensures
        target_path(unc, computer, locale) == unc + computer + seq!['\\'] + remove_char(locale, ':'),
        !remove_char(locale, ':').contains(':'),
        forall|c: char| c != ':' ==> (#[trigger] remove_char(locale, ':').contains(c) <==> locale.contains(c)),
{
    lemma_remove_char(locale, ':');
}

/// The options every copy runs with, in order.
pub open spec fn copy_options() -> Seq<Seq<char>> {
    seq!["/MIR"@, "/copy:DAT"@, "/MT:32"@, "/Z"@, "/R:2"@, "/W:03"@, "/v"@]
}

/// The arguments of the copy of `source` to `target`, logging to `log`.
pub open spec fn copy_arguments(source: Seq<char>, target: Seq<char>, log: Seq<char>) -> Seq<Seq<char>> {
    seq![source, target] + copy_options() + seq!["/LOG:"@ + log]
}

/// The arguments of a copy.
pub fn copy_arguments_exec(source: &[char], target: &[char], log: &[char]) -> (res: Vec<String>)
    ensures
        res@.map_values(|a: String| a@) == copy_arguments(source@, target@, log@),
{
    let mut res: Vec<String> = Vec::new();
    res.push(string_of(source));
    res.push(string_of(target));
    res.push(String::from_str("/MIR"));
    res.push(String::from_str("/copy:DAT"));
    res.push(String::from_str("/MT:32"));
    res.push(String::from_str("/Z"));
    res.push(String::from_str("/R:2"));
    res.push(String::from_str("/W:03"));
    res.push(String::from_str("/v"));
    let opt = chars_of("/LOG:");
    res.push(string_of(concat(opt.as_slice(), log).as_slice()));
    assert(res@.map_values(|a: String| a@) =~= copy_arguments(source@, target@, log@));
    res
}

/// The exit code in a copy's status as its debug form shows it
/// (`ExitStatus(ExitStatus(3))`): the text after the second `(` up to the
/// next `)`, read as a number. `None` where a mark is missing or the text
/// is not a number.
pub open spec fn exit_code_spec(status: Seq<char>) -> Option<u64> {
    match find_spec(status, seq!['(']) {
        Some(i) => {
            let a = status.skip(i + 1);
            match find_spec(a, seq!['(']) {
                Some(j) => {
                    let b = a.skip(j + 1);
                    match find_spec(b, seq![')']) {
                        Some(k) => parse_u64(b.take(k)),
                        None => None,
                    }
                },
                None => None,
            }
        },
        None => None,
    }
}

proof fn lemma_found_in_range(s: Seq<char>, pat: Seq<char>)
    ensures
        find_spec(s, pat) matches Some(i) ==> 0 <= i && i + pat.len() <= s.len(),
{
    if find_spec(s, pat) is Some {
        let w = choose|i: int| crate::text::is_first_occurrence(s, pat, i);
        assert(crate::text::is_first_occurrence(s, pat, w));
    }
}

/// Reads the exit code from a copy's status.
pub fn exit_code(status: &[char]) -> (res: Option<u64>)
    ensures
        res == exit_code_spec(status@),
{
    let open: Vec<char> = vec!['('];
    assert(open@ =~= seq!['(']);
    let close: Vec<char> = vec![')'];
    assert(close@ =~= seq![')']);
    let i = match find_exec(status, open.as_slice()) {
        Some(i) => i,
        None => {
            return None;
        },
    };
    proof {
        lemma_found_in_range(status@, open@);
    }
    let n = status.len();
    let a = slice_chars(status, i + 1, n);
    assert(a@ == status@.skip(i + 1));
    let j = match find_exec(a.as_slice(), open.as_slice()) {
        Some(j) => j,
        None => {
            return None;
        },
    };
    proof {
        lemma_found_in_range(a@, open@);
    }
    let b = slice_chars(a.as_slice(), j + 1, a.len());
    assert(b@ == a@.skip(j + 1));
    let k = match find_exec(b.as_slice(), close.as_slice()) {
        Some(k) => k,
        None => {
            return None;
        },
    };
    proof {
        lemma_found_in_range(b@, close@);
    }
    let digits = slice_chars(b.as_slice(), 0, k);
    assert(digits@ == b@.take(k as int));
    parse_u64_exec(digits.as_slice())
}

/// The exit code read from a status written as its debug form shows it is
/// the number written between the second `(` and the next `)`, read as
/// `str::parse::<u64>` reads it.
pub proof fn lemma_exit_code_of_status(d: Seq<char>)
    requires
        !d.contains(')'),
    ensures
        exit_code_spec("ExitStatus(ExitStatus("@ + d + "))"@) == parse_u64(d),
{
    reveal_strlit("ExitStatus(ExitStatus(");
    reveal_strlit("))");
    let p = "ExitStatus(ExitStatus("@;
    let q = "))"@;
    let s = p + d + q;
    assert(p.len() == 22);
    lemma_find_char(s, '(', 10);
    let a = s.skip(11);
    assert(a =~= p.skip(11) + d + q);
    lemma_find_char(a, '(', 10);
    let b = a.skip(11);
    assert(b =~= d + q);
    assert forall|j: int| 0 <= j < d.len() implies b[j] != ')' by {
        assert(b[j] == d[j]);
        if d[j] == ')' {
            assert(d.contains(')'));
        }
    }
    lemma_find_char(b, ')', d.len() as int);
    assert(b.take(d.len() as int) =~= d);
}

/// Reading the exit code from the status of a process that exited with `n`
/// gives `n`.
pub proof fn lemma_exit_code_reads_back(n: u64)
    ensures
        exit_code_spec("ExitStatus(ExitStatus("@ + decimal(n as nat) + "))"@) == Some(n),
{
    lemma_decimal_digits(n as nat);
    let d = decimal(n as nat);
    if d.contains(')') {
        let k = choose|k: int| 0 <= k < d.len() && d[k] == ')';
        assert(crate::number::is_digit(d[k]));
    }
    lemma_exit_code_of_status(d);
    lemma_parse_decimal(n);
}

/// What a copy's exit code says.
#[derive(PartialEq, Eq, Structural, Debug, Clone, Copy)]
pub enum CopyCode {
    /// 0 or 1: the folder was mirrored.
    Clean,
    /// 2 or 3: extra files or folders were found at the target.
    ExtraFiles,
    /// 4 to 7: mismatched files or folders were found.
    Mismatched,
    /// 8 to 15: some files could not be copied.
    SomeFailed,
    /// 16: nothing was copied.
    NothingCopied,
    /// Above 16: a code the driver does not know.
    Unknown,
}

pub open spec fn classify_spec(code: u64) -> CopyCode {
    if code <= 1 {
        CopyCode::Clean
    } else if code <= 3 {
        CopyCode::ExtraFiles
    } else if code <= 7 {
        CopyCode::Mismatched
    } else if code <= 15 {
        CopyCode::SomeFailed
    } else if code == 16 {
        CopyCode::NothingCopied
    } else {
        CopyCode::Unknown
    }
}

/// Classifies a copy's exit code.
pub fn classify(code: u64) -> (r: CopyCode)
    ensures
        r == classify_spec(code),
{
    if code <= 1 {
        CopyCode::Clean
    } else if code <= 3 {
        CopyCode::ExtraFiles
    } else if code <= 7 {
        CopyCode::Mismatched
    } else if code <= 15 {
        CopyCode::SomeFailed
    } else if code == 16 {
        CopyCode::NothingCopied
    } else {
        CopyCode::Unknown
    }
}

/// The copy goes on to the next folder after this code (where the log of a
/// failed copy could be kept).
pub open spec fn code_continues(c: CopyCode) -> bool {
    !(c is NothingCopied || c is Unknown)
}

/// The log of a copy with this code is kept under its own name.
pub open spec fn code_keeps_log(c: CopyCode) -> bool {
    c is SomeFailed || c is NothingCopied || c is Unknown
}

pub open spec fn source_missing_text() -> Seq<char> {
    "ERROR 2 (0x00000002) Accessing Source Directory"@
}

pub open spec fn destination_missing_text() -> Seq<char> {
    "ERROR 3 (0x00000003) Creating Destination Directory"@
}

pub open spec fn log_path_invalid_text() -> Seq<char> {
    "ERROR 123 (0x0000007B) Opening Log File"@
}

/// Why nothing was copied, as the copy's output tells.
#[derive(PartialEq, Eq, Structural, Debug, Clone, Copy)]
pub enum NothingCopiedCause {
    /// The source folder does not exist.
    SourceMissing,
    /// The destination could not be created.
    DestinationMissing,
    /// The log file could not be opened.
    LogPathInvalid,
    /// The output names none of these.
    Other,
}

pub open spec fn nothing_copied_cause_spec(output: Seq<char>) -> NothingCopiedCause {
    if contains_seq(output, source_missing_text()) {
        NothingCopiedCause::SourceMissing
    } else if contains_seq(output, destination_missing_text()) {
        NothingCopiedCause::DestinationMissing
    } else if contains_seq(output, log_path_invalid_text()) {
        NothingCopiedCause::LogPathInvalid
    } else {
        NothingCopiedCause::Other
    }
}

/// Looks in a copy's output for why nothing was copied.
pub fn nothing_copied_cause(output: &[char]) -> (r: NothingCopiedCause)
    ensures
        r == nothing_copied_cause_spec(output@),
{
    let e2 = chars_of("ERROR 2 (0x00000002) Accessing Source Directory");
    let e3 = chars_of("ERROR 3 (0x00000003) Creating Destination Directory");
    let e123 = chars_of("ERROR 123 (0x0000007B) Opening Log File");
    if contains_exec(output, e2.as_slice()) {
        NothingCopiedCause::SourceMissing
    } else if contains_exec(output, e3.as_slice()) {
        NothingCopiedCause::DestinationMissing
    } else if contains_exec(output, e123.as_slice()) {
        NothingCopiedCause::LogPathInvalid
    } else {
        NothingCopiedCause::Other
    }
}

/// What each exit code means: 0 and 1 a clean copy, 2 and 3 extra files,
/// 4 to 7 mismatches, 8 to 15 some files not copied, 16 nothing copied,
/// above 16 unknown. Codes to 15 let the run go on; the log of a copy is
/// kept from 8 on.
pub proof fn lemma_classify_table(code: u64)
    ensures
        (classify_spec(code) == CopyCode::Clean) <==> code <= 1,
        (classify_spec(code) == CopyCode::ExtraFiles) <==> (2 <= code <= 3),
        (classify_spec(code) == CopyCode::Mismatched) <==> (4 <= code <= 7),
        (classify_spec(code) == CopyCode::SomeFailed) <==> (8 <= code <= 15),
        (classify_spec(code) == CopyCode::NothingCopied) <==> code == 16,
        (classify_spec(code) == CopyCode::Unknown) <==> code > 16,
        code_continues(classify_spec(code)) <==> code <= 15,
        code_keeps_log(classify_spec(code)) <==> code >= 8,
{
}

/// A copy's arguments: the source, the target, the seven options in their
/// order, and `/LOG:` with the log's path.
pub proof fn lemma_copy_arguments(source: Seq<char>, target: Seq<char>, log: Seq<char>)
    ensures
        copy_arguments(source, target, log).len() == 10,
        copy_arguments(source, target, log)[0] == source,
        copy_arguments(source, target, log)[1] == target,
        copy_arguments(source, target, log)[2] == "/MIR"@,
        copy_arguments(source, target, log)[3] == "/copy:DAT"@,
        copy_arguments(source, target, log)[4] == "/MT:32"@,
        copy_arguments(source, target, log)[5] == "/Z"@,
        copy_arguments(source, target, log)[6] == "/R:2"@,
        copy_arguments(source, target, log)[7] == "/W:03"@,
        copy_arguments(source, target, log)[8] == "/v"@,
        copy_arguments(source, target, log)[9] == "/LOG:"@ + log,
{
}

/// The cause of a copy that copied nothing comes from the first of the three
/// known error texts, in this order, that the output holds.
pub proof fn lemma_nothing_copied_cause(output: Seq<char>)
    ensures
        contains_seq(output, source_missing_text()) ==> nothing_copied_cause_spec(output)
            == NothingCopiedCause::SourceMissing,
        !contains_seq(output, source_missing_text()) && contains_seq(output, destination_missing_text())
            ==> nothing_copied_cause_spec(output) == NothingCopiedCause::DestinationMissing,
        !contains_seq(output, source_missing_text()) && !contains_seq(output, destination_missing_text())
            && contains_seq(output, log_path_invalid_text()) ==> nothing_copied_cause_spec(output)
            == NothingCopiedCause::LogPathInvalid,
        !contains_seq(output, source_missing_text()) && !contains_seq(output, destination_missing_text())
            && !contains_seq(output, log_path_invalid_text()) ==> nothing_copied_cause_spec(output)
            == NothingCopiedCause::Other,
{
}

} // verus!
