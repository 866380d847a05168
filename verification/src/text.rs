//! Character-level text operations: the model of the string functions of
//! std that the backup logic relies on (trimming, line splitting, searching),
//! each written over `Seq<char>` and implemented over `Vec<char>`.
use vstd::prelude::*;

verus! {

/// Appends one character to a string.
/// Contract of `String::push`: the string afterwards is the old one with `c` added at its end.
#[verifier::external_body]
fn push_char(s: &mut String, c: char)
    ensures
        final(s)@ == old(s)@.push(c),
{
    s.push(c);
}

/// The characters of `s`, in order.
pub fn chars_of(s: &str) -> (res: Vec<char>)
    ensures
        res@ == s@,
{
    let mut res: Vec<char> = Vec::new();
    for c in it: s.chars()
        invariant
            res@ == it.seq().take(it.index() as int),
    {
        res.push(c);
    }
    res
}

/// A string holding exactly the characters of `v`.
pub fn string_of(v: &[char]) -> (res: String)
    ensures
        res@ == v@,
{
    let mut res = String::new();
    let mut i: usize = 0;
    while i < v.len()
        invariant
            i <= v@.len(),
            res@ == v@.take(i as int),
        decreases v@.len() - i,
    {
        push_char(&mut res, v[i]);
        assert(v@.take(i + 1) == v@.take(i as int).push(v@[i as int]));
        i = i + 1;
    }
    assert(v@.take(v@.len() as int) == v@);
    res
}

/// `v` followed by `w`, as a new vector.
pub fn concat(v: &[char], w: &[char]) -> (res: Vec<char>)
    ensures
        res@ == v@ + w@,
{
    let mut res: Vec<char> = Vec::new();
    res.extend_from_slice(v);
    res.extend_from_slice(w);
    res
}

/// The characters `v[from..to]`, as a new vector.
pub fn slice_chars(v: &[char], from: usize, to: usize) -> (res: Vec<char>)
    requires
        from <= to <= v@.len(),
    ensures
        res@ == v@.subrange(from as int, to as int),
{
    let mut res: Vec<char> = Vec::new();
    let mut i = from;
    while i < to
        invariant
            from <= i <= to <= v@.len(),
            res@ == v@.subrange(from as int, i as int),
        decreases to - i,
    {
        res.push(v[i]);
        assert(v@.subrange(from as int, i + 1) == v@.subrange(from as int, i as int).push(v@[i as int]));
        i = i + 1;
    }
    res
}

// ---------------------------------------------------------------------------
// Whitespace and trimming
// ---------------------------------------------------------------------------

/// The characters with the Unicode `White_Space` property, which is what
/// `char::is_whitespace` and `str::trim_end` go by.
pub open spec fn is_white_space(c: char) -> bool {
    let u = c as u32;
    ||| 0x09 <= u <= 0x0D
    ||| u == 0x20
    ||| u == 0x85
    ||| u == 0xA0
    ||| u == 0x1680
    ||| 0x2000 <= u <= 0x200A
    ||| u == 0x2028
    ||| u == 0x2029
    ||| u == 0x202F
    ||| u == 0x205F
    ||| u == 0x3000
}

pub fn white_space(c: char) -> (r: bool)
    ensures
        r == is_white_space(c),
{
    let u = c as u32;
    (0x09 <= u && u <= 0x0D) || u == 0x20 || u == 0x85 || u == 0xA0 || u == 0x1680 || (0x2000 <= u
        && u <= 0x200A) || u == 0x2028 || u == 0x2029 || u == 0x202F || u == 0x205F || u == 0x3000
}

/// `s` without its trailing whitespace (`str::trim_end`).
pub open spec fn trim_end(s: Seq<char>) -> Seq<char>
    decreases s.len(),
{
    if s.len() > 0 && is_white_space(s.last()) {
        trim_end(s.drop_last())
    } else {
        s
    }
}

/// `s` without its trailing characters equal to `c` (`str::trim_end_matches` with a char).
pub open spec fn trim_end_char(s: Seq<char>, c: char) -> Seq<char>
    decreases s.len(),
{
    if s.len() > 0 && s.last() == c {
        trim_end_char(s.drop_last(), c)
    } else {
        s
    }
}

pub fn trim_end_exec(v: &[char]) -> (res: Vec<char>)
    ensures
        res@ == trim_end(v@),
{
    let mut n = v.len();
    assert(v@.take(n as int) == v@);
    while n > 0 && white_space(v[n - 1])
        invariant
            n <= v@.len(),
            trim_end(v@) == trim_end(v@.take(n as int)),
        decreases n,
    {
        assert(v@.take(n as int).drop_last() == v@.take(n - 1));
        n = n - 1;
    }
    assert(v@.subrange(0, n as int) == v@.take(n as int));
    slice_chars(v, 0, n)
}

pub fn trim_end_char_exec(v: &[char], c: char) -> (res: Vec<char>)
    ensures
        res@ == trim_end_char(v@, c),
{
    let mut n = v.len();
    assert(v@.take(n as int) == v@);
    while n > 0 && v[n - 1] == c
        invariant
            n <= v@.len(),
            trim_end_char(v@, c) == trim_end_char(v@.take(n as int), c),
        decreases n,
    {
        assert(v@.take(n as int).drop_last() == v@.take(n - 1));
        n = n - 1;
    }
    assert(v@.subrange(0, n as int) == v@.take(n as int));
    slice_chars(v, 0, n)
}

// ---------------------------------------------------------------------------
// Searching
// ---------------------------------------------------------------------------

/// `pat` stands in `s` at position `i`.
pub open spec fn occurs_at(s: Seq<char>, pat: Seq<char>, i: int) -> bool {
    0 <= i && i + pat.len() <= s.len() && s.subrange(i, i + pat.len()) == pat
}

/// `s` contains `pat` (`str::contains`).
pub open spec fn contains_seq(s: Seq<char>, pat: Seq<char>) -> bool {
    exists|i: int| #[trigger] occurs_at(s, pat, i)
}

pub open spec fn is_first_occurrence(s: Seq<char>, pat: Seq<char>, i: int) -> bool {
    &&& occurs_at(s, pat, i)
    &&& forall|j: int| 0 <= j < i ==> !#[trigger] occurs_at(s, pat, j)
}

pub open spec fn is_last_occurrence(s: Seq<char>, pat: Seq<char>, i: int) -> bool {
    &&& occurs_at(s, pat, i)
    &&& forall|j: int| i < j ==> !#[trigger] occurs_at(s, pat, j)
}

/// The position of the first occurrence of `pat` in `s` (`str::find`).
pub open spec fn find_spec(s: Seq<char>, pat: Seq<char>) -> Option<int> {
    if exists|i: int| is_first_occurrence(s, pat, i) {
        Some(choose|i: int| is_first_occurrence(s, pat, i))
    } else {
        None
    }
}

/// The position of the last occurrence of `pat` in `s` (`str::rfind`).
pub open spec fn rfind_spec(s: Seq<char>, pat: Seq<char>) -> Option<int> {
    if exists|i: int| is_last_occurrence(s, pat, i) {
        Some(choose|i: int| is_last_occurrence(s, pat, i))
    } else {
        None
    }
}

proof fn lemma_first_occurrence_unique(s: Seq<char>, pat: Seq<char>, i: int, j: int)
    requires
        is_first_occurrence(s, pat, i),
        is_first_occurrence(s, pat, j),
    ensures
        i == j,
{
    if i < j {
        assert(occurs_at(s, pat, i));
    } else if j < i {
        assert(occurs_at(s, pat, j));
    }
}

proof fn lemma_last_occurrence_unique(s: Seq<char>, pat: Seq<char>, i: int, j: int)
    requires
        is_last_occurrence(s, pat, i),
        is_last_occurrence(s, pat, j),
    ensures
        i == j,
{
    if i < j {
        assert(occurs_at(s, pat, j));
    } else if j < i {
        assert(occurs_at(s, pat, i));
    }
}

/// `find_spec` gives the position where `pat` stands with no occurrence
/// before it.
pub proof fn lemma_find_at(s: Seq<char>, pat: Seq<char>, i: int)
    requires
        occurs_at(s, pat, i),
        forall|j: int| 0 <= j < i ==> !#[trigger] occurs_at(s, pat, j),
    ensures
        find_spec(s, pat) == Some(i),
{
    assert(is_first_occurrence(s, pat, i));
    let w = choose|k: int| is_first_occurrence(s, pat, k);
    lemma_first_occurrence_unique(s, pat, i, w);
}

/// `rfind_spec` gives the position where `pat` stands with no occurrence
/// after it.
pub proof fn lemma_rfind_at(s: Seq<char>, pat: Seq<char>, i: int)
    requires
        occurs_at(s, pat, i),
        forall|j: int| i < j ==> !#[trigger] occurs_at(s, pat, j),
    ensures
        rfind_spec(s, pat) == Some(i),
{
    assert(is_last_occurrence(s, pat, i));
    let w = choose|k: int| is_last_occurrence(s, pat, k);
    lemma_last_occurrence_unique(s, pat, i, w);
}

/// A one-character pattern stands exactly where that character is.
pub proof fn lemma_occurs_char(s: Seq<char>, c: char, j: int)
    ensures
        occurs_at(s, seq![c], j) <==> (0 <= j < s.len() && s[j] == c),
{
    if 0 <= j < s.len() {
        if s[j] == c {
            assert(s.subrange(j, j + 1) =~= seq![c]);
        } else {
            assert(s.subrange(j, j + 1)[0] == s[j]);
        }
    }
}

/// The first `c` in `s` is at `i` when `s[i]` is `c` and no `c` comes before.
pub proof fn lemma_find_char(s: Seq<char>, c: char, i: int)
    requires
        0 <= i < s.len(),
        s[i] == c,
        forall|j: int| 0 <= j < i ==> s[j] != c,
    ensures
        find_spec(s, seq![c]) == Some(i),
{
    lemma_occurs_char(s, c, i);
    assert forall|j: int| 0 <= j < i implies !#[trigger] occurs_at(s, seq![c], j) by {
        lemma_occurs_char(s, c, j);
    }
    lemma_find_at(s, seq![c], i);
}

/// The last `c` in `s` is at `i` when `s[i]` is `c` and no `c` comes after.
pub proof fn lemma_rfind_char(s: Seq<char>, c: char, i: int)
    requires
        0 <= i < s.len(),
        s[i] == c,
        forall|j: int| i < j < s.len() ==> s[j] != c,
    ensures
        rfind_spec(s, seq![c]) == Some(i),
{
    lemma_occurs_char(s, c, i);
    assert forall|j: int| i < j implies !#[trigger] occurs_at(s, seq![c], j) by {
        lemma_occurs_char(s, c, j);
    }
    lemma_rfind_at(s, seq![c], i);
}

/// Where `s` holds no `c`, neither search finds one.
pub proof fn lemma_no_char(s: Seq<char>, c: char)
    requires
        forall|j: int| 0 <= j < s.len() ==> s[j] != c,
    ensures
        find_spec(s, seq![c]) is None,
        rfind_spec(s, seq![c]) is None,
{
    assert forall|j: int| !#[trigger] occurs_at(s, seq![c], j) by {
        lemma_occurs_char(s, c, j);
    }
}

/// Where `pat` stands in `s`, it has a last occurrence there.
pub proof fn lemma_last_occurrence_exists(s: Seq<char>, pat: Seq<char>, j: int)
    requires
        occurs_at(s, pat, j),
    ensures
        rfind_spec(s, pat) is Some,
        is_last_occurrence(s, pat, rfind_spec(s, pat)->0),
    decreases s.len() - j,
{
    if exists|k: int| j < k && #[trigger] occurs_at(s, pat, k) {
        let k = choose|k: int| j < k && #[trigger] occurs_at(s, pat, k);
        lemma_last_occurrence_exists(s, pat, k);
    } else {
        assert(is_last_occurrence(s, pat, j));
    }
}

/// Whether `pat` stands in `s` at position `i`.
fn matches_at(s: &[char], pat: &[char], i: usize) -> (r: bool)
    requires
        i <= s@.len(),
    ensures
        r == occurs_at(s@, pat@, i as int),
{
    if pat.len() > s.len() - i {
        return false;
    }
    let mut k: usize = 0;
    while k < pat.len()
        invariant
            i <= s@.len(),
            s@.len() <= usize::MAX,
            i + pat@.len() <= s@.len(),
            k <= pat@.len(),
            forall|m: int| 0 <= m < k ==> s@[i + m] == pat@[m],
        decreases pat@.len() - k,
    {
        if s[i + k] != pat[k] {
            assert(s@.subrange(i as int, i + pat@.len())[k as int] != pat@[k as int]);
            return false;
        }
        k = k + 1;
    }
    assert(s@.subrange(i as int, i + pat@.len()) =~= pat@);
    true
}

/// The position of the first occurrence of `pat` in `s`.
pub fn find_exec(s: &[char], pat: &[char]) -> (res: Option<usize>)
    ensures
        res matches Some(i) ==> find_spec(s@, pat@) == Some(i as int),
        res is None ==> find_spec(s@, pat@) is None,
        res is None <==> !contains_seq(s@, pat@),
{
    let mut i: usize = 0;
    loop
        invariant_except_break
            i <= s@.len(),
            forall|j: int| 0 <= j < i ==> !#[trigger] occurs_at(s@, pat@, j),
        ensures
            forall|j: int| 0 <= j <= s@.len() ==> !#[trigger] occurs_at(s@, pat@, j),
        decreases s@.len() - i,
    {
        if matches_at(s, pat, i) {
            assert(is_first_occurrence(s@, pat@, i as int));
            proof {
                let c = choose|k: int| is_first_occurrence(s@, pat@, k);
                lemma_first_occurrence_unique(s@, pat@, i as int, c);
            }
            return Some(i);
        }
        if i == s.len() {
            break;
        }
        i = i + 1;
    }
    assert forall|j: int| !#[trigger] occurs_at(s@, pat@, j) by {
        if 0 <= j <= s@.len() {
        }
    }
    None
}

/// The position of the last occurrence of `pat` in `s`.
pub fn rfind_exec(s: &[char], pat: &[char]) -> (res: Option<usize>)
    ensures
        res matches Some(i) ==> rfind_spec(s@, pat@) == Some(i as int),
        res is None ==> rfind_spec(s@, pat@) is None,
        res is None <==> !contains_seq(s@, pat@),
{
    let mut i: usize = s.len();
    loop
        invariant_except_break
            i <= s@.len(),
            forall|j: int| i < j ==> !#[trigger] occurs_at(s@, pat@, j),
        ensures
            forall|j: int| 0 <= j ==> !#[trigger] occurs_at(s@, pat@, j),
        decreases i,
    {
        if matches_at(s, pat, i) {
            assert(is_last_occurrence(s@, pat@, i as int));
            proof {
                let c = choose|k: int| is_last_occurrence(s@, pat@, k);
                lemma_last_occurrence_unique(s@, pat@, i as int, c);
            }
            return Some(i);
        }
        if i == 0 {
            break;
        }
        i = i - 1;
    }
    assert forall|j: int| !#[trigger] occurs_at(s@, pat@, j) by {
        if j < 0 {
        }
    }
    None
}

pub fn contains_exec(s: &[char], pat: &[char]) -> (r: bool)
    ensures
        r == contains_seq(s@, pat@),
{
    find_exec(s, pat).is_some()
}

/// Whether `c` occurs in `v`.
pub fn has_char(v: &[char], c: char) -> (r: bool)
    ensures
        r == v@.contains(c),
{
    let mut i: usize = 0;
    while i < v.len()
        invariant
            i <= v@.len(),
            forall|j: int| 0 <= j < i ==> v@[j] != c,
        decreases v@.len() - i,
    {
        if v[i] == c {
            return true;
        }
        i = i + 1;
    }
    false
}

// ---------------------------------------------------------------------------
// Lines
// ---------------------------------------------------------------------------

/// The first line of `s` and what follows its line ending, the line ending
/// being `\n` or `\r\n`; `None` where `s` holds no `\n`.
pub open spec fn split_first_line(s: Seq<char>) -> Option<(Seq<char>, Seq<char>)> {
    match find_spec(s, seq!['\n']) {
        Some(i) => {
            let raw = s.take(i);
            let line = if raw.len() > 0 && raw.last() == '\r' {
                raw.drop_last()
            } else {
                raw
            };
            Some((line, s.skip(i + 1)))
        },
        None => None,
    }
}

/// The lines of `s`, as `str::lines` yields them: split at `\n`, a `\r`
/// just before the `\n` dropped, no line after a final line ending.
pub open spec fn lines(s: Seq<char>) -> Seq<Seq<char>>
    decreases s.len(),
{
    if s.len() == 0 {
        Seq::empty()
    } else {
        match split_first_line(s) {
            Some((line, rest)) => {
                if rest.len() < s.len() {
                    seq![line] + lines(rest)
                } else {
                    seq![line]
                }
            },
            None => seq![s],
        }
    }
}

proof fn lemma_find_newline_bounds(s: Seq<char>)
    ensures
        find_spec(s, seq!['\n']) matches Some(i) ==> 0 <= i < s.len() && s[i] == '\n',
{
    if let Some(i) = find_spec(s, seq!['\n']) {
        assert(is_first_occurrence(s, seq!['\n'], i));
        assert(s.subrange(i, i + 1)[0] == '\n');
    }
}

/// Splits `s` at its first line ending.
pub fn split_first_line_exec(s: &[char]) -> (res: Option<(Vec<char>, Vec<char>)>)
    ensures
        res is None <==> split_first_line(s@) is None,
        res matches Some((line, rest)) ==> split_first_line(s@) == Some((line@, rest@)),
        res matches Some((line, rest)) ==> rest@.len() < s@.len(),
{
    let nl: Vec<char> = vec!['\n'];
    assert(nl@ =~= seq!['\n']);
    match find_exec(s, nl.as_slice()) {
        Some(i) => {
            proof {
                lemma_find_newline_bounds(s@);
            }
            let mut end = i;
            if i > 0 && s[i - 1] == '\r' {
                end = i - 1;
                assert(s@.take(i as int).drop_last() == s@.take(end as int));
            }
            let line = slice_chars(s, 0, end);
            let rest = slice_chars(s, i + 1, s.len());
            assert(s@.subrange(0, end as int) == s@.take(end as int));
            assert(s@.subrange(i + 1, s@.len() as int) == s@.skip(i + 1));
            Some((line, rest))
        },
        None => None,
    }
}

/// The lines of `s` (`str::lines`).
pub fn lines_exec(s: &[char]) -> (res: Vec<Vec<char>>)
    ensures
        res@.map_values(|l: Vec<char>| l@) == lines(s@),
{
    let mut out: Vec<Vec<char>> = Vec::new();
    let mut cur: Vec<char> = slice_chars(s, 0, s.len());
    assert(s@.subrange(0, s@.len() as int) == s@);
    loop
        invariant
            out@.map_values(|l: Vec<char>| l@) + lines(cur@) == lines(s@),
        decreases cur@.len(),
    {
        if cur.len() == 0 {
            assert(lines(cur@) == Seq::<Seq<char>>::empty());
            assert(out@.map_values(|l: Vec<char>| l@) + lines(cur@) == out@.map_values(
                |l: Vec<char>| l@,
            ));
            return out;
        }
        match split_first_line_exec(cur.as_slice()) {
            Some((line, rest)) => {
                let ghost old_out = out@.map_values(|l: Vec<char>| l@);
                let ghost line_v = line@;
                assert(lines(cur@) == seq![line_v] + lines(rest@));
                out.push(line);
                assert(out@.map_values(|l: Vec<char>| l@) == old_out.push(line_v));
                assert(old_out + (seq![line_v] + lines(rest@)) == old_out.push(line_v) + lines(
                    rest@,
                ));
                cur = rest;
            },
            None => {
                let ghost old_out = out@.map_values(|l: Vec<char>| l@);
                let ghost cur_v = cur@;
                assert(lines(cur@) == seq![cur_v]);
                out.push(cur);
                assert(out@.map_values(|l: Vec<char>| l@) == old_out.push(cur_v));
                assert(old_out + seq![cur_v] == old_out.push(cur_v));
                return out;
            },
        }
    }
}

/// `s` without any `c` (what `chars().filter(|&x| x != c).collect()` gives).
pub open spec fn remove_char(s: Seq<char>, c: char) -> Seq<char> {
    s.filter(other_than(c))
}

/// The test "is not `c`".
pub open spec fn other_than(c: char) -> spec_fn(char) -> bool {
    |x: char| x != c
}

pub fn remove_char_exec(v: &[char], c: char) -> (res: Vec<char>)
    ensures
        res@ == remove_char(v@, c),
{
    let mut res: Vec<char> = Vec::new();
    let mut i: usize = 0;
    while i < v.len()
        invariant
            i <= v@.len(),
            res@ == remove_char(v@.take(i as int), c),
        decreases v@.len() - i,
    {
        assert(v@.take(i + 1).drop_last() == v@.take(i as int));
        reveal(Seq::filter);
        if v[i] != c {
            res.push(v[i]);
        }
        i = i + 1;
    }
    assert(v@.take(v@.len() as int) == v@);
    res
}

/// No `c` is left after `remove_char`, and every other character stays.
pub proof fn lemma_remove_char(s: Seq<char>, c: char)
    ensures
        !remove_char(s, c).contains(c),
        forall|d: char| d != c ==> (#[trigger] remove_char(s, c).contains(d) <==> s.contains(d)),
{
    let pred = other_than(c);
    assert forall|k: int| 0 <= k < s.filter(pred).len() implies s.filter(pred)[k] != c by {
        s.lemma_filter_pred(pred, k);
    }
    assert forall|d: char| d != c implies (remove_char(s, c).contains(d) <==> s.contains(d)) by {
        if s.contains(d) {
            let k = choose|k: int| 0 <= k < s.len() && s[k] == d;
            s.lemma_filter_contains(pred, k);
        }
        if s.filter(pred).contains(d) {
            s.lemma_filter_contains_rev(pred, d);
        }
    }
}

/// Removing `c` from a text without `c` keeps the text whole.
pub proof fn lemma_remove_char_absent(s: Seq<char>, c: char)
    requires
        forall|j: int| 0 <= j < s.len() ==> s[j] != c,
    ensures
        remove_char(s, c) == s,
    decreases s.len(),
{
    reveal(Seq::filter);
    if s.len() > 0 {
        lemma_remove_char_absent(s.drop_last(), c);
        assert(s == s.drop_last().push(s.last()));
    }
}

/// Removing `c` works character by character: it splits over a
/// concatenation, drops a lone `c` and keeps a lone other character. These
/// fix the result for every text: the other characters, all of them, in
/// their order.
pub proof fn lemma_remove_char_pieces(a: Seq<char>, b: Seq<char>, c: char, x: char)
    ensures
        remove_char(a + b, c) == remove_char(a, c) + remove_char(b, c),
        remove_char(Seq::<char>::empty(), c) == Seq::<char>::empty(),
        remove_char(seq![x], c) == (if x == c {
            Seq::<char>::empty()
        } else {
            seq![x]
        }),
{
    Seq::filter_distributes_over_add(a, b, other_than(c));
    reveal(Seq::filter);
    assert(seq![x].drop_last() == Seq::<char>::empty());
    assert(Seq::<char>::empty().filter(other_than(c)) == Seq::<char>::empty());
    if x != c {
        assert(Seq::<char>::empty().push(x) == seq![x]);
    }
}

/// `trim_end` cuts off exactly the trailing whitespace: what it keeps is a
/// prefix of the text that does not end in whitespace, and all it cuts off
/// is whitespace.
pub proof fn lemma_trim_end(s: Seq<char>)
    ensures
        trim_end(s).len() <= s.len(),
        s.take(trim_end(s).len() as int) == trim_end(s),
        forall|j: int| trim_end(s).len() <= j < s.len() ==> is_white_space(#[trigger] s[j]),
        trim_end(s).len() == 0 || !is_white_space(trim_end(s).last()),
    decreases s.len(),
{
    if s.len() > 0 && is_white_space(s.last()) {
        lemma_trim_end(s.drop_last());
        let t = trim_end(s);
        assert forall|j: int| t.len() <= j < s.len() implies is_white_space(#[trigger] s[j]) by {
            if j < s.len() - 1 {
                assert(s.drop_last()[j] == s[j]);
            }
        }
        assert(s.take(t.len() as int) =~= s.drop_last().take(t.len() as int));
    } else {
        assert(s.take(s.len() as int) =~= s);
    }
}

/// `trim_end_char` cuts off exactly the trailing `c`s.
pub proof fn lemma_trim_end_char(s: Seq<char>, c: char)
    ensures
        trim_end_char(s, c).len() <= s.len(),
        s.take(trim_end_char(s, c).len() as int) == trim_end_char(s, c),
        forall|j: int| trim_end_char(s, c).len() <= j < s.len() ==> #[trigger] s[j] == c,
        trim_end_char(s, c).len() == 0 || trim_end_char(s, c).last() != c,
    decreases s.len(),
{
    if s.len() > 0 && s.last() == c {
        lemma_trim_end_char(s.drop_last(), c);
        let t = trim_end_char(s, c);
        assert forall|j: int| t.len() <= j < s.len() implies #[trigger] s[j] == c by {
            if j < s.len() - 1 {
                assert(s.drop_last()[j] == s[j]);
            }
        }
        assert(s.take(t.len() as int) =~= s.drop_last().take(t.len() as int));
    } else {
        assert(s.take(s.len() as int) =~= s);
    }
}

/// Trimming a text whose end is not all whitespace only touches that end.
pub proof fn lemma_trim_end_concat(x: Seq<char>, y: Seq<char>)
    requires
        trim_end(y).len() > 0,
    ensures
        trim_end(x + y) == x + trim_end(y),
    decreases y.len(),
{
    if y.len() > 0 && is_white_space(y.last()) {
        assert((x + y).drop_last() =~= x + y.drop_last());
        lemma_trim_end_concat(x, y.drop_last());
    } else {
        assert(y.len() > 0);
    }
}

/// Trimming twice is trimming once.
pub proof fn lemma_trim_end_idempotent(s: Seq<char>)
    ensures
        trim_end(trim_end(s)) == trim_end(s),
{
    lemma_trim_end(s);
}

/// An empty text has no lines.
pub proof fn lemma_lines_empty()
    ensures
        lines(Seq::<char>::empty()) == Seq::<Seq<char>>::empty(),
{
}

/// A non-empty text without line break is one line.
pub proof fn lemma_lines_single(a: Seq<char>)
    requires
        a.len() > 0,
        !a.contains('\n'),
    ensures
        lines(a) == seq![a],
{
    assert forall|j: int| 0 <= j < a.len() implies a[j] != '\n' by {
        if a[j] == '\n' {
            assert(a.contains('\n'));
        }
    }
    lemma_no_char(a, '\n');
}

/// A text that starts with a line `a` (no line break in it) and a `\n`
/// has the line `a` (its `\r` before the `\n` dropped) and then the lines
/// of what follows.
pub proof fn lemma_lines_split(a: Seq<char>, b: Seq<char>)
    requires
        !a.contains('\n'),
    ensures
        lines(a + seq!['\n'] + b) == seq![
            if a.len() > 0 && a.last() == '\r' {
                a.drop_last()
            } else {
                a
            },
        ] + lines(b),
{
    let s = a + seq!['\n'] + b;
    assert forall|j: int| 0 <= j < a.len() implies s[j] != '\n' by {
        assert(s[j] == a[j]);
        if a[j] == '\n' {
            assert(a.contains('\n'));
        }
    }
    assert(s[a.len() as int] == '\n');
    lemma_find_char(s, '\n', a.len() as int);
    assert(s.take(a.len() as int) =~= a);
    assert(s.skip(a.len() as int + 1) =~= b);
}

// ---------------------------------------------------------------------------
// Program output
// ---------------------------------------------------------------------------

/// The text `String::from_utf8_lossy` makes of a byte sequence: its
/// characters where the bytes are valid UTF-8, with invalid sequences
/// replaced by U+FFFD.
pub uninterp spec fn lossy_utf8(bytes: Seq<u8>) -> Seq<char>;

/// Decodes the output of a program (`String::from_utf8_lossy`). Its
/// documentation: valid UTF-8 comes back as the text it encodes; invalid
/// sequences are replaced. The replacement rule is not stated here beyond
/// the name `lossy_utf8`.
#[verifier::external_body]
fn from_utf8_lossy(bytes: &[u8]) -> (res: String)
    ensures
        res@ == lossy_utf8(bytes@),
        vstd::utf8::valid_utf8(bytes@) ==> res@ == vstd::utf8::decode_utf8(bytes@),
{
    String::from_utf8_lossy(bytes).into_owned()
}

/// The characters of a program's output.
pub fn output_text(bytes: &[u8]) -> (res: Vec<char>)
    ensures
        res@ == lossy_utf8(bytes@),
        vstd::utf8::valid_utf8(bytes@) ==> res@ == vstd::utf8::decode_utf8(bytes@),
{
    let s = from_utf8_lossy(bytes);
    chars_of(s.as_str())
}

} // verus!
