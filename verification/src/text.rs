//! Text as sequences of `char`: searching, replacing, splitting, trimming,
//! joining and number rendering, each with its meaning as a spec function.
use vstd::prelude::*;

verus! {

// ---------------------------------------------------------------------------
// Specifications
// ---------------------------------------------------------------------------

/// `pat` occurs in `s` starting at position `i`.
pub open spec fn occurs_at(s: Seq<char>, pat: Seq<char>, i: int) -> bool {
    0 <= i && i + pat.len() <= s.len() && s.subrange(i, i + pat.len()) == pat
}

/// The first position at or after `from` at which `pat` occurs in `s`.
pub open spec fn find_from(s: Seq<char>, pat: Seq<char>, from: int) -> Option<int>
    decreases s.len() - from,
{
    if from < 0 || from + pat.len() > s.len() {
        None
    } else if occurs_at(s, pat, from) {
        Some(from)
    } else if from >= s.len() {
        None
    } else {
        find_from(s, pat, from + 1)
    }
}

/// The first position at which `pat` occurs in `s` (`str::find`).
pub open spec fn find(s: Seq<char>, pat: Seq<char>) -> Option<int> {
    find_from(s, pat, 0)
}

/// `pat` occurs somewhere in `s` (`str::contains`).
pub open spec fn contains(s: Seq<char>, pat: Seq<char>) -> bool {
    find(s, pat) is Some
}

/// `s` begins with `pat` (`str::starts_with`).
pub open spec fn starts_with(s: Seq<char>, pat: Seq<char>) -> bool {
    pat.len() <= s.len() && s.subrange(0, pat.len() as int) == pat
}

/// `s` ends with `pat` (`str::ends_with`).
pub open spec fn ends_with(s: Seq<char>, pat: Seq<char>) -> bool {
    pat.len() <= s.len() && s.subrange(s.len() - pat.len(), s.len() as int) == pat
}

/// The last position of the character `c` in `s` (`str::rfind` with a char).
pub open spec fn rfind_char(s: Seq<char>, c: char) -> Option<int>
    decreases s.len(),
{
    if s.len() == 0 {
        None
    } else if s.last() == c {
        Some(s.len() - 1)
    } else {
        rfind_char(s.drop_last(), c)
    }
}

/// Every non-overlapping occurrence of `pat`, scanning from the left,
/// replaced by `rep` (`str::replace`); `pat` must not be empty.
pub open spec fn replace_all(s: Seq<char>, pat: Seq<char>, rep: Seq<char>) -> Seq<char>
    decreases s.len(),
{
    if pat.len() == 0 || s.len() < pat.len() {
        s
    } else if s.subrange(0, pat.len() as int) == pat {
        rep + replace_all(s.skip(pat.len() as int), pat, rep)
    } else {
        seq![s[0]] + replace_all(s.skip(1), pat, rep)
    }
}

/// The pieces joined with `sep` between neighbours (`[T]::join`).
pub open spec fn join(list: Seq<Seq<char>>, sep: Seq<char>) -> Seq<char>
    decreases list.len(),
{
    if list.len() == 0 {
        seq![]
    } else if list.len() == 1 {
        list[0]
    } else {
        join(list.drop_last(), sep) + sep + list.last()
    }
}

/// The pieces of `s` from position `k` on, between the occurrences of
/// `pat` (`str::split`); `pat` must not be empty.
pub open spec fn split_from(s: Seq<char>, pat: Seq<char>, k: int) -> Seq<Seq<char>>
    decreases s.len() - k,
{
    if pat.len() == 0 || k < 0 || k > s.len() {
        seq![s.subrange(k, s.len() as int)]
    } else {
        match find_from(s, pat, k) {
            None => seq![s.subrange(k, s.len() as int)],
            Some(i) => {
                proof {
                    lemma_find_from(s, pat, k);
                }
                seq![s.subrange(k, i)] + split_from(s, pat, i + pat.len())
            },
        }
    }
}

/// The pieces of `s` between the occurrences of `pat` (`str::split`):
/// always at least one piece.
pub open spec fn split_on(s: Seq<char>, pat: Seq<char>) -> Seq<Seq<char>> {
    split_from(s, pat, 0)
}

/// The pieces of `s` between the occurrences of the char `c`.
pub open spec fn split_char(s: Seq<char>, c: char) -> Seq<Seq<char>> {
    split_on(s, seq![c])
}

/// A line without the `\r` of a `\r\n` ending.
pub open spec fn strip_cr(line: Seq<char>) -> Seq<char> {
    if line.len() > 0 && line.last() == '\r' {
        line.drop_last()
    } else {
        line
    }
}

/// The lines of `s` (`str::lines`): split at `\n`, each line that ended in
/// `\r\n` loses its `\r`, and an empty last piece is no line.
pub open spec fn lines(s: Seq<char>) -> Seq<Seq<char>> {
    let pieces = split_char(s, '\n');
    let n = pieces.len() as int;
    let inner = pieces.take(n - 1).map_values(|p: Seq<char>| strip_cr(p));
    if pieces[n - 1].len() == 0 {
        inner
    } else {
        inner.push(pieces[n - 1])
    }
}

/// Unicode `White_Space`, the whitespace of `char::is_whitespace` and `str::trim`.
pub open spec fn is_ws(c: char) -> bool {
    ||| ('\u{9}' <= c && c <= '\u{d}')
    ||| c == ' '
    ||| c == '\u{85}'
    ||| c == '\u{a0}'
    ||| c == '\u{1680}'
    ||| ('\u{2000}' <= c && c <= '\u{200a}')
    ||| c == '\u{2028}'
    ||| c == '\u{2029}'
    ||| c == '\u{202f}'
    ||| c == '\u{205f}'
    ||| c == '\u{3000}'
}

/// `s` without its leading whitespace.
pub open spec fn trim_start(s: Seq<char>) -> Seq<char>
    decreases s.len(),
{
    if s.len() > 0 && is_ws(s[0]) {
        trim_start(s.skip(1))
    } else {
        s
    }
}

/// `s` without its trailing whitespace.
pub open spec fn trim_end(s: Seq<char>) -> Seq<char>
    decreases s.len(),
{
    if s.len() > 0 && is_ws(s.last()) {
        trim_end(s.drop_last())
    } else {
        s
    }
}

/// `s` without leading and trailing whitespace (`str::trim`).
pub open spec fn trim(s: Seq<char>) -> Seq<char> {
    trim_end(trim_start(s))
}

/// ASCII letters `a`..`z` raised to `A`..`Z`; every other char unchanged.
pub open spec fn upper_char(c: char) -> char {
    if 'a' <= c && c <= 'z' {
        ((c as u8) - 32) as u8 as char
    } else {
        c
    }
}

/// The text with its ASCII letters raised to upper case, char for char, so
/// that positions in it are positions in the text.
pub open spec fn upper(s: Seq<char>) -> Seq<char> {
    s.map_values(|c: char| upper_char(c))
}

/// ASCII letter or digit (`char::is_ascii_alphanumeric`).
pub open spec fn is_ascii_alnum(c: char) -> bool {
    ('a' <= c && c <= 'z') || ('A' <= c && c <= 'Z') || ('0' <= c && c <= '9')
}

/// The decimal digit for `d < 10`.
pub open spec fn digit(d: nat) -> char {
    if d == 0 { '0' }
    else if d == 1 { '1' }
    else if d == 2 { '2' }
    else if d == 3 { '3' }
    else if d == 4 { '4' }
    else if d == 5 { '5' }
    else if d == 6 { '6' }
    else if d == 7 { '7' }
    else if d == 8 { '8' }
    else { '9' }
}

/// The decimal rendering of `n` without leading zeros (`u64::to_string`).
pub open spec fn dec(n: nat) -> Seq<char>
    decreases n,
{
    if n < 10 {
        seq![digit(n)]
    } else {
        dec(n / 10) + seq![digit(n % 10)]
    }
}

/// The decimal rendering of a signed number (`i64::to_string`).
pub open spec fn dec_int(n: int) -> Seq<char> {
    if n < 0 {
        seq!['-'] + dec((-n) as nat)
    } else {
        dec(n as nat)
    }
}

/// The decimal rendering of `n` padded with zeros to at least two digits
/// (`format!("{:02}", n)`).
pub open spec fn dec2(n: nat) -> Seq<char> {
    if n < 10 {
        seq!['0', digit(n)]
    } else {
        dec(n)
    }
}

/// The texts held by a list of char vectors.
pub open spec fn views(v: Seq<Vec<char>>) -> Seq<Seq<char>> {
    v.map_values(|x: Vec<char>| x@)
}

// ---------------------------------------------------------------------------
// Lemmas
// ---------------------------------------------------------------------------

/// Replacing by something no longer never lengthens the text, and shortens
/// it where the pattern occurs.
pub proof fn lemma_replace_len(s: Seq<char>, pat: Seq<char>, rep: Seq<char>)
    requires
        pat.len() > 0,
        rep.len() <= pat.len(),
    ensures
        replace_all(s, pat, rep).len() <= s.len(),
        rep.len() < pat.len() && contains(s, pat) ==> replace_all(s, pat, rep).len() < s.len(),
    decreases s.len(),
{
    lemma_find(s, pat);
    if s.len() < pat.len() {
    } else if s.subrange(0, pat.len() as int) == pat {
        lemma_replace_len(s.skip(pat.len() as int), pat, rep);
    } else {
        lemma_replace_len(s.skip(1), pat, rep);
        if contains(s, pat) {
            let i = find(s, pat)->0;
            assert(i != 0);
            assert(s.skip(1).subrange(i - 1, i - 1 + pat.len()) =~= s.subrange(i, i + pat.len()));
            lemma_find(s.skip(1), pat);
            assert(occurs_at(s.skip(1), pat, i - 1));
        }
    }
}

/// `rfind_char` gives a position holding the char, with none after it.
pub proof fn lemma_rfind_char(s: Seq<char>, c: char)
    ensures
        rfind_char(s, c) matches Some(i) ==> 0 <= i < s.len() && s[i] == c
            && forall|j: int| i < j < s.len() ==> s[j] != c,
        rfind_char(s, c) is None ==> forall|j: int| 0 <= j < s.len() ==> s[j] != c,
    decreases s.len(),
{
    if s.len() > 0 && s.last() != c {
        lemma_rfind_char(s.drop_last(), c);
        assert forall|j: int| 0 <= j < s.len() - 1 implies s.drop_last()[j] == s[j] by {}
    }
}

/// Runs of spaces collapsed by replacing two spaces with one until no two
/// spaces are left.
pub open spec fn collapse_spaces(s: Seq<char>) -> Seq<char>
    decreases s.len(),
{
    if contains(s, seq![' ', ' ']) {
        proof {
            lemma_replace_len(s, seq![' ', ' '], seq![' ']);
        }
        collapse_spaces(replace_all(s, seq![' ', ' '], seq![' ']))
    } else {
        s
    }
}

/// What `find_from` gives back: a true occurrence with none before it.
pub proof fn lemma_find_from(s: Seq<char>, pat: Seq<char>, from: int)
    requires
        0 <= from,
    ensures
        find_from(s, pat, from) matches Some(i) ==> from <= i && occurs_at(s, pat, i)
            && forall|j: int| from <= j < i ==> !occurs_at(s, pat, j),
        find_from(s, pat, from) is None ==> forall|j: int| from <= j ==> !occurs_at(s, pat, j),
    decreases s.len() - from,
{
    if from + pat.len() > s.len() {
    } else if occurs_at(s, pat, from) {
    } else if from >= s.len() {
        assert(s.subrange(from, from) =~= pat);
    } else {
        lemma_find_from(s, pat, from + 1);
    }
}

/// Replacing in a text whose first part holds no char that begins the
/// pattern leaves that part as it is.
pub proof fn lemma_replace_skip(a: Seq<char>, rest: Seq<char>, pat: Seq<char>, rep: Seq<char>)
    requires
        pat.len() > 0,
        forall|i: int| 0 <= i < a.len() ==> a[i] != pat[0],
    ensures
        replace_all(a + rest, pat, rep) == a + replace_all(rest, pat, rep),
    decreases a.len(),
{
    let s = a + rest;
    if a.len() == 0 {
        assert(s =~= rest);
    } else if s.len() < pat.len() {
        assert(rest.len() < pat.len());
    } else {
        assert(s.subrange(0, pat.len() as int)[0] == a[0]);
        assert(s.subrange(0, pat.len() as int) != pat);
        lemma_replace_skip(a.skip(1), rest, pat, rep);
        assert(s.skip(1) =~= a.skip(1) + rest);
        assert(seq![s[0]] + (a.skip(1) + replace_all(rest, pat, rep)) =~= a + replace_all(
            rest,
            pat,
            rep,
        ));
    }
}

/// Replacing in a text whose first char does not begin the pattern keeps
/// that char first.
pub proof fn lemma_replace_keeps_first(s: Seq<char>, pat: Seq<char>, rep: Seq<char>)
    requires
        pat.len() > 0,
        s.len() > 0,
        s[0] != pat[0],
    ensures
        replace_all(s, pat, rep).len() > 0,
        replace_all(s, pat, rep)[0] == s[0],
{
    lemma_replace_skip(seq![s[0]], s.skip(1), pat, rep);
    assert(seq![s[0]] + s.skip(1) =~= s);
}

/// A piece that shares no char with the pattern survives replacing.
pub proof fn lemma_replace_keeps_disjoint(
    s: Seq<char>,
    q: Seq<char>,
    pat: Seq<char>,
    rep: Seq<char>,
    i: int,
)
    requires
        pat.len() > 0,
        q.len() > 0,
        occurs_at(s, q, i),
        forall|a: int, b: int| 0 <= a < q.len() && 0 <= b < pat.len() ==> q[a] != pat[b],
    ensures
        exists|j: int| occurs_at(replace_all(s, pat, rep), q, j),
    decreases s.len(),
{
    if i == 0 {
        lemma_replace_skip(q, s.skip(q.len() as int), pat, rep);
        assert(s =~= q + s.skip(q.len() as int));
        let r = replace_all(s, pat, rep);
        assert(r.subrange(0, q.len() as int) =~= q);
        assert(occurs_at(r, q, 0));
    } else if s.len() < pat.len() {
        assert(occurs_at(replace_all(s, pat, rep), q, i));
    } else if s.subrange(0, pat.len() as int) == pat {
        if i < pat.len() {
            assert(s[i] == s.subrange(0, pat.len() as int)[i]);
            assert(s[i] == s.subrange(i, i + q.len())[0]);
        }
        let t = s.skip(pat.len() as int);
        assert(t.subrange(i - pat.len(), i - pat.len() + q.len()) =~= s.subrange(i, i + q.len()));
        lemma_replace_keeps_disjoint(t, q, pat, rep, i - pat.len());
        let j = choose|j: int| occurs_at(replace_all(t, pat, rep), q, j);
        let r = replace_all(s, pat, rep);
        assert(r.subrange(rep.len() + j, rep.len() + j + q.len()) =~= replace_all(t, pat, rep).subrange(
            j,
            j + q.len(),
        ));
        assert(occurs_at(r, q, rep.len() + j));
    } else {
        let t = s.skip(1);
        assert(t.subrange(i - 1, i - 1 + q.len()) =~= s.subrange(i, i + q.len()));
        lemma_replace_keeps_disjoint(t, q, pat, rep, i - 1);
        let j = choose|j: int| occurs_at(replace_all(t, pat, rep), q, j);
        let r = replace_all(s, pat, rep);
        assert(r.subrange(1 + j, 1 + j + q.len()) =~= replace_all(t, pat, rep).subrange(j, j + q.len()));
        assert(occurs_at(r, q, 1 + j));
    }
}

/// A piece survives replacing when no occurrence of the pattern starts
/// less than a pattern's length before it or inside it; a piece at the
/// start stays at the start.
#[verifier::spinoff_prover]
pub proof fn lemma_replace_keeps_window(
    s: Seq<char>,
    q: Seq<char>,
    pat: Seq<char>,
    rep: Seq<char>,
    i: int,
)
    requires
        pat.len() > 0,
        q.len() > 0,
        occurs_at(s, q, i),
        forall|j: int| i - pat.len() < j < i + q.len() ==> !occurs_at(s, pat, j),
    ensures
        exists|j: int| occurs_at(replace_all(s, pat, rep), q, j),
        i == 0 ==> occurs_at(replace_all(s, pat, rep), q, 0),
    decreases s.len(),
{
    let r = replace_all(s, pat, rep);
    if s.len() < pat.len() {
        assert(occurs_at(r, q, i));
    } else if s.subrange(0, pat.len() as int) == pat {
        assert(occurs_at(s, pat, 0));
        let t = s.skip(pat.len() as int);
        assert(t.subrange(i - pat.len(), i - pat.len() + q.len()) =~= s.subrange(i, i + q.len()));
        assert forall|j: int| i - pat.len() - pat.len() < j < i - pat.len() + q.len() implies !occurs_at(
            t,
            pat,
            j,
        ) by {
            if 0 <= j && j + pat.len() <= t.len() {
                assert(t.subrange(j, j + pat.len()) =~= s.subrange(j + pat.len(), j + pat.len() + pat.len()));
                assert(!occurs_at(s, pat, j + pat.len()));
            }
        }
        lemma_replace_keeps_window(t, q, pat, rep, i - pat.len());
        let j = choose|j: int| occurs_at(replace_all(t, pat, rep), q, j);
        assert(r.subrange(rep.len() + j, rep.len() + j + q.len()) =~= replace_all(t, pat, rep).subrange(
            j,
            j + q.len(),
        ));
        assert(occurs_at(r, q, rep.len() + j));
    } else {
        let t = s.skip(1);
        if i == 0 && q.len() == 1 {
            assert(r[0] == s[0]);
            assert(r.subrange(0, 1) =~= q);
            assert(occurs_at(r, q, 0));
        } else {
            let q2 = if i == 0 { q.skip(1) } else { q };
            let i2 = if i == 0 { 0 } else { i - 1 };
            assert(t.subrange(i2, i2 + q2.len()) =~= s.subrange(i2 + 1, i2 + 1 + q2.len()));
            assert(s.subrange(i2 + 1, i2 + 1 + q2.len()) =~= q2) by {
                if i == 0 {
                    assert(s.subrange(1, q.len() as int) =~= s.subrange(0, q.len() as int).skip(1));
                }
            }
            assert forall|j: int| i2 - pat.len() < j < i2 + q2.len() implies !occurs_at(t, pat, j) by {
                if 0 <= j && j + pat.len() <= t.len() {
                    assert(t.subrange(j, j + pat.len()) =~= s.subrange(j + 1, j + 1 + pat.len()));
                    assert(!occurs_at(s, pat, j + 1));
                }
            }
            lemma_replace_keeps_window(t, q2, pat, rep, i2);
            let j = choose|j: int| occurs_at(replace_all(t, pat, rep), q2, j);
            let rt = replace_all(t, pat, rep);
            if i == 0 {
                assert(occurs_at(rt, q2, 0));
                assert(r =~= seq![s[0]] + rt);
                assert(r.subrange(0, q.len() as int) =~= seq![s[0]] + rt.subrange(0, q2.len() as int));
                assert(s[0] == q[0]);
                assert(q =~= seq![q[0]] + q2);
                assert(occurs_at(r, q, 0));
            } else {
                assert(r.subrange(1 + j, 1 + j + q.len()) =~= rt.subrange(j, j + q.len()));
                assert(occurs_at(r, q, 1 + j));
            }
        }
    }
}

/// Replacing a pattern that occurs puts the replacement in the result.
pub proof fn lemma_replace_hits(s: Seq<char>, pat: Seq<char>, rep: Seq<char>, i: int)
    requires
        pat.len() > 0,
        occurs_at(s, pat, i),
    ensures
        exists|j: int| occurs_at(replace_all(s, pat, rep), rep, j),
    decreases s.len(),
{
    let r = replace_all(s, pat, rep);
    if s.subrange(0, pat.len() as int) == pat {
        assert(r.subrange(0, rep.len() as int) =~= rep);
        assert(occurs_at(r, rep, 0));
    } else {
        assert(i > 0) by {
            if i == 0 {
                assert(s.subrange(0, pat.len() as int) =~= s.subrange(i, i + pat.len()));
            }
        }
        let t = s.skip(1);
        assert(t.subrange(i - 1, i - 1 + pat.len()) =~= s.subrange(i, i + pat.len()));
        lemma_replace_hits(t, pat, rep, i - 1);
        let j = choose|j: int| occurs_at(replace_all(t, pat, rep), rep, j);
        assert(r.subrange(1 + j, 1 + j + rep.len()) =~= replace_all(t, pat, rep).subrange(
            j,
            j + rep.len(),
        ));
        assert(occurs_at(r, rep, 1 + j));
    }
}

/// A piece inside a piece that occurs in a text occurs in the text.
pub proof fn lemma_occurs_within(s: Seq<char>, outer: Seq<char>, q: Seq<char>, i: int, k: int)
    requires
        occurs_at(s, outer, i),
        occurs_at(outer, q, k),
    ensures
        occurs_at(s, q, i + k),
{
    assert(s.subrange(i + k, i + k + q.len()) =~= outer.subrange(k, k + q.len()));
}

/// The last piece ends a join.
pub proof fn lemma_join_ends_with_last(list: Seq<Seq<char>>, sep: Seq<char>)
    requires
        list.len() > 0,
    ensures
        occurs_at(join(list, sep), list.last(), join(list, sep).len() - list.last().len()),
{
    let j = join(list, sep);
    if list.len() == 1 {
        assert(j.subrange(0, j.len() as int) =~= list.last());
    } else {
        let p = join(list.drop_last(), sep) + sep;
        assert(j =~= p + list.last());
        assert(j.subrange(p.len() as int, j.len() as int) =~= list.last());
    }
}

/// A text in which a piece occurs contains it.
pub proof fn lemma_contains_at(s: Seq<char>, q: Seq<char>, i: int)
    requires
        occurs_at(s, q, i),
    ensures
        contains(s, q),
{
    lemma_find(s, q);
}

/// Replacing in a text that begins with the pattern.
pub proof fn lemma_replace_head(rest: Seq<char>, pat: Seq<char>, rep: Seq<char>)
    requires
        pat.len() > 0,
    ensures
        replace_all(pat + rest, pat, rep) == rep + replace_all(rest, pat, rep),
{
    let s = pat + rest;
    assert(s.subrange(0, pat.len() as int) =~= pat);
    assert(s.skip(pat.len() as int) =~= rest);
}

/// `find` gives the first occurrence.
pub proof fn lemma_find(s: Seq<char>, pat: Seq<char>)
    ensures
        find(s, pat) matches Some(i) ==> 0 <= i && i + pat.len() <= s.len() && occurs_at(s, pat, i)
            && forall|j: int| 0 <= j < i ==> !occurs_at(s, pat, j),
        find(s, pat) is None ==> forall|j: int| 0 <= j ==> !occurs_at(s, pat, j),
{
    lemma_find_from(s, pat, 0);
}

// ---------------------------------------------------------------------------
// Conversions between `str`/`String` and `Vec<char>`
// ---------------------------------------------------------------------------

/// Appends one char to a `String` (std `String::push`): the text grows by
/// exactly that char.
#[verifier::external_body]
fn string_push(s: &mut String, c: char)
    ensures
        final(s)@ == old(s)@.push(c),
{
    s.push(c);
}

/// The text in upper case under Unicode's case mapping, as
/// `str::to_uppercase` gives it.
pub uninterp spec fn unicode_upper(s: Seq<char>) -> Seq<char>;

/// `str::to_uppercase`: the text in upper case under Unicode's full case
/// mapping, which does not depend on the locale; a function of the text
/// alone, named [`unicode_upper`].
#[verifier::external_body]
fn to_uppercase_string(s: &str) -> (r: String)
    ensures
        r@ == unicode_upper(s@),
{
    s.to_uppercase()
}

/// The chars in upper case under Unicode's case mapping.
pub fn unicode_upper_exec(s: &[char]) -> (r: Vec<char>)
    ensures
        r@ == unicode_upper(s@),
{
    let t = string_of(s);
    chars_of(to_uppercase_string(t.as_str()).as_str())
}

/// The chars of a string slice.
pub fn chars_of(s: &str) -> (v: Vec<char>)
    ensures
        v@ == s@,
{
    let n = s.unicode_len();
    let mut v: Vec<char> = Vec::new();
    let mut i: usize = 0;
    while i < n
        invariant
            n == s@.len(),
            i <= n,
            v@ == s@.take(i as int),
        decreases n - i,
    {
        v.push(s.get_char(i));
        i = i + 1;
        assert(v@ =~= s@.take(i as int));
    }
    assert(v@ =~= s@);
    v
}

/// A `String` holding exactly the given chars.
pub fn string_of(v: &[char]) -> (s: String)
    ensures
        s@ == v@,
{
    let mut s = String::new();
    let mut i: usize = 0;
    while i < v.len()
        invariant
            i <= v@.len(),
            s@ == v@.take(i as int),
        decreases v.len() - i,
    {
        string_push(&mut s, v[i]);
        i = i + 1;
        assert(s@ =~= v@.take(i as int));
    }
    assert(v@.take(v@.len() as int) =~= v@);
    s
}

// ---------------------------------------------------------------------------
// Executable text operations on `Vec<char>`
// ---------------------------------------------------------------------------

/// Whether `pat` occurs in `s` at position `i`.
pub fn occurs_at_exec(s: &[char], pat: &[char], i: usize) -> (r: bool)
    ensures
        r == occurs_at(s@, pat@, i as int),
{
    if i > s.len() || pat.len() > s.len() - i {
        return false;
    }
    let n = s.len();
    let mut j: usize = 0;
    while j < pat.len()
        invariant
            n == s@.len(),
            i + pat@.len() <= s@.len(),
            j <= pat@.len(),
            forall|k: int| 0 <= k < j ==> s@[i + k] == pat@[k],
        decreases pat.len() - j,
    {
        assert(i + j < s@.len());
        if s[i + j] != pat[j] {
            assert(s@.subrange(i as int, i + pat@.len())[j as int] != pat@[j as int]);
            return false;
        }
        j = j + 1;
    }
    assert(s@.subrange(i as int, i + pat@.len()) =~= pat@);
    true
}

/// The first position at or after `from` of `pat` in `s`.
pub fn find_from_exec(s: &[char], pat: &[char], from: usize) -> (r: Option<usize>)
    ensures
        r matches Some(i) ==> find_from(s@, pat@, from as int) == Some(i as int),
        r is None ==> find_from(s@, pat@, from as int) is None,
{
    let mut i: usize = from;
    while i <= s.len() && pat.len() <= s.len() - i
        invariant
            from <= i,
            i <= s@.len() + 1 || i == from,
            find_from(s@, pat@, from as int) == find_from(s@, pat@, i as int),
        decreases s.len() + 1 - i,
    {
        if occurs_at_exec(s, pat, i) {
            return Some(i);
        }
        if i == s.len() {
            assert(s@.subrange(i as int, i as int) =~= pat@);
            return None;
        }
        i = i + 1;
    }
    None
}

/// The first position of `pat` in `s`.
pub fn find_exec(s: &[char], pat: &[char]) -> (r: Option<usize>)
    ensures
        r matches Some(i) ==> find(s@, pat@) == Some(i as int),
        r is None ==> find(s@, pat@) is None,
{
    find_from_exec(s, pat, 0)
}

/// The first position of the char `c` in `s`.
pub fn find_char_exec(s: &[char], c: char) -> (r: Option<usize>)
    ensures
        r matches Some(i) ==> find(s@, seq![c]) == Some(i as int),
        r is None ==> find(s@, seq![c]) is None,
{
    let pat: Vec<char> = vec![c];
    assert(pat@ =~= seq![c]);
    find_exec(s, &pat)
}

/// The last position of the char `c` in `s`.
pub fn rfind_char_exec(s: &[char], c: char) -> (r: Option<usize>)
    ensures
        r matches Some(i) ==> rfind_char(s@, c) == Some(i as int),
        r is None ==> rfind_char(s@, c) is None,
{
    let mut k: usize = s.len();
    assert(s@.take(k as int) =~= s@);
    while k > 0
        invariant
            k <= s@.len(),
            rfind_char(s@, c) == rfind_char(s@.take(k as int), c),
        decreases k,
    {
        assert(s@.take(k as int).drop_last() =~= s@.take(k - 1));
        if s[k - 1] == c {
            return Some(k - 1);
        }
        k = k - 1;
    }
    None
}

/// The pieces of `s` between the occurrences of `pat`.
pub fn split_exec(s: &[char], pat: &[char]) -> (r: Vec<Vec<char>>)
    requires
        pat@.len() > 0,
    ensures
        r@.map_values(|v: Vec<char>| v@) == split_on(s@, pat@),
{
    let mut r: Vec<Vec<char>> = Vec::new();
    let mut k: usize = 0;
    loop
        invariant
            pat@.len() > 0,
            k <= s@.len(),
            r@.map_values(|v: Vec<char>| v@) + split_from(s@, pat@, k as int) == split_on(s@, pat@),
        decreases s.len() - k,
    {
        proof {
            lemma_find_from(s@, pat@, k as int);
        }
        match find_from_exec(s, pat, k) {
            None => {
                let piece = slice_exec(s, k, s.len());
                let ghost before = r@.map_values(|v: Vec<char>| v@);
                r.push(piece);
                assert(r@.map_values(|v: Vec<char>| v@) =~= before.push(piece@));
                assert(r@.map_values(|v: Vec<char>| v@) =~= split_on(s@, pat@));
                return r;
            },
            Some(i) => {
                let piece = slice_exec(s, k, i);
                let ghost before = r@.map_values(|v: Vec<char>| v@);
                r.push(piece);
                assert(r@.map_values(|v: Vec<char>| v@) =~= before.push(piece@));
                assert(before + split_from(s@, pat@, k as int) =~= before.push(piece@) + split_from(
                    s@,
                    pat@,
                    i + pat@.len(),
                ));
                k = i + pat.len();
            },
        }
    }
}

/// Two texts are equal.
pub fn chars_eq(a: &[char], b: &[char]) -> (r: bool)
    ensures
        r == (a@ == b@),
{
    if a.len() != b.len() {
        return false;
    }
    let mut i: usize = 0;
    while i < a.len()
        invariant
            a@.len() == b@.len(),
            i <= a@.len(),
            forall|j: int| 0 <= j < i ==> a@[j] == b@[j],
        decreases a.len() - i,
    {
        if a[i] != b[i] {
            return false;
        }
        i = i + 1;
    }
    assert(a@ =~= b@);
    true
}

/// Two string slices are equal.
pub fn str_eq(a: &str, b: &str) -> (r: bool)
    ensures
        r == (a@ == b@),
{
    let x = chars_of(a);
    let y = chars_of(b);
    chars_eq(&x, &y)
}

/// The decimal digit for `d < 10`.
pub fn digit_exec(d: u64) -> (c: char)
    requires
        d < 10,
    ensures
        c == digit(d as nat),
{
    if d == 0 { '0' }
    else if d == 1 { '1' }
    else if d == 2 { '2' }
    else if d == 3 { '3' }
    else if d == 4 { '4' }
    else if d == 5 { '5' }
    else if d == 6 { '6' }
    else if d == 7 { '7' }
    else if d == 8 { '8' }
    else { '9' }
}

/// The decimal rendering of `n`.
pub fn dec_exec(n: u64) -> (r: Vec<char>)
    ensures
        r@ == dec(n as nat),
    decreases n,
{
    if n < 10 {
        let v: Vec<char> = vec![digit_exec(n)];
        assert(v@ =~= seq![digit(n as nat)]);
        v
    } else {
        let mut v = dec_exec(n / 10);
        v.push(digit_exec(n % 10));
        v
    }
}

/// The decimal rendering of a signed number.
pub fn dec_int_exec(n: i64) -> (r: Vec<char>)
    ensures
        r@ == dec_int(n as int),
{
    if n < 0 {
        let m: u64 = if n == i64::MIN {
            9223372036854775808u64
        } else {
            (-n) as u64
        };
        let d = dec_exec(m);
        let mut v: Vec<char> = vec!['-'];
        append_chars(&mut v, &d);
        assert(v@ =~= seq!['-'] + dec((-n) as nat));
        v
    } else {
        dec_exec(n as u64)
    }
}

/// The decimal rendering of `n` with at least two digits.
pub fn dec2_exec(n: u64) -> (r: Vec<char>)
    ensures
        r@ == dec2(n as nat),
{
    if n < 10 {
        let v: Vec<char> = vec!['0', digit_exec(n)];
        assert(v@ =~= seq!['0', digit(n as nat)]);
        v
    } else {
        dec_exec(n)
    }
}

/// Whether `pat` occurs in `s`.
pub fn contains_exec(s: &[char], pat: &[char]) -> (r: bool)
    ensures
        r == contains(s@, pat@),
{
    find_exec(s, pat).is_some()
}

/// Whether `s` begins with `pat`.
pub fn starts_with_exec(s: &[char], pat: &[char]) -> (r: bool)
    ensures
        r == starts_with(s@, pat@),
{
    let r = occurs_at_exec(s, pat, 0);
    assert(r == starts_with(s@, pat@));
    r
}

/// Whether `s` ends with `pat`.
pub fn ends_with_exec(s: &[char], pat: &[char]) -> (r: bool)
    ensures
        r == ends_with(s@, pat@),
{
    if pat.len() > s.len() {
        return false;
    }
    occurs_at_exec(s, pat, s.len() - pat.len())
}

/// Every occurrence of `pat` replaced by `rep`.
pub fn replace_exec(s: &[char], pat: &[char], rep: &[char]) -> (r: Vec<char>)
    requires
        pat@.len() > 0,
    ensures
        r@ == replace_all(s@, pat@, rep@),
{
    let mut out: Vec<char> = Vec::new();
    let mut i: usize = 0;
    assert(s@.skip(0) =~= s@);
    while i < s.len()
        invariant
            pat@.len() > 0,
            i <= s@.len(),
            out@ + replace_all(s@.skip(i as int), pat@, rep@) == replace_all(s@, pat@, rep@),
        decreases s.len() - i,
    {
        let ghost rest = s@.skip(i as int);
        if occurs_at_exec(s, pat, i) {
            assert(rest.subrange(0, pat@.len() as int) =~= s@.subrange(i as int, i + pat@.len()));
            assert(rest.skip(pat@.len() as int) =~= s@.skip(i + pat@.len()));
            let ghost old_out = out@;
            let mut k: usize = 0;
            while k < rep.len()
                invariant
                    k <= rep@.len(),
                    out@ == old_out + rep@.take(k as int),
                decreases rep.len() - k,
            {
                out.push(rep[k]);
                k = k + 1;
                assert(out@ =~= old_out + rep@.take(k as int));
            }
            assert(rep@.take(rep@.len() as int) =~= rep@);
            assert(out@ + replace_all(s@.skip(i + pat@.len()), pat@, rep@) =~= old_out + (rep@
                + replace_all(rest.skip(pat@.len() as int), pat@, rep@)));
            i = i + pat.len();
        } else {
            assert(rest.len() >= pat@.len() ==> rest.subrange(0, pat@.len() as int) =~= s@.subrange(
                i as int,
                i + pat@.len(),
            ));
            assert(rest.skip(1) =~= s@.skip(i + 1));
            let ghost old_out = out@;
            out.push(s[i]);
            assert(rest[0] == s@[i as int]);
            assert(out@ + replace_all(s@.skip(i + 1), pat@, rep@) =~= old_out + (seq![rest[0]]
                + replace_all(rest.skip(1), pat@, rep@)));
            i = i + 1;
        }
    }
    assert(s@.skip(i as int) =~= Seq::<char>::empty());
    assert(out@ =~= replace_all(s@, pat@, rep@));
    out
}

/// The chars of a literal or other string slice, with a replacement made
/// for every occurrence of a non-empty literal pattern.
pub fn replace_str(s: &[char], pat: &str, rep: &[char]) -> (r: Vec<char>)
    requires
        pat@.len() > 0,
    ensures
        r@ == replace_all(s@, pat@, rep@),
{
    let p = chars_of(pat);
    replace_exec(s, &p, rep)
}

/// Runs of spaces collapsed to one space.
pub fn collapse_spaces_exec(s: &[char]) -> (r: Vec<char>)
    ensures
        r@ == collapse_spaces(s@),
{
    let two: Vec<char> = vec![' ', ' '];
    let one: Vec<char> = vec![' '];
    assert(two@ =~= seq![' ', ' ']);
    assert(one@ =~= seq![' ']);
    let mut cur = slice_exec(s, 0, s.len());
    assert(cur@ =~= s@);
    while contains_exec(&cur, &two)
        invariant
            two@ == seq![' ', ' '],
            one@ == seq![' '],
            collapse_spaces(cur@) == collapse_spaces(s@),
        decreases cur@.len(),
    {
        proof {
            lemma_replace_len(cur@, two@, one@);
        }
        cur = replace_exec(&cur, &two, &one);
    }
    cur
}

/// Appends the chars of a string slice to `out`.
pub fn append_str(out: &mut Vec<char>, extra: &str)
    ensures
        final(out)@ == old(out)@ + extra@,
{
    let e = chars_of(extra);
    append_chars(out, &e);
}

/// Appends `extra` to `out`.
pub fn append_chars(out: &mut Vec<char>, extra: &[char])
    ensures
        final(out)@ == old(out)@ + extra@,
{
    let mut k: usize = 0;
    while k < extra.len()
        invariant
            k <= extra@.len(),
            out@ == old(out)@ + extra@.take(k as int),
        decreases extra.len() - k,
    {
        out.push(extra[k]);
        k = k + 1;
        assert(out@ =~= old(out)@ + extra@.take(k as int));
    }
    assert(extra@.take(extra@.len() as int) =~= extra@);
}

/// The concatenation of two texts.
pub fn concat(a: &[char], b: &[char]) -> (r: Vec<char>)
    ensures
        r@ == a@ + b@,
{
    let mut r: Vec<char> = Vec::new();
    append_chars(&mut r, a);
    append_chars(&mut r, b);
    assert(r@ =~= a@ + b@);
    r
}

/// The pieces joined with `sep`.
pub fn join_exec(list: &Vec<Vec<char>>, sep: &[char]) -> (r: Vec<char>)
    ensures
        r@ == join(list@.map_values(|v: Vec<char>| v@), sep@),
{
    let ghost views = list@.map_values(|v: Vec<char>| v@);
    let mut r: Vec<char> = Vec::new();
    let mut i: usize = 0;
    while i < list.len()
        invariant
            i <= list@.len(),
            views == list@.map_values(|v: Vec<char>| v@),
            r@ == join(views.take(i as int), sep@),
        decreases list.len() - i,
    {
        if i > 0 {
            append_chars(&mut r, sep);
        }
        append_chars(&mut r, &list[i]);
        assert(views.take(i + 1).drop_last() =~= views.take(i as int));
        assert(views.take(i + 1).last() == list@[i as int]@);
        i = i + 1;
        if i == 1 {
            assert(join(views.take(1), sep@) == views[0]);
        }
    }
    assert(views.take(list@.len() as int) =~= views);
    r
}

/// The text with its ASCII letters in upper case.
pub fn upper_exec(s: &[char]) -> (r: Vec<char>)
    ensures
        r@ == upper(s@),
{
    let mut r: Vec<char> = Vec::new();
    let mut i: usize = 0;
    while i < s.len()
        invariant
            i <= s@.len(),
            r@ == upper(s@.take(i as int)),
        decreases s.len() - i,
    {
        let c = s[i];
        let u = if 'a' <= c && c <= 'z' {
            ((c as u8) - 32) as char
        } else {
            c
        };
        r.push(u);
        assert(upper(s@.take(i + 1)) =~= upper(s@.take(i as int)).push(upper_char(c)));
        i = i + 1;
    }
    assert(s@.take(s@.len() as int) =~= s@);
    r
}

/// Whether `c` is Unicode whitespace.
pub fn is_ws_exec(c: char) -> (r: bool)
    ensures
        r == is_ws(c),
{
    ('\u{9}' <= c && c <= '\u{d}') || c == ' ' || c == '\u{85}' || c == '\u{a0}' || c
        == '\u{1680}' || ('\u{2000}' <= c && c <= '\u{200a}') || c == '\u{2028}' || c == '\u{2029}'
        || c == '\u{202f}' || c == '\u{205f}' || c == '\u{3000}'
}

proof fn lemma_trim_start_skip(s: Seq<char>, k: int)
    requires
        0 <= k <= s.len(),
        forall|j: int| 0 <= j < k ==> is_ws(s[j]),
    ensures
        trim_start(s) == trim_start(s.skip(k)),
    decreases k,
{
    if k > 0 {
        assert(s.skip(1).skip(k - 1) =~= s.skip(k));
        lemma_trim_start_skip(s.skip(1), k - 1);
    } else {
        assert(s.skip(0) =~= s);
    }
}

proof fn lemma_trim_end_take(s: Seq<char>, k: int)
    requires
        0 <= k <= s.len(),
        forall|j: int| k <= j < s.len() ==> is_ws(s[j]),
    ensures
        trim_end(s) == trim_end(s.take(k)),
    decreases s.len() - k,
{
    if k < s.len() {
        assert(s.drop_last().take(k) =~= s.take(k));
        lemma_trim_end_take(s.drop_last(), k);
    } else {
        assert(s.take(k) =~= s);
    }
}

/// The text without leading and trailing whitespace.
pub fn trim_exec(s: &[char]) -> (r: Vec<char>)
    ensures
        r@ == trim(s@),
{
    let mut a: usize = 0;
    while a < s.len() && is_ws_exec(s[a])
        invariant
            a <= s@.len(),
            forall|j: int| 0 <= j < a ==> is_ws(s@[j]),
        decreases s.len() - a,
    {
        a = a + 1;
    }
    proof {
        lemma_trim_start_skip(s@, a as int);
    }
    let ghost t = s@.skip(a as int);
    assert(a < s@.len() ==> !is_ws(t[0]));
    assert(trim_start(t) == t);
    let mut b: usize = s.len();
    while b > a && is_ws_exec(s[b - 1])
        invariant
            a <= b <= s@.len(),
            forall|j: int| b <= j < s@.len() ==> is_ws(s@[j]),
        decreases b,
    {
        b = b - 1;
    }
    proof {
        let tb = (b - a) as int;
        assert forall|j: int| tb <= j < t.len() implies is_ws(t[j]) by {
            assert(t[j] == s@[a + j]);
        }
        lemma_trim_end_take(t, tb);
        assert(t.take(tb) =~= s@.subrange(a as int, b as int));
        if b > a {
            assert(t.take(tb).last() == s@[b - 1]);
        }
    }
    let mut r: Vec<char> = Vec::new();
    let mut i: usize = a;
    while i < b
        invariant
            a <= i <= b <= s@.len(),
            r@ == s@.subrange(a as int, i as int),
        decreases b - i,
    {
        r.push(s[i]);
        i = i + 1;
        assert(r@ =~= s@.subrange(a as int, i as int));
    }
    r
}

/// The copy of `s` from position `a` up to position `b`.
pub fn slice_exec(s: &[char], a: usize, b: usize) -> (r: Vec<char>)
    requires
        a <= b <= s@.len(),
    ensures
        r@ == s@.subrange(a as int, b as int),
{
    let mut r: Vec<char> = Vec::new();
    let mut i: usize = a;
    while i < b
        invariant
            a <= i <= b <= s@.len(),
            r@ == s@.subrange(a as int, i as int),
        decreases b - i,
    {
        r.push(s[i]);
        i = i + 1;
        assert(r@ =~= s@.subrange(a as int, i as int));
    }
    r
}


/// The lines of `s` (see [`lines`]).
pub fn lines_exec(s: &[char]) -> (r: Vec<Vec<char>>)
    ensures
        views(r@) == lines(s@),
{
    let nl: Vec<char> = vec!['\n'];
    assert(nl@ =~= seq!['\n']);
    let pieces = split_exec(s, &nl);
    let ghost pv = views(pieces@);
    assert(pv == split_char(s@, '\n'));
    let n = pieces.len();
    assert(n >= 1);
    let mut r: Vec<Vec<char>> = Vec::new();
    let mut i: usize = 0;
    while i + 1 < n
        invariant
            n == pieces@.len(),
            n >= 1,
            pv == views(pieces@),
            i + 1 <= n,
            views(r@) == pv.take(i as int).map_values(|p: Seq<char>| strip_cr(p)),
        decreases n - i,
    {
        let p = &pieces[i];
        let q = if p.len() > 0 && p[p.len() - 1] == '\r' {
            slice_exec(p, 0, p.len() - 1)
        } else {
            slice_exec(p, 0, p.len())
        };
        assert(q@ == strip_cr(pv[i as int]));
        let ghost before = views(r@);
        r.push(q);
        assert(views(r@) =~= before.push(q@));
        assert(pv.take(i + 1).map_values(|p: Seq<char>| strip_cr(p)) =~= pv.take(
            i as int,
        ).map_values(|p: Seq<char>| strip_cr(p)).push(strip_cr(pv[i as int])));
        i = i + 1;
    }
    let last = &pieces[n - 1];
    assert(i == n - 1);
    assert(pv[n - 1] == last@);
    if last.len() > 0 {
        let q = slice_exec(last, 0, last.len());
        assert(q@ =~= last@);
        let ghost before = views(r@);
        r.push(q);
        assert(views(r@) =~= before.push(q@));
        assert(views(r@) =~= lines(s@));
    } else {
        assert(views(r@) =~= lines(s@));
    }
    r
}


/// `trim_end` keeps a prefix of its argument.
pub proof fn lemma_trim_end_prefix(x: Seq<char>)
    ensures
        trim_end(x).len() <= x.len(),
        trim_end(x) == x.take(trim_end(x).len() as int),
    decreases x.len(),
{
    if x.len() > 0 && is_ws(x.last()) {
        lemma_trim_end_prefix(x.drop_last());
        let m = trim_end(x).len() as int;
        assert(x.drop_last().take(m) =~= x.take(m));
    } else {
        assert(x.take(x.len() as int) =~= x);
    }
}

/// `trim_start` drops exactly the leading run of whitespace, of length `k`.
pub proof fn lemma_leading_ws(s: Seq<char>) -> (k: int)
    ensures
        0 <= k <= s.len(),
        forall|j: int| 0 <= j < k ==> is_ws(s[j]),
        k < s.len() ==> !is_ws(s[k]),
        trim_start(s) == s.skip(k),
    decreases s.len(),
{
    if s.len() > 0 && is_ws(s[0]) {
        let k1 = lemma_leading_ws(s.skip(1));
        assert(s.skip(1).skip(k1) =~= s.skip(k1 + 1));
        assert forall|j: int| 0 <= j < k1 + 1 implies is_ws(s[j]) by {
            if j > 0 {
                assert(s[j] == s.skip(1)[j - 1]);
            }
        }
        if k1 + 1 < s.len() {
            assert(s[k1 + 1] == s.skip(1)[k1]);
        }
        k1 + 1
    } else {
        assert(s.skip(0) =~= s);
        0
    }
}

/// When the trimmed text begins with `p` (whose first char is no
/// whitespace), `p` stands in the text right after its leading whitespace.
pub proof fn lemma_trim_starts_with(s: Seq<char>, p: Seq<char>) -> (k: int)
    requires
        p.len() > 0,
        !is_ws(p[0]),
        starts_with(trim(s), p),
    ensures
        0 <= k,
        k + p.len() <= s.len(),
        s.subrange(k, k + p.len()) == p,
        forall|j: int| 0 <= j < k ==> is_ws(s[j]),
{
    let k = lemma_leading_ws(s);
    let x = s.skip(k);
    lemma_trim_end_prefix(x);
    let m = trim_end(x).len() as int;
    assert(x.take(m).subrange(0, p.len() as int) =~= s.subrange(k, k + p.len()));
    k
}


/// A text made of two pieces around one separator splits into those pieces
/// when neither piece holds the separator.
pub proof fn lemma_split_two(a: Seq<char>, b: Seq<char>, c: char)
    requires
        !a.contains(c),
        !b.contains(c),
    ensures
        split_char(a + seq![c] + b, c) == seq![a, b],
{
    let s = a + seq![c] + b;
    let pat = seq![c];
    let k = a.len() as int;
    lemma_find_from(s, pat, 0);
    lemma_find_from(s, pat, k + 1);
    assert(s.subrange(k, k + 1) =~= pat);
    assert forall|j: int| 0 <= j < k implies !occurs_at(s, pat, j) by {
        if occurs_at(s, pat, j) {
            assert(s.subrange(j, j + 1)[0] == s[j]);
            assert(s[j] == a[j]);
        }
    }
    assert forall|j: int| k + 1 <= j implies !occurs_at(s, pat, j) by {
        if occurs_at(s, pat, j) {
            assert(s.subrange(j, j + 1)[0] == s[j]);
            assert(s[j] == b[j - k - 1]);
        }
    }
    assert(occurs_at(s, pat, k));
    assert(find_from(s, pat, 0) == Some(k)) by {
        match find_from(s, pat, 0) {
            Some(i) => {
                if i < k {
                    assert(!occurs_at(s, pat, i));
                } else if i > k {
                    assert(!occurs_at(s, pat, k));
                }
            },
            None => {
                assert(!occurs_at(s, pat, k));
            },
        }
    }
    assert(find_from(s, pat, k + 1) is None);
    assert(s.subrange(0, k) =~= a);
    assert(s.subrange(k + 1, s.len() as int) =~= b);
    assert(split_from(s, pat, k + 1) == seq![b]);
    assert(split_from(s, pat, 0) =~= seq![a, b]);
}

/// The decimal rendering of a number holds only `-` and digits.
pub proof fn lemma_dec_chars(n: nat)
    ensures
        forall|i: int| 0 <= i < dec(n).len() ==> '0' <= #[trigger] dec(n)[i] <= '9',
    decreases n,
{
    if n >= 10 {
        lemma_dec_chars(n / 10);
        let d = dec(n / 10);
        assert forall|i: int| 0 <= i < dec(n).len() implies '0' <= #[trigger] dec(n)[i] <= '9' by {
            if i < d.len() {
                assert(dec(n)[i] == d[i]);
            } else {
                assert(dec(n)[i] == digit(n % 10));
            }
        }
    }
}

} // verus!
