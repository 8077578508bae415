//! Character-level text helpers shared by the validators, the prompt
//! dialect, the command-line parsers, and the escaping used by the encoders.
use vstd::prelude::*;

verus! {

broadcast use vstd::string::group_string_axioms;

/// Appends one character (std's `String::push`).
#[verifier::external_body]
pub(crate) fn push_char(s: &mut String, c: char)
    ensures
        final(s)@ == old(s)@.push(c),
{
    s.push(c);
}

/// The characters of `s`, in order.
pub fn chars_of(s: &str) -> (v: Vec<char>)
    ensures
        v@ == s@,
{
    let mut v: Vec<char> = Vec::new();
    for c in it: s.chars()
        invariant
            v@ == it.seq().take(it.index()),
    {
        v.push(c);
    }
    v
}

/// Appends every character of `v` to `s`.
pub fn push_chars(s: &mut String, v: &Vec<char>)
    ensures
        final(s)@ == old(s)@ + v@,
{
    let mut i: usize = 0;
    while i < v.len()
        invariant
            i <= v.len(),
            s@ == old(s)@ + v@.take(i as int),
        decreases v.len() - i,
    {
        push_char(s, v[i]);
        assert(v@.take(i + 1) =~= v@.take(i as int).push(v@[i as int]));
        i = i + 1;
    }
    assert(v@.take(v.len() as int) =~= v@);
}

/// A string holding exactly the characters of `v`.
pub fn string_of(v: &Vec<char>) -> (s: String)
    ensures
        s@ == v@,
{
    let mut s = String::new();
    push_chars(&mut s, v);
    assert(s@ =~= v@);
    s
}

/// Appends `t` to `s`.
pub fn push_str(s: &mut String, t: &str)
    ensures
        final(s)@ == old(s)@ + t@,
{
    s.append(t);
}

/// A fresh `String` with the characters of `t`.
pub fn owned(t: &str) -> (s: String)
    ensures
        s@ == t@,
{
    t.to_owned()
}

/// The decimal digit character for `d < 10`.
pub open spec fn digit_char(d: nat) -> char {
    if d == 0 { '0' } else if d == 1 { '1' } else if d == 2 { '2' } else if d == 3 { '3' }
    else if d == 4 { '4' } else if d == 5 { '5' } else if d == 6 { '6' } else if d == 7 { '7' }
    else if d == 8 { '8' } else { '9' }
}

/// The shortest decimal representation of `n` (as `Display` prints it).
pub open spec fn decimal(n: nat) -> Seq<char>
    decreases n,
{
    if n < 10 {
        seq![digit_char(n)]
    } else {
        decimal(n / 10).push(digit_char(n % 10))
    }
}

fn digit(d: u64) -> (c: char)
    requires
        d < 10,
    ensures
        c == digit_char(d as nat),
{
    if d == 0 { '0' } else if d == 1 { '1' } else if d == 2 { '2' } else if d == 3 { '3' }
    else if d == 4 { '4' } else if d == 5 { '5' } else if d == 6 { '6' } else if d == 7 { '7' }
    else if d == 8 { '8' } else { '9' }
}

/// Appends the decimal representation of `n`.
pub fn push_decimal(s: &mut String, n: u64)
    ensures
        final(s)@ == old(s)@ + decimal(n as nat),
    decreases n,
{
    if n >= 10 {
        push_decimal(s, n / 10);
    }
    push_char(s, digit(n % 10));
    assert(s@ =~= old(s)@ + decimal(n as nat));
}

/// A signed integer as `Display` prints it: a minus sign before the
/// magnitude of a negative number.
pub open spec fn signed_decimal(n: int) -> Seq<char> {
    if n < 0 { seq!['-'] + decimal((-n) as nat) } else { decimal(n as nat) }
}

/// Appends the decimal representation of a signed `n`.
pub fn push_signed_decimal(s: &mut String, n: i64)
    ensures
        final(s)@ == old(s)@ + signed_decimal(n as int),
{
    if n < 0 {
        push_char(s, '-');
        let magnitude: u64 = (-(n as i128)) as u64;
        push_decimal(s, magnitude);
        assert(s@ =~= old(s)@ + signed_decimal(n as int));
    } else {
        push_decimal(s, n as u64);
    }
}

/// Unicode `White_Space`, the set std's `char::is_whitespace` and
/// `str::trim` use.
pub open spec fn is_white_space(c: char) -> bool {
    ||| '\u{9}' <= c <= '\u{d}'
    ||| c == ' '
    ||| c == '\u{85}'
    ||| c == '\u{a0}'
    ||| c == '\u{1680}'
    ||| '\u{2000}' <= c <= '\u{200a}'
    ||| c == '\u{2028}'
    ||| c == '\u{2029}'
    ||| c == '\u{202f}'
    ||| c == '\u{205f}'
    ||| c == '\u{3000}'
}

pub fn white_space(c: char) -> (b: bool)
    ensures
        b == is_white_space(c),
{
    ('\u{9}' <= c && c <= '\u{d}') || c == ' ' || c == '\u{85}' || c == '\u{a0}'
        || c == '\u{1680}' || ('\u{2000}' <= c && c <= '\u{200a}') || c == '\u{2028}'
        || c == '\u{2029}' || c == '\u{202f}' || c == '\u{205f}' || c == '\u{3000}'
}

/// Every character is white space (so `s.trim().is_empty()` holds).
pub open spec fn all_white_space(s: Seq<char>) -> bool {
    forall|i: int| 0 <= i < s.len() ==> is_white_space(#[trigger] s[i])
}

/// `s.trim().is_empty()`.
pub fn is_blank(s: &str) -> (b: bool)
    ensures
        b == all_white_space(s@),
{
    let v = chars_of(s);
    let mut i: usize = 0;
    while i < v.len()
        invariant
            i <= v.len(),
            v@ == s@,
            forall|j: int| 0 <= j < i ==> is_white_space(#[trigger] v@[j]),
        decreases v.len() - i,
    {
        if !white_space(v[i]) {
            return false;
        }
        i = i + 1;
    }
    true
}

/// `s` without leading white space.
pub open spec fn trim_start(s: Seq<char>) -> Seq<char>
    decreases s.len(),
{
    if s.len() > 0 && is_white_space(s[0]) {
        trim_start(s.drop_first())
    } else {
        s
    }
}

/// `s` without trailing white space.
pub open spec fn trim_end(s: Seq<char>) -> Seq<char>
    decreases s.len(),
{
    if s.len() > 0 && is_white_space(s.last()) {
        trim_end(s.drop_last())
    } else {
        s
    }
}

/// `str::trim`: no leading or trailing white space.
pub open spec fn trim(s: Seq<char>) -> Seq<char> {
    trim_end(trim_start(s))
}

/// `trim` on a character vector.
pub fn trimmed(v: &Vec<char>) -> (t: Vec<char>)
    ensures
        t@ == trim(v@),
{
    let mut start: usize = 0;
    assert(v@.skip(0) =~= v@);
    while start < v.len() && white_space(v[start])
        invariant
            start <= v.len(),
            trim_start(v@) == trim_start(v@.skip(start as int)),
        decreases v.len() - start,
    {
        assert(v@.skip(start as int).drop_first() =~= v@.skip(start + 1));
        start = start + 1;
    }
    assert(trim_start(v@) == v@.skip(start as int));
    let mut end: usize = v.len();
    while end > start && white_space(v[end - 1])
        invariant
            start <= end <= v.len(),
            trim(v@) == trim_end(v@.subrange(start as int, end as int)),
        decreases end,
    {
        assert(v@.subrange(start as int, end as int).drop_last() =~= v@.subrange(start as int, end - 1));
        end = end - 1;
    }
    let mut t: Vec<char> = Vec::new();
    let mut i: usize = start;
    while i < end
        invariant
            start <= i <= end <= v.len(),
            t@ == v@.subrange(start as int, i as int),
        decreases end - i,
    {
        t.push(v[i]);
        assert(t@ =~= v@.subrange(start as int, i + 1));
        i = i + 1;
    }
    t
}

/// ASCII lower-casing of one character (`char::to_ascii_lowercase`).
pub open spec fn ascii_lower(c: char) -> char {
    if 'A' <= c <= 'Z' {
        ((c as u32) + 32) as char
    } else {
        c
    }
}

/// `char::to_ascii_uppercase`.
pub open spec fn ascii_upper(c: char) -> char {
    if 'a' <= c <= 'z' {
        ((c as u32) - 32) as char
    } else {
        c
    }
}

/// `str::to_ascii_uppercase` on a sequence.
pub open spec fn ascii_upper_seq(s: Seq<char>) -> Seq<char> {
    s.map_values(|c: char| ascii_upper(c))
}

/// `str::to_ascii_lowercase` on a sequence.
pub open spec fn ascii_lower_seq(s: Seq<char>) -> Seq<char> {
    s.map_values(|c: char| ascii_lower(c))
}

pub fn lower_ascii_char(c: char) -> (d: char)
    ensures
        d == ascii_lower(c),
{
    if 'A' <= c && c <= 'Z' {
        ((c as u8) + 32) as char
    } else {
        c
    }
}


/// `str::replace(pat, rep)` for a non-empty pattern: every leftmost,
/// non-overlapping occurrence of `pat` is replaced by `rep`.
pub open spec fn replace_all(s: Seq<char>, pat: Seq<char>, rep: Seq<char>) -> Seq<char>
    decreases s.len(),
{
    if pat.len() == 0 || s.len() < pat.len() {
        s
    } else if s.take(pat.len() as int) == pat {
        rep + replace_all(s.skip(pat.len() as int), pat, rep)
    } else {
        seq![s[0]] + replace_all(s.skip(1), pat, rep)
    }
}

/// Replacing a one-character pattern by text without that character leaves
/// none of it behind.
pub proof fn lemma_replace_removes(s: Seq<char>, c: char, rep: Seq<char>)
    requires
        !rep.contains(c),
    ensures
        !replace_all(s, seq![c], rep).contains(c),
    decreases s.len(),
{
    let pat = seq![c];
    if s.len() >= 1 {
        if s.take(1) == pat {
            lemma_replace_removes(s.skip(1), c, rep);
            assert(!(rep + replace_all(s.skip(1), pat, rep)).contains(c)) by {
                let whole = rep + replace_all(s.skip(1), pat, rep);
                if whole.contains(c) {
                    let w = choose|w: int| 0 <= w < whole.len() && whole[w] == c;
                    if w < rep.len() {
                        assert(rep[w] == c);
                    } else {
                        assert(replace_all(s.skip(1), pat, rep)[w - rep.len()] == c);
                    }
                }
            }
        } else {
            assert(s[0] != c) by {
                if s[0] == c {
                    assert(s.take(1) =~= pat);
                }
            }
            lemma_replace_removes(s.skip(1), c, rep);
            let whole = seq![s[0]] + replace_all(s.skip(1), pat, rep);
            if whole.contains(c) {
                let w = choose|w: int| 0 <= w < whole.len() && whole[w] == c;
                if w > 0 {
                    assert(replace_all(s.skip(1), pat, rep)[w - 1] == c);
                }
            }
        }
    }
}

/// A character absent from the text and from the replacement stays absent.
pub proof fn lemma_replace_keeps_absent(s: Seq<char>, pat: Seq<char>, rep: Seq<char>, d: char)
    requires
        !s.contains(d),
        !rep.contains(d),
    ensures
        !replace_all(s, pat, rep).contains(d),
    decreases s.len(),
{
    if pat.len() > 0 && s.len() >= pat.len() {
        if s.take(pat.len() as int) == pat {
            let rest = s.skip(pat.len() as int);
            assert(!rest.contains(d)) by {
                if rest.contains(d) {
                    let w = choose|w: int| 0 <= w < rest.len() && rest[w] == d;
                    assert(s[w + pat.len()] == d);
                }
            }
            lemma_replace_keeps_absent(rest, pat, rep, d);
            let whole = rep + replace_all(rest, pat, rep);
            if whole.contains(d) {
                let w = choose|w: int| 0 <= w < whole.len() && whole[w] == d;
                if w < rep.len() {
                    assert(rep[w] == d);
                } else {
                    assert(replace_all(rest, pat, rep)[w - rep.len()] == d);
                }
            }
        } else {
            let rest = s.skip(1);
            assert(!rest.contains(d)) by {
                if rest.contains(d) {
                    let w = choose|w: int| 0 <= w < rest.len() && rest[w] == d;
                    assert(s[w + 1] == d);
                }
            }
            lemma_replace_keeps_absent(rest, pat, rep, d);
            let whole = seq![s[0]] + replace_all(rest, pat, rep);
            if whole.contains(d) {
                let w = choose|w: int| 0 <= w < whole.len() && whole[w] == d;
                if w > 0 {
                    assert(replace_all(rest, pat, rep)[w - 1] == d);
                } else {
                    assert(s[0] == d);
                }
            }
        }
    }
}

/// Whether `pat` occurs in `v` at index `i`.
pub fn matches_at(v: &Vec<char>, i: usize, pat: &Vec<char>) -> (b: bool)
    requires
        i <= v.len(),
    ensures
        b == (i + pat.len() <= v.len() && v@.subrange(i as int, i + pat.len()) == pat@),
{
    if pat.len() > v.len() - i {
        return false;
    }
    let mut k: usize = 0;
    while k < pat.len()
        invariant
            i + pat.len() <= v.len(),
            k <= pat.len(),
            forall|j: int| 0 <= j < k ==> v@[i + j] == pat@[j],
        decreases pat.len() - k,
    {
        if v[i + k] != pat[k] {
            assert(v@.subrange(i as int, i + pat.len())[k as int] != pat@[k as int]);
            return false;
        }
        k = k + 1;
    }
    assert(v@.subrange(i as int, i + pat.len()) =~= pat@);
    true
}

/// `str::replace` with a non-empty pattern.
pub fn replaced(v: &Vec<char>, pat: &Vec<char>, rep: &Vec<char>) -> (out: Vec<char>)
    requires
        pat.len() > 0,
    ensures
        out@ == replace_all(v@, pat@, rep@),
{
    let mut out: Vec<char> = Vec::new();
    let mut i: usize = 0;
    assert(v@.skip(0) =~= v@);
    while i < v.len()
        invariant
            pat.len() > 0,
            i <= v.len(),
            replace_all(v@, pat@, rep@) == out@ + replace_all(v@.skip(i as int), pat@, rep@),
        decreases v.len() - i,
    {
        let ghost rest = v@.skip(i as int);
        if matches_at(v, i, pat) {
            assert(rest.take(pat.len() as int) =~= v@.subrange(i as int, i + pat.len()));
            assert(rest.skip(pat.len() as int) =~= v@.skip(i + pat.len()));
            let mut k: usize = 0;
            let ghost before = out@;
            while k < rep.len()
                invariant
                    k <= rep.len(),
                    out@ == before + rep@.take(k as int),
                decreases rep.len() - k,
            {
                out.push(rep[k]);
                assert(out@ =~= before + rep@.take(k + 1));
                k = k + 1;
            }
            assert(rep@.take(rep.len() as int) =~= rep@);
            assert(out@ =~= before + rep@);
            i = i + pat.len();
        } else {
            if v.len() - i >= pat.len() {
                assert(rest.take(pat.len() as int) =~= v@.subrange(i as int, i + pat.len()));
                assert(rest.skip(1) =~= v@.skip(i + 1));
                out.push(v[i]);
                i = i + 1;
            } else {
                // Too short for another occurrence: the rest is copied verbatim.
                let ghost before = out@;
                while i < v.len()
                    invariant
                        i <= v.len(),
                        out@ + v@.skip(i as int) == before + rest,
                    decreases v.len() - i,
                {
                    assert(v@.skip(i as int) =~= seq![v@[i as int]] + v@.skip(i + 1));
                    out.push(v[i]);
                    i = i + 1;
                }
                assert(v@.skip(i as int) =~= Seq::<char>::empty());
                assert(out@ =~= before + rest);
            }
        }
    }
    assert(v@.skip(i as int) =~= Seq::<char>::empty());
    assert(out@ + Seq::<char>::empty() =~= out@);
    out
}

/// `str::split(sep)`: the pieces between separators, empty ones included.
pub open spec fn split_on(s: Seq<char>, sep: char) -> Seq<Seq<char>>
    decreases s.len(),
{
    if s.len() == 0 {
        seq![Seq::<char>::empty()]
    } else {
        let rest = split_on(s.drop_last(), sep);
        if s.last() == sep {
            rest.push(Seq::<char>::empty())
        } else {
            rest.update(rest.len() - 1, rest.last().push(s.last()))
        }
    }
}

pub proof fn lemma_split_on_nonempty(s: Seq<char>, sep: char)
    ensures
        split_on(s, sep).len() >= 1,
    decreases s.len(),
{
    if s.len() > 0 {
        lemma_split_on_nonempty(s.drop_last(), sep);
    }
}

/// The views of a sequence of character vectors.
pub open spec fn views(s: Seq<Vec<char>>) -> Seq<Seq<char>> {
    s.map_values(|v: Vec<char>| v@)
}

/// The views of a sequence of strings.
pub open spec fn string_views(s: Seq<String>) -> Seq<Seq<char>> {
    s.map_values(|x: String| x@)
}

/// `str::split(sep)` on a character vector.
pub fn split_chars(v: &Vec<char>, sep: char) -> (pieces: Vec<Vec<char>>)
    ensures
        views(pieces@) == split_on(v@, sep),
{
    let mut done: Vec<Vec<char>> = Vec::new();
    let mut cur: Vec<char> = Vec::new();
    let mut i: usize = 0;
    assert(v@.take(0) =~= Seq::<char>::empty());
    assert(views(done@).push(cur@) =~= split_on(v@.take(0), sep));
    while i < v.len()
        invariant
            i <= v.len(),
            views(done@).push(cur@) == split_on(v@.take(i as int), sep),
        decreases v.len() - i,
    {
        let ghost prefix = v@.take(i + 1);
        assert(prefix.drop_last() =~= v@.take(i as int));
        proof { lemma_split_on_nonempty(v@.take(i as int), sep); }
        if v[i] == sep {
            let finished = cur;
            done.push(finished);
            cur = Vec::new();
            assert(views(done@).push(cur@) =~= split_on(prefix, sep));
        } else {
            let ghost old_done = views(done@);
            cur.push(v[i]);
            assert(views(done@).push(cur@) =~= split_on(prefix, sep));
        }
        i = i + 1;
    }
    assert(v@.take(v.len() as int) =~= v@);
    done.push(cur);
    assert(views(done@) =~= split_on(v@, sep));
    done
}

/// `str::split_once(pat)`: the text before and after the first occurrence.
pub open spec fn split_once(s: Seq<char>, pat: Seq<char>) -> Option<(Seq<char>, Seq<char>)>
    decreases s.len(),
{
    if s.len() < pat.len() {
        None
    } else if s.take(pat.len() as int) == pat {
        Some((Seq::<char>::empty(), s.skip(pat.len() as int)))
    } else if s.len() == 0 {
        None
    } else {
        match split_once(s.drop_first(), pat) {
            Some(parts) => Some((seq![s[0]] + parts.0, parts.1)),
            None => None,
        }
    }
}

proof fn lemma_split_once_from(s: Seq<char>, pat: Seq<char>, k: int)
    requires
        0 <= k <= s.len(),
        forall|j: int| 0 <= j < k ==> !(j + pat.len() <= s.len() && #[trigger] s.subrange(j, j + pat.len()) == pat),
    ensures
        split_once(s, pat) == match split_once(s.skip(k), pat) {
            Some(parts) => Some((s.take(k) + parts.0, parts.1)),
            None => None::<(Seq<char>, Seq<char>)>,
        },
    decreases k,
{
    if k == 0 {
        assert(s.skip(0) =~= s);
        assert(s.take(0) =~= Seq::<char>::empty());
        match split_once(s, pat) {
            Some(parts) => { assert(Seq::<char>::empty() + parts.0 =~= parts.0); }
            None => {}
        }
    } else {
        assert(s.len() >= 1);
        let t = s.drop_first();
        assert forall|j: int| 0 <= j < k - 1 implies !(j + pat.len() <= t.len() && #[trigger] t.subrange(j, j + pat.len()) == pat) by {
            if j + pat.len() <= t.len() {
                assert(t.subrange(j, j + pat.len()) =~= s.subrange(j + 1, j + 1 + pat.len()));
            }
        }
        lemma_split_once_from(t, pat, k - 1);
        assert(t.skip(k - 1) =~= s.skip(k));
        assert(!(0int + pat.len() <= s.len() && s.subrange(0, 0int + pat.len()) == pat));
        if s.len() >= pat.len() {
            assert(s.take(pat.len() as int) =~= s.subrange(0, 0int + pat.len()));
        }
        match split_once(s.skip(k), pat) {
            Some(parts) => {
                assert(seq![s[0]] + (t.take(k - 1) + parts.0) =~= s.take(k) + parts.0);
            }
            None => {}
        }
    }
}

/// `str::split_once` on a character vector.
pub fn split_once_chars(v: &Vec<char>, pat: &Vec<char>) -> (parts: Option<(Vec<char>, Vec<char>)>)
    ensures
        match parts {
            Some(p) => split_once(v@, pat@) == Some((p.0@, p.1@)),
            None => split_once(v@, pat@) is None,
        },
{
    let mut k: usize = 0;
    let mut found = matches_at(v, 0, pat);
    while !found && k < v.len()
        invariant
            k <= v.len(),
            found == (k + pat.len() <= v.len() && v@.subrange(k as int, k + pat.len()) == pat@),
            forall|j: int| 0 <= j < k ==> !(j + pat.len() <= v.len() && #[trigger] v@.subrange(j, j + pat.len()) == pat@),
        decreases v.len() - k,
    {
        k = k + 1;
        found = matches_at(v, k, pat);
    }
    proof { lemma_split_once_from(v@, pat@, k as int); }
    let ghost rest = v@.skip(k as int);
    if found {
        assert(rest.take(pat.len() as int) =~= v@.subrange(k as int, k + pat.len()));
        assert(split_once(rest, pat@) == Some((Seq::<char>::empty(), rest.skip(pat.len() as int))));
        let mut before: Vec<char> = Vec::new();
        let mut i: usize = 0;
        while i < k
            invariant
                i <= k <= v.len(),
                before@ == v@.take(i as int),
            decreases k - i,
        {
            before.push(v[i]);
            assert(before@ =~= v@.take(i + 1));
            i = i + 1;
        }
        let mut after: Vec<char> = Vec::new();
        let mut j: usize = k + pat.len();
        while j < v.len()
            invariant
                k + pat.len() <= j <= v.len(),
                after@ == v@.subrange(k + pat.len(), j as int),
            decreases v.len() - j,
        {
            after.push(v[j]);
            assert(after@ =~= v@.subrange(k + pat.len(), j + 1));
            j = j + 1;
        }
        assert(rest.skip(pat.len() as int) =~= after@);
        assert(v@.take(k as int) + Seq::<char>::empty() =~= before@);
        Some((before, after))
    } else {
        assert(rest.len() == 0);
        if pat.len() == 0 {
            assert(v@.subrange(k as int, k as int) =~= pat@);
        }
        assert(split_once(rest, pat@) is None);
        None
    }
}

/// Why a decimal integer did not parse (std's `IntErrorKind`).
#[derive(Debug, Clone, Copy, PartialEq, Eq)]
pub enum IntError {
    Empty,
    InvalidDigit,
    PosOverflow,
}

pub open spec fn is_digit(c: char) -> bool {
    '0' <= c <= '9'
}

pub open spec fn digit_value(c: char) -> nat {
    ((c as u32) - ('0' as u32)) as nat
}

/// Left-to-right accumulation of decimal digits into a `u32`, failing on
/// the first non-digit or the first step that leaves the `u32` range.
pub open spec fn accumulate_u32(d: Seq<char>, acc: nat) -> Result<u32, IntError>
    decreases d.len(),
{
    if d.len() == 0 {
        Ok(acc as u32)
    } else if !is_digit(d[0]) {
        Err(IntError::InvalidDigit)
    } else if acc * 10 + digit_value(d[0]) > u32::MAX {
        Err(IntError::PosOverflow)
    } else {
        accumulate_u32(d.drop_first(), acc * 10 + digit_value(d[0]))
    }
}

/// `<u32 as FromStr>::from_str`: an optional `+` then decimal digits.
pub open spec fn parse_u32_spec(s: Seq<char>) -> Result<u32, IntError> {
    if s.len() == 0 {
        Err(IntError::Empty)
    } else if s[0] == '+' {
        if s.len() == 1 {
            Err(IntError::InvalidDigit)
        } else {
            accumulate_u32(s.drop_first(), 0)
        }
    } else {
        accumulate_u32(s, 0)
    }
}

/// Parses a decimal `u32` the way `str::parse::<u32>` does.
pub fn parse_u32(v: &Vec<char>) -> (r: Result<u32, IntError>)
    ensures
        r == parse_u32_spec(v@),
{
    if v.len() == 0 {
        return Err(IntError::Empty);
    }
    let mut i: usize = 0;
    if v[0] == '+' {
        if v.len() == 1 {
            return Err(IntError::InvalidDigit);
        }
        i = 1;
    }
    let ghost digits = v@.skip(i as int);
    assert(v[0] == '+' ==> digits =~= v@.drop_first());
    assert(v[0] != '+' ==> digits =~= v@);
    let mut acc: u32 = 0;
    while i < v.len()
        invariant
            1 <= v.len(),
            i <= v.len(),
            parse_u32_spec(v@) == accumulate_u32(digits, 0),
            accumulate_u32(digits, 0) == accumulate_u32(v@.skip(i as int), acc as nat),
        decreases v.len() - i,
    {
        let c = v[i];
        assert(v@.skip(i as int)[0] == c);
        assert(v@.skip(i as int).drop_first() =~= v@.skip(i + 1));
        if !('0' <= c && c <= '9') {
            return Err(IntError::InvalidDigit);
        }
        let d = (c as u32) - ('0' as u32);
        if acc > 429496729 || (acc == 429496729 && d > 5) {
            return Err(IntError::PosOverflow);
        }
        acc = acc * 10 + d;
        i = i + 1;
    }
    assert(v@.skip(i as int).len() == 0);
    Ok(acc)
}

impl IntError {
    /// std's `ParseIntError` text for this kind.
    pub fn message(self) -> (text: &'static str)
        ensures
            text@ == int_error_text(self),
    {
        match self {
            IntError::Empty => "cannot parse integer from empty string",
            IntError::InvalidDigit => "invalid digit found in string",
            IntError::PosOverflow => "number too large to fit in target type",
        }
    }
}

pub open spec fn int_error_text(e: IntError) -> Seq<char> {
    match e {
        IntError::Empty => "cannot parse integer from empty string"@,
        IntError::InvalidDigit => "invalid digit found in string"@,
        IntError::PosOverflow => "number too large to fit in target type"@,
    }
}

/// Left-to-right accumulation of decimal digits into a `u64`.
pub open spec fn accumulate_u64(d: Seq<char>, acc: nat) -> Result<u64, IntError>
    decreases d.len(),
{
    if d.len() == 0 {
        Ok(acc as u64)
    } else if !is_digit(d[0]) {
        Err(IntError::InvalidDigit)
    } else if acc * 10 + digit_value(d[0]) > u64::MAX {
        Err(IntError::PosOverflow)
    } else {
        accumulate_u64(d.drop_first(), acc * 10 + digit_value(d[0]))
    }
}

/// `<u64 as FromStr>::from_str`: an optional `+` then decimal digits.
pub open spec fn parse_u64_spec(s: Seq<char>) -> Result<u64, IntError> {
    if s.len() == 0 {
        Err(IntError::Empty)
    } else if s[0] == '+' {
        if s.len() == 1 {
            Err(IntError::InvalidDigit)
        } else {
            accumulate_u64(s.drop_first(), 0)
        }
    } else {
        accumulate_u64(s, 0)
    }
}

/// Parses a decimal `u64` the way `str::parse::<u64>` does.
pub fn parse_u64(v: &Vec<char>) -> (r: Result<u64, IntError>)
    ensures
        r == parse_u64_spec(v@),
{
    if v.len() == 0 {
        return Err(IntError::Empty);
    }
    let mut i: usize = 0;
    if v[0] == '+' {
        if v.len() == 1 {
            return Err(IntError::InvalidDigit);
        }
        i = 1;
    }
    let ghost digits = v@.skip(i as int);
    assert(v[0] == '+' ==> digits =~= v@.drop_first());
    assert(v[0] != '+' ==> digits =~= v@);
    let mut acc: u64 = 0;
    while i < v.len()
        invariant
            1 <= v.len(),
            i <= v.len(),
            parse_u64_spec(v@) == accumulate_u64(digits, 0),
            accumulate_u64(digits, 0) == accumulate_u64(v@.skip(i as int), acc as nat),
        decreases v.len() - i,
    {
        let c = v[i];
        assert(v@.skip(i as int)[0] == c);
        assert(v@.skip(i as int).drop_first() =~= v@.skip(i + 1));
        if !('0' <= c && c <= '9') {
            return Err(IntError::InvalidDigit);
        }
        let d = ((c as u32) - ('0' as u32)) as u64;
        if acc > 1844674407370955161 || (acc == 1844674407370955161 && d > 5) {
            return Err(IntError::PosOverflow);
        }
        acc = acc * 10 + d;
        i = i + 1;
    }
    assert(v@.skip(i as int).len() == 0);
    Ok(acc)
}

/// Lexicographic order of code points (which is the byte order of the
/// UTF-8 encodings, i.e. `str`'s `Ord`).
pub open spec fn text_less(a: Seq<char>, b: Seq<char>) -> bool
    decreases a.len(),
{
    if a.len() == 0 {
        b.len() > 0
    } else if b.len() == 0 {
        false
    } else if a[0] != b[0] {
        a[0] < b[0]
    } else {
        text_less(a.drop_first(), b.drop_first())
    }
}

pub fn chars_less(a: &Vec<char>, b: &Vec<char>) -> (r: bool)
    ensures
        r == text_less(a@, b@),
{
    let mut i: usize = 0;
    assert(a@.skip(0) =~= a@);
    assert(b@.skip(0) =~= b@);
    while i < a.len() && i < b.len() && a[i] == b[i]
        invariant
            i <= a.len(),
            i <= b.len(),
            text_less(a@, b@) == text_less(a@.skip(i as int), b@.skip(i as int)),
        decreases a.len() - i,
    {
        assert(a@.skip(i as int).drop_first() =~= a@.skip(i + 1));
        assert(b@.skip(i as int).drop_first() =~= b@.skip(i + 1));
        i = i + 1;
    }
    if i == a.len() {
        i < b.len()
    } else if i == b.len() {
        false
    } else {
        assert(a@.skip(i as int)[0] == a@[i as int]);
        assert(b@.skip(i as int)[0] == b@[i as int]);
        a[i] < b[i]
    }
}


pub proof fn lemma_text_less_irreflexive(a: Seq<char>)
    ensures
        !text_less(a, a),
    decreases a.len(),
{
    if a.len() > 0 {
        lemma_text_less_irreflexive(a.drop_first());
    }
}

pub proof fn lemma_text_less_transitive(a: Seq<char>, b: Seq<char>, c: Seq<char>)
    requires
        text_less(a, b),
        text_less(b, c),
    ensures
        text_less(a, c),
    decreases a.len(),
{
    if a.len() > 0 && b.len() > 0 && c.len() > 0 && a[0] == b[0] && b[0] == c[0] {
        lemma_text_less_transitive(a.drop_first(), b.drop_first(), c.drop_first());
    }
}

pub proof fn lemma_text_less_total(a: Seq<char>, b: Seq<char>)
    requires
        a != b,
    ensures
        text_less(a, b) || text_less(b, a),
    decreases a.len(),
{
    if a.len() > 0 && b.len() > 0 && a[0] == b[0] {
        if a.drop_first() == b.drop_first() {
            assert(a =~= seq![a[0]] + a.drop_first());
            assert(b =~= seq![b[0]] + b.drop_first());
        }
        lemma_text_less_total(a.drop_first(), b.drop_first());
    } else if a.len() == 0 && b.len() == 0 {
        assert(a =~= b);
    }
}

pub proof fn lemma_text_less_asymmetric(a: Seq<char>, b: Seq<char>)
    requires
        text_less(a, b),
    ensures
        !text_less(b, a),
{
    if text_less(b, a) {
        lemma_text_less_transitive(a, b, a);
        lemma_text_less_irreflexive(a);
    }
}

} // verus!
