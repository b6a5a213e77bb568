//! Verified character-level string operations: prefix tests, searching,
//! replacing and splitting on a pattern, Unicode-whitespace trimming,
//! ASCII case folding and decimal numbers.
use vstd::prelude::*;

verus! {

/// Appends one character to a string (`String::push`).
#[verifier::external_body]
pub fn push_char(s: &mut String, c: char)
    ensures
        final(s)@ == old(s)@.push(c),
{
    s.push(c);
}

/// The characters of a string, in order.
pub fn to_chars(s: &str) -> (out: Vec<char>)
    ensures
        out@ == s@,
{
    let mut out: Vec<char> = Vec::new();
    let mut it = s.chars();
    for c in iter: it
        invariant
            out@ == iter.seq().take(iter.index() as int),
    {
        out.push(c);
    }
    out
}

/// Appends the characters `s[from..to]` to `out`.
pub fn push_range(out: &mut String, s: &[char], from: usize, to: usize)
    requires
        from <= to <= s@.len(),
    ensures
        final(out)@ == old(out)@ + s@.subrange(from as int, to as int),
{
    let mut i = from;
    while i < to
        invariant
            from <= i <= to <= s@.len(),
            out@ == old(out)@ + s@.subrange(from as int, i as int),
        decreases to - i,
    {
        push_char(out, s[i]);
        assert(s@.subrange(from as int, i + 1) =~= s@.subrange(from as int, i as int).push(s@[i as int]));
        i += 1;
    }
}

/// The string holding exactly the given characters.
pub fn from_chars(s: &[char]) -> (out: String)
    ensures
        out@ == s@,
{
    let mut out = String::new();
    push_range(&mut out, s, 0, s.len());
    assert(s@.subrange(0, s@.len() as int) =~= s@);
    out
}

/// The string holding the characters `s[from..to]`.
pub fn substring(s: &[char], from: usize, to: usize) -> (out: String)
    requires
        from <= to <= s@.len(),
    ensures
        out@ == s@.subrange(from as int, to as int),
{
    let mut out = String::new();
    push_range(&mut out, s, from, to);
    out
}

/// A copy of a string slice.
pub fn copy_str(s: &str) -> (out: String)
    ensures
        out@ == s@,
{
    s.to_owned()
}

// ------------------------------------------------------------------
// Prefixes and occurrences
// ------------------------------------------------------------------

/// `p` is a prefix of `s`.
pub open spec fn has_prefix(s: Seq<char>, p: Seq<char>) -> bool {
    p.len() <= s.len() && s.subrange(0, p.len() as int) == p
}

/// `pat` occurs in `s` starting at index `i`.
pub open spec fn occurs_at(s: Seq<char>, pat: Seq<char>, i: int) -> bool {
    0 <= i && i + pat.len() <= s.len() && s.subrange(i, i + pat.len()) == pat
}

/// The first index `>= i` at which `pat` occurs in `s`.
pub open spec fn find_from(s: Seq<char>, pat: Seq<char>, i: int) -> Option<int>
    decreases s.len() + 1 - i,
{
    if i < 0 || i + pat.len() > s.len() {
        None
    } else if occurs_at(s, pat, i) {
        Some(i)
    } else {
        find_from(s, pat, i + 1)
    }
}

/// The first index at which `pat` occurs in `s` (as `str::find`).
pub open spec fn find_first(s: Seq<char>, pat: Seq<char>) -> Option<int> {
    find_from(s, pat, 0)
}

/// Replaces every occurrence of the (non-empty) `pat`, scanning from the
/// left without overlaps, by `rep` (as `str::replace`).
pub open spec fn replace_all(s: Seq<char>, pat: Seq<char>, rep: Seq<char>) -> Seq<char>
    decreases s.len(),
{
    if pat.len() == 0 {
        s
    } else {
        match find_first(s, pat) {
            None => s,
            Some(i) => if 0 <= i && i + pat.len() <= s.len() {
                s.take(i) + rep + replace_all(s.skip(i + pat.len()), pat, rep)
            } else {
                s
            },
        }
    }
}

/// The pieces of `s` between the occurrences of the (non-empty) `pat`
/// (as `str::split` with a string pattern).
pub open spec fn split_on(s: Seq<char>, pat: Seq<char>) -> Seq<Seq<char>>
    decreases s.len(),
{
    if pat.len() == 0 {
        seq![s]
    } else {
        match find_first(s, pat) {
            None => seq![s],
            Some(i) => if 0 <= i && i + pat.len() <= s.len() {
                seq![s.take(i)] + split_on(s.skip(i + pat.len()), pat)
            } else {
                seq![s]
            },
        }
    }
}

/// The text before the first occurrence of `c` (the first piece of
/// `str::split` on a character).
pub open spec fn before_char(s: Seq<char>, c: char) -> Seq<char> {
    match find_first(s, seq![c]) {
        Some(i) => s.take(i),
        None => s,
    }
}

proof fn lemma_find_from_bounds(s: Seq<char>, pat: Seq<char>, i: int)
    ensures
        find_from(s, pat, i) matches Some(k) ==> i <= k && occurs_at(s, pat, k)
            && forall|j: int| i <= j < k ==> !occurs_at(s, pat, j),
    decreases s.len() + 1 - i,
{
    if i < 0 || i + pat.len() > s.len() {
    } else if occurs_at(s, pat, i) {
    } else {
        lemma_find_from_bounds(s, pat, i + 1);
    }
}

proof fn lemma_find_from_none(s: Seq<char>, pat: Seq<char>, i: int)
    requires
        0 <= i,
    ensures
        find_from(s, pat, i) is None ==> forall|j: int| i <= j ==> !occurs_at(s, pat, j),
    decreases s.len() + 1 - i,
{
    if i + pat.len() > s.len() {
    } else if occurs_at(s, pat, i) {
    } else {
        lemma_find_from_none(s, pat, i + 1);
    }
}

/// Whether `pat` occurs in `s` at index `i` (exec).
fn occurs_at_exec(s: &[char], pat: &[char], i: usize) -> (b: bool)
    requires
        i + pat@.len() <= s@.len(),
    ensures
        b == occurs_at(s@, pat@, i as int),
{
    let n = s.len();
    let mut k: usize = 0;
    while k < pat.len()
        invariant
            n == s@.len(),
            i + pat@.len() <= s@.len(),
            k <= pat@.len(),
            forall|j: int| 0 <= j < k ==> s@[i + j] == pat@[j],
        decreases pat@.len() - k,
    {
        if s[i + k] != pat[k] {
            assert(s@.subrange(i as int, i + pat@.len())[k as int] != pat@[k as int]);
            return false;
        }
        k += 1;
    }
    assert(s@.subrange(i as int, i + pat@.len()) =~= pat@);
    true
}

/// The first index `>= from` at which `pat` occurs in `s`.
pub fn find_chars(s: &[char], pat: &[char], from: usize) -> (r: Option<usize>)
    ensures
        r matches Some(k) ==> find_from(s@, pat@, from as int) == Some(k as int),
        r is None ==> find_from(s@, pat@, from as int) is None,
{
    if pat.len() > s.len() {
        proof {
            assert(find_from(s@, pat@, from as int) is None);
        }
        return None;
    }
    let last = s.len() - pat.len();
    let mut i = from;
    loop
        invariant
            from <= i,
            last == s@.len() - pat@.len(),
            find_from(s@, pat@, from as int) == find_from(s@, pat@, i as int),
        decreases last + 1 - i,
    {
        if i > last {
            return None;
        }
        if occurs_at_exec(s, pat, i) {
            return Some(i);
        }
        if i == last {
            assert(find_from(s@, pat@, i + 1) is None);
            return None;
        }
        i += 1;
    }
}

/// Whether `p` is a prefix of `s` (as `str::starts_with`).
pub fn starts_with(s: &str, p: &str) -> (b: bool)
    ensures
        b == has_prefix(s@, p@),
{
    let sc = to_chars(s);
    let pc = to_chars(p);
    if pc.len() > sc.len() {
        return false;
    }
    let r = occurs_at_exec(&sc, &pc, 0);
    r
}

/// Every occurrence of the non-empty `pat` replaced by `rep` (as `str::replace`).
pub fn replace(s: &str, pat: &str, rep: &str) -> (out: String)
    requires
        pat@.len() > 0,
    ensures
        out@ == replace_all(s@, pat@, rep@),
{
    let sc = to_chars(s);
    let pc = to_chars(pat);
    let mut out = String::new();
    let mut i: usize = 0;
    assert(sc@.skip(0) =~= sc@);
    while i <= sc.len()
        invariant
            i <= sc@.len(),
            pc@ == pat@,
            pc@.len() > 0,
            sc@ == s@,
            replace_all(s@, pat@, rep@) == out@ + replace_all(sc@.skip(i as int), pat@, rep@),
        decreases sc@.len() - i,
    {
        let found = find_chars(&sc, &pc, i);
        let ghost rest = sc@.skip(i as int);
        proof {
            lemma_find_shift(sc@, pat@, i as int);
        }
        match found {
            None => {
                push_range(&mut out, &sc, i, sc.len());
                assert(sc@.subrange(i as int, sc@.len() as int) =~= rest);
                return out;
            }
            Some(k) => {
                proof {
                    lemma_find_from_bounds(sc@, pat@, i as int);
                    assert(rest.take(k - i) =~= sc@.subrange(i as int, k as int));
                    assert(rest.skip(k - i + pat@.len()) =~= sc@.skip(k + pat@.len()));
                }
                push_range(&mut out, &sc, i, k);
                out.append(rep);
                i = k + pc.len();
            }
        }
    }
    out
}

/// Searching from `i` in `s` is searching from 0 in `s.skip(i)`, shifted.
proof fn lemma_find_shift(s: Seq<char>, pat: Seq<char>, i: int)
    requires
        0 <= i <= s.len(),
    ensures
        find_first(s.skip(i), pat) matches Some(k) ==> find_from(s, pat, i) == Some(k + i),
        find_first(s.skip(i), pat) is None ==> find_from(s, pat, i) is None,
{
    lemma_find_shift_from(s, pat, i, 0);
}

proof fn lemma_find_shift_from(s: Seq<char>, pat: Seq<char>, i: int, j: int)
    requires
        0 <= i <= s.len(),
        0 <= j,
    ensures
        find_from(s.skip(i), pat, j) matches Some(k) ==> find_from(s, pat, i + j) == Some(k + i),
        find_from(s.skip(i), pat, j) is None ==> find_from(s, pat, i + j) is None,
    decreases s.len() + 1 - i - j,
{
    let t = s.skip(i);
    if j + pat.len() > t.len() {
    } else {
        assert(t.subrange(j, j + pat.len()) =~= s.subrange(i + j, i + j + pat.len()));
        if occurs_at(t, pat, j) {
        } else {
            lemma_find_shift_from(s, pat, i, j + 1);
        }
    }
}


/// The pieces of `s` between the occurrences of the non-empty `pat`
/// (as `str::split(pat).collect()`).
pub fn split(s: &str, pat: &str) -> (out: Vec<String>)
    requires
        pat@.len() > 0,
    ensures
        out.deep_view() == split_on(s@, pat@),
{
    let sc = to_chars(s);
    let pc = to_chars(pat);
    let mut out: Vec<String> = Vec::new();
    let mut i: usize = 0;
    assert(sc@.skip(0) =~= sc@);
    while i <= sc.len()
        invariant
            i <= sc@.len(),
            pc@ == pat@,
            pc@.len() > 0,
            sc@ == s@,
            split_on(s@, pat@) == out.deep_view() + split_on(sc@.skip(i as int), pat@),
        decreases sc@.len() - i,
    {
        let found = find_chars(&sc, &pc, i);
        let ghost rest = sc@.skip(i as int);
        proof {
            lemma_find_shift(sc@, pat@, i as int);
        }
        let ghost before = out.deep_view();
        match found {
            None => {
                let piece = substring(&sc, i, sc.len());
                assert(sc@.subrange(i as int, sc@.len() as int) =~= rest);
                out.push(piece);
                assert(out.deep_view() =~= before + seq![rest]);
                return out;
            }
            Some(k) => {
                proof {
                    lemma_find_from_bounds(sc@, pat@, i as int);
                    assert(rest.take(k - i) =~= sc@.subrange(i as int, k as int));
                    assert(rest.skip(k - i + pat@.len()) =~= sc@.skip(k + pat@.len()));
                }
                let piece = substring(&sc, i, k);
                out.push(piece);
                assert(out.deep_view() =~= before + seq![rest.take(k - i)]);
                i = k + pc.len();
            }
        }
    }
    out
}

/// The text of `s` before the first occurrence of `c`
/// (as `s.split(c).next().unwrap_or("")`).
pub fn prefix_before_char(s: &str, c: char) -> (out: String)
    ensures
        out@ == before_char(s@, c),
{
    let sc = to_chars(s);
    let pat: Vec<char> = vec![c];
    assert(pat@ =~= seq![c]);
    match find_chars(&sc, &pat, 0) {
        Some(k) => {
            proof {
                lemma_find_from_bounds(sc@, pat@, 0);
            }
            substring(&sc, 0, k)
        }
        None => from_chars(&sc),
    }
}

/// The index of the first occurrence of the non-empty `pat` in `s`, counted
/// in characters (as `str::find`, which counts bytes).
pub fn find(s: &str, pat: &str) -> (r: Option<usize>)
    ensures
        r matches Some(k) ==> find_first(s@, pat@) == Some(k as int) && k + pat@.len() <= s@.len(),
        r is None ==> find_first(s@, pat@) is None,
{
    let sc = to_chars(s);
    let pc = to_chars(pat);
    proof {
        lemma_find_from_bounds(sc@, pc@, 0);
    }
    find_chars(&sc, &pc, 0)
}

// ------------------------------------------------------------------
// Whitespace
// ------------------------------------------------------------------

/// The characters with the Unicode `White_Space` property (`char::is_whitespace`).
pub open spec fn is_whitespace(c: char) -> bool {
    let u = c as u32;
    (0x9 <= u && u <= 0xd) || u == 0x20 || u == 0x85 || u == 0xa0 || u == 0x1680
        || (0x2000 <= u && u <= 0x200a) || u == 0x2028 || u == 0x2029 || u == 0x202f
        || u == 0x205f || u == 0x3000
}

/// `s` without its leading whitespace (`str::trim_start`).
pub open spec fn trim_start(s: Seq<char>) -> Seq<char>
    decreases s.len(),
{
    if s.len() > 0 && is_whitespace(s[0]) {
        trim_start(s.drop_first())
    } else {
        s
    }
}

/// `s` without its trailing whitespace (`str::trim_end`).
pub open spec fn trim_end(s: Seq<char>) -> Seq<char>
    decreases s.len(),
{
    if s.len() > 0 && is_whitespace(s.last()) {
        trim_end(s.drop_last())
    } else {
        s
    }
}

/// `s` without leading and trailing whitespace (`str::trim`).
pub open spec fn trim(s: Seq<char>) -> Seq<char> {
    trim_end(trim_start(s))
}

proof fn lemma_trim_start_shape(s: Seq<char>)
    ensures
        trim_start(s).len() == 0 || !is_whitespace(trim_start(s)[0]),
    decreases s.len(),
{
    if s.len() > 0 && is_whitespace(s[0]) {
        lemma_trim_start_shape(s.drop_first());
    }
}

proof fn lemma_trim_end_shape(s: Seq<char>)
    ensures
        trim_end(s).len() <= s.len(),
        trim_end(s) == s.take(trim_end(s).len() as int),
        trim_end(s).len() == 0 || !is_whitespace(trim_end(s).last()),
    decreases s.len(),
{
    if s.len() > 0 && is_whitespace(s.last()) {
        lemma_trim_end_shape(s.drop_last());
        assert(s.drop_last().take(trim_end(s).len() as int) =~= s.take(trim_end(s).len() as int));
    } else {
        assert(s.take(s.len() as int) =~= s);
    }
}

/// Trimming a trimmed text changes nothing.
pub proof fn lemma_trim_idempotent(s: Seq<char>)
    ensures
        trim(trim(s)) == trim(s),
{
    let u = trim_start(s);
    let w = trim_end(u);
    lemma_trim_start_shape(s);
    lemma_trim_end_shape(u);
    if w.len() > 0 {
        assert(w[0] == u[0]);
    }
    assert(trim_start(w) == w);
    lemma_trim_end_shape(w);
    if w.len() > 0 {
        assert(!is_whitespace(w.last()));
    }
    assert(trim_end(w) == w);
}

/// Whether `c` has the Unicode `White_Space` property.
pub fn is_whitespace_char(c: char) -> (b: bool)
    ensures
        b == is_whitespace(c),
{
    let u = c as u32;
    (0x9 <= u && u <= 0xd) || u == 0x20 || u == 0x85 || u == 0xa0 || u == 0x1680
        || (0x2000 <= u && u <= 0x200a) || u == 0x2028 || u == 0x2029 || u == 0x202f
        || u == 0x205f || u == 0x3000
}

/// The bounds `[a, b)` of `trim(s)` inside `s`.
fn trim_bounds(s: &[char]) -> (r: (usize, usize))
    ensures
        r.0 <= r.1 <= s@.len(),
        s@.subrange(r.0 as int, r.1 as int) == trim(s@),
{
    let n = s.len();
    let mut a: usize = 0;
    assert(s@.skip(0) =~= s@);
    while a < n && is_whitespace_char(s[a])
        invariant
            n == s@.len(),
            a <= n,
            trim_start(s@) == trim_start(s@.skip(a as int)),
        decreases n - a,
    {
        assert(s@.skip(a as int).drop_first() =~= s@.skip(a + 1));
        a += 1;
    }
    let ghost t = s@.skip(a as int);
    assert(trim_start(t) == t);
    let mut b: usize = n;
    assert(t.take(t.len() as int) =~= t);
    while b > a && is_whitespace_char(s[b - 1])
        invariant
            n == s@.len(),
            a <= b <= n,
            t == s@.skip(a as int),
            trim_end(t) == trim_end(t.take(b - a)),
        decreases b,
    {
        assert(t.take(b - a).drop_last() =~= t.take(b - 1 - a));
        b -= 1;
    }
    assert(t.take(b - a) =~= s@.subrange(a as int, b as int));
    (a, b)
}

/// `s` without leading and trailing whitespace (as `str::trim`).
pub fn trim_str(s: &str) -> (out: String)
    ensures
        out@ == trim(s@),
{
    let sc = to_chars(s);
    let (a, b) = trim_bounds(&sc);
    substring(&sc, a, b)
}

// ------------------------------------------------------------------
// ASCII case folding
// ------------------------------------------------------------------

/// `c` with ASCII upper-case letters mapped to lower case.
pub open spec fn ascii_lower(c: char) -> u32 {
    let u = c as u32;
    if 0x41 <= u && u <= 0x5a { (u + 32) as u32 } else { u }
}

/// `a` and `b` are equal when ASCII letters are compared without case
/// (`str::eq_ignore_ascii_case`).
pub open spec fn eq_ignore_ascii_case(a: Seq<char>, b: Seq<char>) -> bool {
    a.len() == b.len() && forall|i: int| 0 <= i < a.len() ==> ascii_lower(#[trigger] a[i]) == ascii_lower(b[i])
}

fn ascii_lower_exec(c: char) -> (u: u32)
    ensures
        u == ascii_lower(c),
{
    let u = c as u32;
    if 0x41 <= u && u <= 0x5a { u + 32 } else { u }
}

/// Whether `a` and `b` are equal up to the case of ASCII letters.
pub fn eq_ignore_ascii_case_str(a: &str, b: &str) -> (r: bool)
    ensures
        r == eq_ignore_ascii_case(a@, b@),
{
    let ac = to_chars(a);
    let bc = to_chars(b);
    if ac.len() != bc.len() {
        return false;
    }
    let mut i: usize = 0;
    while i < ac.len()
        invariant
            ac@ == a@,
            bc@ == b@,
            ac@.len() == bc@.len(),
            i <= ac@.len(),
            forall|j: int| 0 <= j < i ==> ascii_lower(#[trigger] ac@[j]) == ascii_lower(bc@[j]),
        decreases ac@.len() - i,
    {
        if ascii_lower_exec(ac[i]) != ascii_lower_exec(bc[i]) {
            return false;
        }
        i += 1;
    }
    true
}


// ------------------------------------------------------------------
// Concatenation
// ------------------------------------------------------------------

/// The concatenation of a sequence of strings (`concat` / `collect::<String>`).
pub open spec fn concat_all(parts: Seq<Seq<char>>) -> Seq<char>
    decreases parts.len(),
{
    if parts.len() == 0 {
        Seq::empty()
    } else {
        concat_all(parts.drop_last()) + parts.last()
    }
}

/// The concatenation of `parts`.
pub fn concat_strings(parts: &Vec<String>) -> (out: String)
    ensures
        out@ == concat_all(parts.deep_view()),
{
    let mut out = String::new();
    let mut i: usize = 0;
    while i < parts.len()
        invariant
            i <= parts@.len(),
            out@ == concat_all(parts.deep_view().take(i as int)),
        decreases parts@.len() - i,
    {
        assert(parts.deep_view().take(i + 1).drop_last() =~= parts.deep_view().take(i as int));
        out.append(parts[i].as_str());
        i += 1;
    }
    assert(parts.deep_view().take(parts@.len() as int) =~= parts.deep_view());
    out
}

// ------------------------------------------------------------------
// Decimal numbers
// ------------------------------------------------------------------

/// The ASCII digit for `d < 10`.
pub open spec fn digit_char(d: nat) -> char {
    ((d + 0x30) as u32) as char
}

/// The decimal representation of `n` (as `n.to_string()`).
pub open spec fn decimal(n: nat) -> Seq<char>
    decreases n,
{
    if n < 10 {
        seq![digit_char(n)]
    } else {
        decimal(n / 10).push(digit_char(n % 10))
    }
}

fn digit_exec(d: u64) -> (c: char)
    requires
        d < 10,
    ensures
        c == digit_char(d as nat),
{
    let c = match d {
        0 => '0',
        1 => '1',
        2 => '2',
        3 => '3',
        4 => '4',
        5 => '5',
        6 => '6',
        7 => '7',
        8 => '8',
        _ => '9',
    };
    c
}

/// The decimal representation of `n`.
pub fn decimal_string(n: u64) -> (out: String)
    ensures
        out@ == decimal(n as nat),
    decreases n,
{
    if n < 10 {
        let mut out = String::new();
        push_char(&mut out, digit_exec(n));
        assert(out@ =~= seq![digit_char(n as nat)]);
        out
    } else {
        let mut out = decimal_string(n / 10);
        push_char(&mut out, digit_exec(n % 10));
        out
    }
}

/// The value of the digit character `c`, if it is one of `0`..`9`.
pub open spec fn digit_value(c: char) -> Option<nat> {
    let u = c as u32;
    if 0x30 <= u && u <= 0x39 { Some((u - 0x30) as nat) } else { None }
}

/// The value of a string of decimal digits, if every character is a digit.
pub open spec fn digits_value(s: Seq<char>) -> Option<nat>
    decreases s.len(),
{
    if s.len() == 0 {
        Some(0)
    } else {
        match (digits_value(s.drop_last()), digit_value(s.last())) {
            (Some(v), Some(d)) => Some(v * 10 + d),
            _ => None,
        }
    }
}

/// What `s.parse::<usize>()` gives: an optional `+`, then at least one
/// decimal digit and nothing else, with a value that fits in `usize`.
pub open spec fn parse_usize(s: Seq<char>) -> Option<nat> {
    let d = if s.len() > 0 && s[0] == '+' { s.drop_first() } else { s };
    if d.len() == 0 {
        None
    } else {
        match digits_value(d) {
            Some(v) => if v <= usize::MAX { Some(v) } else { None },
            None => None,
        }
    }
}

proof fn lemma_digits_value_grows(s: Seq<char>, i: int)
    requires
        0 <= i <= s.len(),
        digits_value(s) is Some,
    ensures
        digits_value(s.take(i)) is Some,
        digits_value(s.take(i))->0 <= digits_value(s)->0,
    decreases s.len() - i,
{
    if i == s.len() {
        assert(s.take(i) =~= s);
    } else {
        lemma_digits_value_grows(s.drop_last(), i);
        assert(s.drop_last().take(i) =~= s.take(i));
    }
}

/// Parses a decimal `usize` (as `str::parse::<usize>().ok()`).
pub fn parse_usize_str(s: &str) -> (r: Option<usize>)
    ensures
        r matches Some(v) ==> parse_usize(s@) == Some(v as nat),
        r is None ==> parse_usize(s@) is None,
{
    let sc = to_chars(s);
    let start: usize = if sc.len() > 0 && sc[0] == '+' { 1 } else { 0 };
    let ghost d = if s@.len() > 0 && s@[0] == '+' { s@.drop_first() } else { s@ };
    assert(d =~= sc@.skip(start as int));
    if start == sc.len() {
        return None;
    }
    let mut v: usize = 0;
    let mut i: usize = start;
    assert(d.take(0) =~= Seq::<char>::empty());
    while i < sc.len()
        invariant
            start <= i <= sc@.len(),
            sc@ == s@,
            d == sc@.skip(start as int),
            d == (if s@.len() > 0 && s@[0] == '+' { s@.drop_first() } else { s@ }),
            d.len() > 0,
            digits_value(d.take(i - start)) == Some(v as nat),
        decreases sc@.len() - i,
    {
        let c = sc[i];
        assert(d.take(i + 1 - start).drop_last() =~= d.take(i - start));
        assert(d.take(i + 1 - start).last() == c);
        let u = c as u32;
        if !(0x30 <= u && u <= 0x39) {
            proof {
                assert(digit_value(c) is None);
                assert(digits_value(d.take(i + 1 - start)) is None);
                if digits_value(d) is Some {
                    lemma_digits_value_grows(d, i + 1 - start);
                }
            }
            return None;
        }
        let dv = (u - 0x30) as usize;
        if v > (usize::MAX - dv) / 10 {
            proof {
                assert(v * 10 + dv > usize::MAX) by (nonlinear_arith)
                    requires v > (usize::MAX - dv) / 10, dv <= 9;
                assert(digit_value(c) == Some(dv as nat));
                assert(digits_value(d.take(i + 1 - start)) == Some((v * 10 + dv) as nat));
                if digits_value(d) is Some {
                    lemma_digits_value_grows(d, i + 1 - start);
                }
            }
            return None;
        }
        assert(v * 10 + dv <= usize::MAX) by (nonlinear_arith)
            requires v <= (usize::MAX - dv) / 10, dv <= 9;
        v = v * 10 + dv;
        i += 1;
    }
    assert(d.take(d.len() as int) =~= d);
    Some(v)
}

/// `s` with every leading repetition of the non-empty `p` removed
/// (`str::trim_start_matches`).
pub open spec fn strip_leading(s: Seq<char>, p: Seq<char>) -> Seq<char>
    decreases s.len(),
{
    if p.len() > 0 && has_prefix(s, p) {
        strip_leading(s.skip(p.len() as int), p)
    } else {
        s
    }
}

/// `s` with every leading repetition of the non-empty `p` removed.
pub fn strip_leading_str(s: &str, p: &str) -> (out: String)
    requires
        p@.len() > 0,
    ensures
        out@ == strip_leading(s@, p@),
{
    let sc = to_chars(s);
    let pc = to_chars(p);
    let mut i: usize = 0;
    assert(sc@.skip(0) =~= sc@);
    while pc.len() <= sc.len() - i && occurs_at_exec(&sc, &pc, i)
        invariant
            i <= sc@.len(),
            sc@ == s@,
            pc@ == p@,
            p@.len() > 0,
            strip_leading(s@, p@) == strip_leading(sc@.skip(i as int), p@),
        decreases sc@.len() - i,
    {
        assert(sc@.skip(i as int).subrange(0, p@.len() as int) =~= sc@.subrange(i as int, i + p@.len()));
        assert(sc@.skip(i as int).skip(p@.len() as int) =~= sc@.skip(i + p@.len()));
        i = i + pc.len();
    }
    proof {
        if has_prefix(sc@.skip(i as int), p@) {
            assert(sc@.skip(i as int).subrange(0, p@.len() as int) =~= sc@.subrange(i as int, i + p@.len()));
        }
    }
    substring(&sc, i, sc.len())
}

// ------------------------------------------------------------------
// Ordering
// ------------------------------------------------------------------

/// `a` comes no later than `b` in the lexicographic order of their
/// characters, which is the order of `str`'s `Ord` (UTF-8 preserves the
/// order of code points).
pub open spec fn lex_le(a: Seq<char>, b: Seq<char>) -> bool
    decreases a.len(),
{
    if a.len() == 0 {
        true
    } else if b.len() == 0 {
        false
    } else if (a[0] as u32) < (b[0] as u32) {
        true
    } else if (a[0] as u32) > (b[0] as u32) {
        false
    } else {
        lex_le(a.drop_first(), b.drop_first())
    }
}

/// `a` comes strictly before `b`.
pub open spec fn lex_lt(a: Seq<char>, b: Seq<char>) -> bool {
    !lex_le(b, a)
}

/// Whether `a` sorts strictly after `b`.
pub fn lex_greater(a: &str, b: &str) -> (r: bool)
    ensures
        r == !lex_le(a@, b@),
{
    let ac = to_chars(a);
    let bc = to_chars(b);
    let mut i: usize = 0;
    assert(ac@.skip(0) =~= ac@);
    assert(bc@.skip(0) =~= bc@);
    loop
        invariant
            ac@ == a@,
            bc@ == b@,
            i <= ac@.len(),
            i <= bc@.len(),
            lex_le(a@, b@) == lex_le(ac@.skip(i as int), bc@.skip(i as int)),
        decreases ac@.len() - i,
    {
        if i == ac.len() {
            return false;
        }
        if i == bc.len() {
            return true;
        }
        let x = ac[i] as u32;
        let y = bc[i] as u32;
        if x < y {
            return false;
        }
        if x > y {
            return true;
        }
        assert(ac@.skip(i as int).drop_first() =~= ac@.skip(i + 1));
        assert(bc@.skip(i as int).drop_first() =~= bc@.skip(i + 1));
        i += 1;
    }
}

} // verus!
