//! Text helpers shared by the protocol types: joining, decimal rendering,
//! trimming and prefix/suffix tests, each stated over `Seq<char>`.

use vstd::prelude::*;

verus! {

/// The pieces of `parts` with `sep` between consecutive ones.
pub open spec fn join(parts: Seq<Seq<char>>, sep: Seq<char>) -> Seq<char>
    decreases parts.len(),
{
    if parts.len() == 0 {
        Seq::empty()
    } else if parts.len() == 1 {
        parts[0]
    } else {
        join(parts.drop_last(), sep) + sep + parts.last()
    }
}

/// The views of a sequence of strings.
pub open spec fn views(v: Seq<String>) -> Seq<Seq<char>> {
    v.map_values(|s: String| s@)
}

/// The character of a decimal digit.
pub open spec fn digit_char(d: nat) -> char {
    (48 + d) as char
}

/// The decimal rendering of a natural number, without leading zeros.
pub open spec fn decimal(n: nat) -> Seq<char>
    decreases n,
{
    if n < 10 {
        seq![digit_char(n)]
    } else {
        decimal(n / 10).push(digit_char(n % 10))
    }
}

/// Compares two string slices with `str`'s `==` (`PartialEq::eq`), which
/// std documents as equality of their contents: the result says whether the
/// two hold the same characters.
#[verifier::external_body]
pub(crate) fn str_eq(a: &str, b: &str) -> (r: bool)
    ensures
        r == (a@ == b@),
{
    a == b
}

/// Calls `String::push`, which std documents as appending the character to
/// the end of the string: afterwards the string is the old one followed by
/// `c`.
#[verifier::external_body]
pub(crate) fn push_char(s: &mut String, c: char)
    ensures
        final(s)@ == old(s)@.push(c),
{
    s.push(c);
}

/// Calls `String::push_str`, which std documents as appending the slice to
/// the end of the string: afterwards the string is the old one followed by
/// `t`.
#[verifier::external_body]
pub(crate) fn push_str(s: &mut String, t: &str)
    ensures
        final(s)@ == old(s)@ + t@,
{
    s.push_str(t);
}

/// The decimal rendering of `n`, as `n.to_string()` gives it.
pub fn decimal_string(n: usize) -> (res: String)
    ensures
        res@ == decimal(n as nat),
    decreases n,
{
    let d: u8 = (n % 10) as u8;
    let c: char = (48u8 + d) as char;
    if n < 10 {
        let mut s = String::new();
        push_char(&mut s, c);
        assert(s@ =~= seq![digit_char(n as nat)]);
        s
    } else {
        let mut s = decimal_string(n / 10);
        push_char(&mut s, c);
        s
    }
}

/// Joins the strings of `parts` with `sep` between consecutive ones.
pub fn join_strings(parts: &Vec<String>, sep: &str) -> (res: String)
    ensures
        res@ == join(views(parts@), sep@),
{
    let mut res = String::new();
    let mut i: usize = 0;
    while i < parts.len()
        invariant
            i <= parts.len(),
            res@ == join(views(parts@).take(i as int), sep@),
        decreases parts.len() - i,
    {
        let ghost before = views(parts@).take(i as int);
        if i > 0 {
            push_str(&mut res, sep);
        }
        push_str(&mut res, parts[i].as_str());
        proof {
            let after = views(parts@).take(i + 1);
            assert(after.drop_last() =~= before);
            assert(after.last() == parts@[i as int]@);
            if i == 0 {
                assert(after.len() == 1);
                assert(res@ =~= after[0]);
            }
        }
        i = i + 1;
    }
    assert(views(parts@).take(parts.len() as int) =~= views(parts@));
    res
}

/// Whether `c` is white space in Unicode's sense (`char::is_whitespace`).
pub open spec fn is_whitespace(c: char) -> bool {
    ||| ('\u{9}' <= c <= '\u{d}')
    ||| c == ' '
    ||| c == '\u{85}'
    ||| c == '\u{a0}'
    ||| c == '\u{1680}'
    ||| ('\u{2000}' <= c <= '\u{200a}')
    ||| c == '\u{2028}'
    ||| c == '\u{2029}'
    ||| c == '\u{202f}'
    ||| c == '\u{205f}'
    ||| c == '\u{3000}'
}

/// Whether a character is white space (`char::is_whitespace`).
pub fn char_is_whitespace(c: char) -> (b: bool)
    ensures
        b == is_whitespace(c),
{
    ('\u{9}' <= c && c <= '\u{d}') || c == ' ' || c == '\u{85}' || c == '\u{a0}' || c
        == '\u{1680}' || ('\u{2000}' <= c && c <= '\u{200a}') || c == '\u{2028}' || c
        == '\u{2029}' || c == '\u{202f}' || c == '\u{205f}' || c == '\u{3000}'
}

/// `s` without the leading characters that satisfy `p`.
pub open spec fn trim_start_by(s: Seq<char>, p: spec_fn(char) -> bool) -> Seq<char>
    decreases s.len(),
{
    if s.len() > 0 && p(s[0]) {
        trim_start_by(s.drop_first(), p)
    } else {
        s
    }
}

/// `s` without the trailing characters that satisfy `p`.
pub open spec fn trim_end_by(s: Seq<char>, p: spec_fn(char) -> bool) -> Seq<char>
    decreases s.len(),
{
    if s.len() > 0 && p(s.last()) {
        trim_end_by(s.drop_last(), p)
    } else {
        s
    }
}

/// White space as a predicate.
pub open spec fn whitespace_pred() -> spec_fn(char) -> bool {
    |c: char| is_whitespace(c)
}

/// The double quote as a predicate.
pub open spec fn quote_pred() -> spec_fn(char) -> bool {
    |c: char| c == '"'
}

/// `s` without its leading white space (`str::trim_start`).
pub open spec fn trim_start_seq(s: Seq<char>) -> Seq<char> {
    trim_start_by(s, whitespace_pred())
}

/// `s` without its leading and trailing white space (`str::trim`).
pub open spec fn trim_seq(s: Seq<char>) -> Seq<char> {
    trim_end_by(trim_start_by(s, whitespace_pred()), whitespace_pred())
}

/// `s` without its leading and trailing double quotes (`str::trim_matches('"')`).
pub open spec fn trim_quotes_seq(s: Seq<char>) -> Seq<char> {
    trim_end_by(trim_start_by(s, quote_pred()), quote_pred())
}

proof fn lemma_trim_start_skip(s: Seq<char>, p: spec_fn(char) -> bool, k: int)
    requires
        0 <= k <= s.len(),
        forall|j: int| 0 <= j < k ==> p(#[trigger] s[j]),
        k == s.len() || !p(s[k]),
    ensures
        trim_start_by(s, p) == s.skip(k),
    decreases k,
{
    if k > 0 {
        let d = s.drop_first();
        assert forall|j: int| 0 <= j < k - 1 implies p(#[trigger] d[j]) by {
            assert(d[j] == s[j + 1]);
        }
        if k - 1 < d.len() {
            assert(d[k - 1] == s[k]);
        }
        assert(p(s[0]));
        lemma_trim_start_skip(d, p, k - 1);
        assert(d.skip(k - 1) =~= s.skip(k));
    } else {
        assert(s.skip(0) =~= s);
    }
}

proof fn lemma_trim_end_take(s: Seq<char>, p: spec_fn(char) -> bool, k: int)
    requires
        0 <= k <= s.len(),
        forall|j: int| k <= j < s.len() ==> p(#[trigger] s[j]),
        k == 0 || !p(s[k - 1]),
    ensures
        trim_end_by(s, p) == s.take(k),
    decreases s.len() - k,
{
    if k < s.len() {
        let d = s.drop_last();
        assert(p(s[s.len() - 1]));
        assert forall|j: int| k <= j < d.len() implies p(#[trigger] d[j]) by {
            assert(d[j] == s[j]);
        }
        if k > 0 {
            assert(d[k - 1] == s[k - 1]);
        }
        lemma_trim_end_take(d, p, k);
        assert(d.take(k) =~= s.take(k));
    } else {
        assert(s.take(k) =~= s);
    }
}

/// The bounds of `v` trimmed on both ends of the characters that satisfy `p`.
proof fn lemma_trim_bounds(v: Seq<char>, p: spec_fn(char) -> bool, start: int, end: int)
    requires
        0 <= start <= end <= v.len(),
        forall|j: int| 0 <= j < start ==> p(#[trigger] v[j]),
        start == v.len() || !p(v[start]),
        forall|j: int| end <= j < v.len() ==> p(#[trigger] v[j]),
        end == start || !p(v[end - 1]),
    ensures
        trim_end_by(trim_start_by(v, p), p) == v.subrange(start, end),
{
    lemma_trim_start_skip(v, p, start);
    let t = v.skip(start);
    assert forall|j: int| end - start <= j < t.len() implies p(#[trigger] t[j]) by {
        assert(t[j] == v[j + start]);
    }
    if end > start {
        assert(t[end - start - 1] == v[end - 1]);
    }
    lemma_trim_end_take(t, p, end - start);
    assert(t.take(end - start) =~= v.subrange(start, end));
}

/// The characters of a string slice.
pub fn chars_of(s: &str) -> (v: Vec<char>)
    ensures
        v@ == s@,
{
    let mut v: Vec<char> = Vec::new();
    for c in it: s.chars()
        invariant
            it.seq() == s@,
            v@ == s@.take(it.index() as int),
    {
        let ghost k = it.index() as int;
        assert(c == s@[k]);
        v.push(c);
        assert(v@ =~= s@.take(k + 1));
    }
    assert(s@.take(s@.len() as int) =~= s@);
    v
}

/// The string made of `v[from..to]`.
pub fn string_of(v: &Vec<char>, from: usize, to: usize) -> (s: String)
    requires
        from <= to <= v@.len(),
    ensures
        s@ == v@.subrange(from as int, to as int),
{
    let mut s = String::new();
    let mut i = from;
    while i < to
        invariant
            from <= i <= to,
            to <= v@.len(),
            s@ == v@.subrange(from as int, i as int),
        decreases to - i,
    {
        push_char(&mut s, v[i]);
        assert(s@ =~= v@.subrange(from as int, i + 1));
        i = i + 1;
    }
    s
}

/// `s` without its leading and trailing white space (`str::trim`).
pub fn trim(s: &str) -> (r: String)
    ensures
        r@ == trim_seq(s@),
{
    let v = chars_of(s);
    let mut start: usize = 0;
    while start < v.len() && char_is_whitespace(v[start])
        invariant
            start <= v@.len(),
            forall|j: int| 0 <= j < start ==> whitespace_pred()(#[trigger] v@[j]),
        decreases v@.len() - start,
    {
        start = start + 1;
    }
    let mut end: usize = v.len();
    while end > start && char_is_whitespace(v[end - 1])
        invariant
            start <= end <= v@.len(),
            forall|j: int| end <= j < v@.len() ==> whitespace_pred()(#[trigger] v@[j]),
        decreases end,
    {
        end = end - 1;
    }
    proof {
        lemma_trim_bounds(v@, whitespace_pred(), start as int, end as int);
    }
    string_of(&v, start, end)
}

/// `s` without its leading and trailing double quotes (`str::trim_matches('"')`).
pub fn trim_quotes(s: &str) -> (r: String)
    ensures
        r@ == trim_quotes_seq(s@),
{
    let v = chars_of(s);
    let mut start: usize = 0;
    while start < v.len() && v[start] == '"'
        invariant
            start <= v@.len(),
            forall|j: int| 0 <= j < start ==> quote_pred()(#[trigger] v@[j]),
        decreases v@.len() - start,
    {
        start = start + 1;
    }
    let mut end: usize = v.len();
    while end > start && v[end - 1] == '"'
        invariant
            start <= end <= v@.len(),
            forall|j: int| end <= j < v@.len() ==> quote_pred()(#[trigger] v@[j]),
        decreases end,
    {
        end = end - 1;
    }
    proof {
        lemma_trim_bounds(v@, quote_pred(), start as int, end as int);
    }
    string_of(&v, start, end)
}

/// `s` without its leading white space (`str::trim_start`).
pub fn trim_start(s: &str) -> (r: String)
    ensures
        r@ == trim_start_seq(s@),
{
    let v = chars_of(s);
    let mut start: usize = 0;
    while start < v.len() && char_is_whitespace(v[start])
        invariant
            start <= v@.len(),
            forall|j: int| 0 <= j < start ==> whitespace_pred()(#[trigger] v@[j]),
        decreases v@.len() - start,
    {
        start = start + 1;
    }
    proof {
        lemma_trim_start_skip(v@, whitespace_pred(), start as int);
        assert(v@.skip(start as int) =~= v@.subrange(start as int, v@.len() as int));
    }
    string_of(&v, start, v.len())
}

/// The first position at or after `i` where `p` occurs in `s`.
pub open spec fn find_from(s: Seq<char>, p: Seq<char>, i: nat) -> Option<nat>
    decreases s.len() - i,
{
    if i + p.len() > s.len() {
        None
    } else if p.len() == 0 || s.subrange(i as int, (i + p.len()) as int) == p {
        Some(i)
    } else {
        find_from(s, p, i + 1)
    }
}

/// Whether `p` occurs in `s`.
pub open spec fn contains_seq(s: Seq<char>, p: Seq<char>) -> bool {
    find_from(s, p, 0) is Some
}

/// Whether `v[i..i + p.len()]` is `p`.
pub fn matches_at(v: &Vec<char>, p: &Vec<char>, i: usize) -> (b: bool)
    requires
        i + p@.len() <= v@.len(),
    ensures
        b == (v@.subrange(i as int, i + p@.len()) == p@),
{
    let n = v.len();
    let mut j: usize = 0;
    while j < p.len()
        invariant
            j <= p@.len(),
            i + p@.len() <= v@.len(),
            v@.len() == n,
            forall|k: int| 0 <= k < j ==> v@[i + k] == p@[k],
        decreases p@.len() - j,
    {
        if v[i + j] != p[j] {
            assert(v@.subrange(i as int, i + p@.len())[j as int] != p@[j as int]);
            return false;
        }
        j = j + 1;
    }
    assert(v@.subrange(i as int, i + p@.len()) =~= p@);
    true
}

/// The first position at or after `from` where `p` occurs in `v`.
pub fn find_seq(v: &Vec<char>, p: &Vec<char>, from: usize) -> (r: Option<usize>)
    ensures
        match r {
            Some(i) => find_from(v@, p@, from as nat) == Some(i as nat) && from <= i && i + p@.len()
                <= v@.len(),
            None => find_from(v@, p@, from as nat) is None,
        },
{
    let mut i = from;
    loop
        invariant
            from <= i,
            find_from(v@, p@, from as nat) == find_from(v@, p@, i as nat),
        decreases v@.len() - i,
    {
        if i > v.len() || p.len() > v.len() - i {
            return None;
        }
        if p.len() == 0 || matches_at(v, p, i) {
            return Some(i);
        }
        i = i + 1;
    }
}

/// The first position at or after `from` where `c` occurs in `v`.
pub fn find_char(v: &Vec<char>, c: char, from: usize) -> (r: Option<usize>)
    ensures
        match r {
            Some(i) => find_from(v@, seq![c], from as nat) == Some(i as nat) && from <= i && i
                < v@.len(),
            None => find_from(v@, seq![c], from as nat) is None,
        },
{
    let mut p: Vec<char> = Vec::new();
    p.push(c);
    assert(p@ =~= seq![c]);
    find_seq(v, &p, from)
}

/// The double-quoted strings of `s` from position `i` on, where `inside` says
/// whether position `i` lies within quotes and `cur` holds what the current
/// quoted string has so far. An unterminated string is dropped.
pub open spec fn quoted_items_from(s: Seq<char>, i: nat, inside: bool, cur: Seq<char>) -> Seq<
    Seq<char>,
>
    decreases s.len() - i,
{
    if i >= s.len() {
        Seq::empty()
    } else if s[i as int] == '"' {
        if inside {
            seq![cur] + quoted_items_from(s, i + 1, false, Seq::empty())
        } else {
            quoted_items_from(s, i + 1, true, Seq::empty())
        }
    } else if inside {
        quoted_items_from(s, i + 1, true, cur.push(s[i as int]))
    } else {
        quoted_items_from(s, i + 1, false, cur)
    }
}

/// The double-quoted strings of `s`, in order.
pub open spec fn quoted_items(s: Seq<char>) -> Seq<Seq<char>> {
    quoted_items_from(s, 0, false, Seq::empty())
}

/// The double-quoted strings of `v[from..to]`, in order.
pub fn collect_quoted(v: &Vec<char>, from: usize, to: usize) -> (r: Vec<String>)
    requires
        from <= to <= v@.len(),
    ensures
        views(r@) == quoted_items(v@.subrange(from as int, to as int)),
{
    let ghost s = v@.subrange(from as int, to as int);
    let mut out: Vec<String> = Vec::new();
    let mut cur = String::new();
    let mut inside = false;
    let mut i = from;
    while i < to
        invariant
            from <= i <= to,
            to <= v@.len(),
            s == v@.subrange(from as int, to as int),
            views(out@) + quoted_items_from(s, (i - from) as nat, inside, cur@) == quoted_items(s),
        decreases to - i,
    {
        let c = v[i];
        let ghost k = (i - from) as nat;
        assert(s[k as int] == c);
        if c == '"' {
            if inside {
                let ghost before = views(out@);
                let item = cur;
                cur = String::new();
                out.push(item);
                proof {
                    assert(views(out@) =~= before.push(item@));
                    assert(before + (seq![item@] + quoted_items_from(s, k + 1, false, Seq::empty()))
                        =~= before.push(item@) + quoted_items_from(s, k + 1, false, Seq::empty()));
                }
                inside = false;
            } else {
                cur = String::new();
                inside = true;
            }
        } else if inside {
            push_char(&mut cur, c);
        }
        i = i + 1;
    }
    assert(views(out@) + Seq::<Seq<char>>::empty() =~= views(out@));
    out
}

} // verus!
