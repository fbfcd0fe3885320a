//! Character-level text helpers: conversions between `String` and `Vec<char>`,
//! decimal rendering, trimming, splitting, searching and line splitting.

use vstd::prelude::*;

verus! {

/// Appends one character to a `String`.
///
/// Trusted: `String::push` appends `c` at the end of the string, as std
/// documents; nothing else changes.
#[verifier::external_body]
pub(crate) fn push_char(s: &mut String, c: char)
    ensures
        final(s)@ == old(s)@.push(c),
{
    s.push(c);
}

/// The characters of `s`, in order.
pub fn chars_of(s: &str) -> (res: Vec<char>)
    ensures
        res@ == s@,
{
    let mut v: Vec<char> = Vec::new();
    for c in it: s.chars()
        invariant
            v@ == it.seq().take(it.index() as int),
    {
        v.push(c);
    }
    v
}

/// A `String` holding exactly the characters of `v`.
pub fn string_of(v: &[char]) -> (res: String)
    ensures
        res@ == v@,
{
    let mut s = String::new();
    let n = v.len();
    for i in 0..n
        invariant
            n == v@.len(),
            s@ == v@.take(i as int),
    {
        push_char(&mut s, v[i]);
        assert(v@.take(i + 1) == v@.take(i as int).push(v@[i as int]));
    }
    assert(v@.take(n as int) == v@);
    s
}

/// Appends every character of `s` to `out`.
pub fn push_all(out: &mut Vec<char>, s: &str)
    ensures
        final(out)@ == old(out)@ + s@,
{
    let chars = chars_of(s);
    let n = chars.len();
    for i in 0..n
        invariant
            n == chars@.len(),
            chars@ == s@,
            out@ == old(out)@ + chars@.take(i as int),
    {
        out.push(chars[i]);
        assert(chars@.take(i + 1) == chars@.take(i as int).push(chars@[i as int]));
    }
    assert(chars@.take(n as int) == chars@);
}

/// Appends every character of `s` to `out`.
pub fn push_string(out: &mut Vec<char>, s: &String)
    ensures
        final(out)@ == old(out)@ + s@,
{
    push_all(out, s.as_str());
}

/// Appends every character of `s` to `out`.
pub fn push_seq(out: &mut Vec<char>, s: &[char])
    ensures
        final(out)@ == old(out)@ + s@,
{
    let n = s.len();
    for i in 0..n
        invariant
            n == s@.len(),
            out@ == old(out)@ + s@.take(i as int),
    {
        out.push(s[i]);
        assert(s@.take(i + 1) == s@.take(i as int).push(s@[i as int]));
    }
    assert(s@.take(n as int) == s@);
}

/// The character of decimal digit `d`.
pub open spec fn digit_char(d: nat) -> char {
    (48 + d) as char
}

/// The decimal rendering of a natural number, without leading zeros.
pub open spec fn decimal(n: nat) -> Seq<char>
    decreases n,
{
    if n < 10 {
        seq![digit_char(n)]
    } else {
        decimal(n / 10).push(digit_char(n % 10))
    }
}

/// The decimal rendering of an integer, with a leading `-` when negative.
pub open spec fn signed_decimal(i: int) -> Seq<char> {
    if i < 0 {
        seq!['-'] + decimal((-i) as nat)
    } else {
        decimal(i as nat)
    }
}

fn digit(d: u64) -> (c: char)
    requires
        d < 10,
    ensures
        c == digit_char(d as nat),
{
    let b: u8 = 48u8 + (d as u8);
    b as char
}

/// Appends the decimal rendering of `n` to `out`.
pub fn push_decimal(out: &mut Vec<char>, n: u64)
    ensures
        final(out)@ == old(out)@ + decimal(n as nat),
    decreases n,
{
    if n >= 10 {
        push_decimal(out, n / 10);
    }
    out.push(digit(n % 10));
}

/// Appends the decimal rendering of `i` to `out`, with `-` when negative.
pub fn push_signed(out: &mut Vec<char>, i: i64)
    ensures
        final(out)@ == old(out)@ + signed_decimal(i as int),
{
    if i < 0 {
        out.push('-');
        let magnitude: u64 = if i == i64::MIN {
            9223372036854775808u64
        } else {
            (-i) as u64
        };
        push_decimal(out, magnitude);
        assert(old(out)@.push('-') + decimal(magnitude as nat) == old(out)@ + (seq!['-']
            + decimal(magnitude as nat)));
    } else {
        push_decimal(out, i as u64);
    }
}

/// The decimal rendering of `n` as a `String`.
pub fn decimal_string(n: u64) -> (res: String)
    ensures
        res@ == decimal(n as nat),
{
    let mut v: Vec<char> = Vec::new();
    push_decimal(&mut v, n);
    assert(v@ == Seq::<char>::empty() + decimal(n as nat));
    string_of(&v)
}

/// Whether `c` has the Unicode `White_Space` property, which is what
/// `char::is_whitespace` and `str::trim` go by.
pub open spec fn is_white_space(c: char) -> bool {
    let u = c as u32;
    ||| 9 <= u <= 13
    ||| u == 32
    ||| u == 0x85
    ||| u == 0xa0
    ||| u == 0x1680
    ||| 0x2000 <= u <= 0x200a
    ||| u == 0x2028
    ||| u == 0x2029
    ||| u == 0x202f
    ||| u == 0x205f
    ||| u == 0x3000
}

pub fn white_space(c: char) -> (res: bool)
    ensures
        res == is_white_space(c),
{
    let u = c as u32;
    (9 <= u && u <= 13) || u == 32 || u == 0x85 || u == 0xa0 || u == 0x1680 || (0x2000 <= u && u
        <= 0x200a) || u == 0x2028 || u == 0x2029 || u == 0x202f || u == 0x205f || u == 0x3000
}

/// `s` without leading and trailing white space, as `str::trim` gives it:
/// `s[start..end]` where `start` is the first non-space position and `end`
/// is one past the last.
pub open spec fn trimmed(s: Seq<char>) -> Seq<char> {
    if forall|i: int| 0 <= i < s.len() ==> is_white_space(#[trigger] s[i]) {
        Seq::empty()
    } else {
        let start = choose|a: int|
            0 <= a < s.len() && !is_white_space(s[a]) && forall|i: int|
                0 <= i < a ==> is_white_space(#[trigger] s[i]);
        let last = choose|b: int|
            0 <= b < s.len() && !is_white_space(s[b]) && forall|i: int|
                b < i < s.len() ==> is_white_space(#[trigger] s[i]);
        s.subrange(start, last + 1)
    }
}

/// Trims white space off both ends of `s`.
pub fn trim_chars(s: &[char]) -> (res: Vec<char>)
    ensures
        res@ == trimmed(s@),
{
    let n = s.len();
    let mut start: usize = 0;
    while start < n && white_space(s[start])
        invariant
            n == s@.len(),
            start <= n,
            forall|i: int| 0 <= i < start ==> is_white_space(#[trigger] s@[i]),
        decreases n - start,
    {
        start += 1;
    }
    if start == n {
        return Vec::new();
    }
    let mut end: usize = n;
    while end > start && white_space(s[end - 1])
        invariant
            n == s@.len(),
            start < n,
            !is_white_space(s@[start as int]),
            start <= end <= n,
            forall|i: int| end <= i < n ==> is_white_space(#[trigger] s@[i]),
        decreases end,
    {
        end -= 1;
    }
    assert(end > start);
    let ghost a = choose|a: int|
        0 <= a < s@.len() && !is_white_space(s@[a]) && forall|i: int|
            0 <= i < a ==> is_white_space(#[trigger] s@[i]);
    let ghost b = choose|b: int|
        0 <= b < s@.len() && !is_white_space(s@[b]) && forall|i: int|
            b < i < s@.len() ==> is_white_space(#[trigger] s@[i]);
    assert(!is_white_space(s@[end - 1]));
    assert(exists|a: int|
        0 <= a < s@.len() && !is_white_space(s@[a]) && forall|i: int|
            0 <= i < a ==> is_white_space(#[trigger] s@[i]));
    assert(exists|b: int|
        0 <= b < s@.len() && !is_white_space(s@[b]) && forall|i: int|
            b < i < s@.len() ==> is_white_space(#[trigger] s@[i]));
    assert(a == start) by {
        if a < start {
            assert(is_white_space(s@[a]));
        }
        if a > start {
            assert(is_white_space(s@[start as int]));
        }
    }
    assert(b == end - 1) by {
        if b < end - 1 {
            assert(is_white_space(s@[end - 1]));
        }
        if b > end - 1 {
            assert(is_white_space(s@[b]));
        }
    }
    let mut out: Vec<char> = Vec::new();
    for i in start..end
        invariant
            n == s@.len(),
            start <= end <= n,
            out@ == s@.subrange(start as int, i as int),
    {
        out.push(s[i]);
        assert(s@.subrange(start as int, i + 1) == s@.subrange(start as int, i as int).push(
            s@[i as int],
        ));
    }
    out
}

/// The position of the first `c` in `s`, if any.
pub open spec fn first_index_of(s: Seq<char>, c: char) -> Option<int> {
    if exists|i: int| 0 <= i < s.len() && s[i] == c {
        Some(
            choose|i: int|
                0 <= i < s.len() && s[i] == c && forall|j: int| 0 <= j < i ==> s[j] != c,
        )
    } else {
        None
    }
}

proof fn lemma_first_witness(s: Seq<char>, c: char, w: int)
    requires
        0 <= w < s.len(),
        s[w] == c,
    ensures
        exists|k: int| 0 <= k < s.len() && s[k] == c && forall|j: int| 0 <= j < k ==> s[j] != c,
    decreases w,
{
    if exists|j: int| 0 <= j < w && s[j] == c {
        let j = choose|j: int| 0 <= j < w && s[j] == c;
        lemma_first_witness(s, c, j);
    } else {
        assert(0 <= w < s.len() && s[w] == c && forall|j: int| 0 <= j < w ==> s[j] != c);
    }
}

/// What [`first_index_of`] gives: the position of a `c` with none before
/// it, or `None` when `s` holds no `c`.
pub proof fn lemma_first_index_of(s: Seq<char>, c: char)
    ensures
        match first_index_of(s, c) {
            Some(i) => 0 <= i < s.len() && s[i] == c && forall|j: int| 0 <= j < i ==> s[j] != c,
            None => forall|j: int| 0 <= j < s.len() ==> s[j] != c,
        },
{
    if exists|i: int| 0 <= i < s.len() && s[i] == c {
        let w = choose|i: int| 0 <= i < s.len() && s[i] == c;
        lemma_first_witness(s, c, w);
    }
}

/// Finds the first `c` in `s`.
pub fn find_char(s: &[char], c: char) -> (res: Option<usize>)
    ensures
        match res {
            Some(i) => first_index_of(s@, c) == Some(i as int) && i < s@.len() && s@[i as int]
                == c && forall|j: int| 0 <= j < i ==> s@[j] != c,
            None => first_index_of(s@, c) is None && forall|j: int| 0 <= j < s@.len() ==> s@[j] != c,
        },
{
    let n = s.len();
    for i in 0..n
        invariant
            n == s@.len(),
            forall|j: int| 0 <= j < i ==> s@[j] != c,
    {
        if s[i] == c {
            let ghost k = choose|k: int|
                0 <= k < s@.len() && s@[k] == c && forall|j: int| 0 <= j < k ==> s@[j] != c;
            assert(exists|k: int|
                0 <= k < s@.len() && s@[k] == c && forall|j: int| 0 <= j < k ==> s@[j] != c);
            assert(k == i) by {
                if k < i {
                    assert(s@[k] != c);
                }
                if k > i {
                    assert(s@[i as int] != c);
                }
            }
            return Some(i);
        }
    }
    None
}

/// The text of `s` from `from` up to, not including, `to`.
pub fn slice_chars(s: &[char], from: usize, to: usize) -> (res: Vec<char>)
    requires
        from <= to <= s@.len(),
    ensures
        res@ == s@.subrange(from as int, to as int),
{
    let mut out: Vec<char> = Vec::new();
    for i in from..to
        invariant
            to <= s@.len(),
            out@ == s@.subrange(from as int, i as int),
    {
        out.push(s[i]);
        assert(s@.subrange(from as int, i + 1) == s@.subrange(from as int, i as int).push(
            s@[i as int],
        ));
    }
    out
}

/// Whether `needle` occurs in `hay` as a contiguous run of characters, which
/// is what `str::contains` with a `&str` pattern tests.
pub open spec fn occurs_in(hay: Seq<char>, needle: Seq<char>) -> bool {
    exists|i: int| 0 <= i <= hay.len() - needle.len() && #[trigger] hay.subrange(i, i + needle.len()) == needle
}

fn matches_at(hay: &[char], needle: &[char], at: usize) -> (res: bool)
    requires
        at + needle@.len() <= hay@.len(),
    ensures
        res == (hay@.subrange(at as int, at + needle@.len()) == needle@),
{
    let m = needle.len();
    let hn = hay.len();
    for k in 0..m
        invariant
            m == needle@.len(),
            hn == hay@.len(),
            at + m <= hay@.len(),
            forall|j: int| 0 <= j < k ==> hay@[at + j] == needle@[j],
    {
        assert(at + k < hay@.len());
        if hay[at + k] != needle[k] {
            assert(hay@.subrange(at as int, at + m)[k as int] != needle@[k as int]);
            return false;
        }
    }
    assert(hay@.subrange(at as int, at + m) =~= needle@);
    true
}

/// Whether `needle` occurs in `hay`.
pub fn contains_chars(hay: &[char], needle: &[char]) -> (res: bool)
    ensures
        res == occurs_in(hay@, needle@),
{
    let n = hay.len();
    let m = needle.len();
    if m > n {
        return false;
    }
    let last = n - m;
    let mut i: usize = 0;
    loop
        invariant
            n == hay@.len(),
            m == needle@.len(),
            last == n - m,
            i <= last,
            forall|j: int| 0 <= j < i ==> #[trigger] hay@.subrange(j, j + m) != needle@,
        decreases last - i,
    {
        if matches_at(hay, needle, i) {
            return true;
        }
        if i == last {
            return false;
        }
        i += 1;
    }
}

/// Whether `a` and `b` hold the same characters.
pub fn same_chars(a: &[char], b: &[char]) -> (res: bool)
    ensures
        res == (a@ == b@),
{
    if a.len() != b.len() {
        return false;
    }
    let n = a.len();
    for i in 0..n
        invariant
            n == a@.len(),
            n == b@.len(),
            forall|j: int| 0 <= j < i ==> a@[j] == b@[j],
    {
        if a[i] != b[i] {
            return false;
        }
    }
    assert(a@ =~= b@);
    true
}

/// Whether the characters of `s` spell `lit`.
pub fn str_is(s: &str, lit: &str) -> (res: bool)
    ensures
        res == (s@ == lit@),
{
    let a = chars_of(s);
    let b = chars_of(lit);
    same_chars(&a, &b)
}

/// The pieces of `s` between occurrences of `sep`, as `str::split` with a
/// `char` pattern gives them.
pub open spec fn pieces(s: Seq<char>, sep: char) -> Seq<Seq<char>>
    decreases s.len(),
{
    if s.len() == 0 {
        seq![Seq::empty()]
    } else {
        let before = pieces(s.drop_last(), sep);
        if s.last() == sep {
            before.push(Seq::empty())
        } else {
            before.update(before.len() - 1, before.last().push(s.last()))
        }
    }
}

/// The pieces of `s` between newlines.
pub open spec fn newline_pieces(s: Seq<char>) -> Seq<Seq<char>> {
    pieces(s, '\n')
}

proof fn lemma_pieces_facts(s: Seq<char>, sep: char)
    ensures
        pieces(s, sep).len() >= 1,
        s.len() > 0 && s.last() == sep ==> pieces(s, sep).last().len() == 0,
        s.len() > 0 && s.last() != sep ==> pieces(s, sep).last().len() > 0,
    decreases s.len(),
{
    if s.len() > 0 {
        lemma_pieces_facts(s.drop_last(), sep);
    }
}

/// Splits `s` at every `sep`.
pub fn split_at_char(s: &[char], sep: char) -> (res: Vec<Vec<char>>)
    ensures
        line_views(res@) == pieces(s@, sep),
{
    let n = s.len();
    let mut out: Vec<Vec<char>> = Vec::new();
    let mut cur: Vec<char> = Vec::new();
    for i in 0..n
        invariant
            n == s@.len(),
            pieces(s@.take(i as int), sep) == line_views(out@).push(cur@),
    {
        let c = s[i];
        let ghost t = s@.take(i + 1);
        assert(t.drop_last() == s@.take(i as int));
        assert(t.last() == c);
        let ghost before = line_views(out@);
        if c == sep {
            let done = cur;
            out.push(done);
            assert(line_views(out@) =~= before.push(done@));
            cur = Vec::new();
            assert(pieces(t, sep) =~= line_views(out@).push(cur@));
        } else {
            cur.push(c);
            assert(pieces(t, sep) =~= line_views(out@).push(cur@));
        }
    }
    assert(s@.take(n as int) == s@);
    let ghost before = line_views(out@);
    out.push(cur);
    assert(line_views(out@) =~= before.push(cur@));
    out
}

/// `l` without one trailing carriage return.
pub open spec fn strip_cr(l: Seq<char>) -> Seq<char> {
    if l.len() > 0 && l.last() == '\r' {
        l.drop_last()
    } else {
        l
    }
}

/// The lines of `s` as `str::lines` gives them: split at `\n`, each line
/// ended by `\n` losing a `\r` before it, and no empty line after a final
/// `\n`.
pub open spec fn lines_of(s: Seq<char>) -> Seq<Seq<char>> {
    if s.len() == 0 {
        Seq::empty()
    } else {
        let pieces = newline_pieces(s);
        let ended = pieces.drop_last().map_values(|l: Seq<char>| strip_cr(l));
        if s.last() == '\n' {
            ended
        } else {
            ended.push(pieces.last())
        }
    }
}

fn strip_cr_exec(l: Vec<char>) -> (res: Vec<char>)
    ensures
        res@ == strip_cr(l@),
{
    let mut l = l;
    if l.len() > 0 && l[l.len() - 1] == '\r' {
        l.pop();
    }
    l
}

/// The views of a list of lines.
pub open spec fn line_views(v: Seq<Vec<char>>) -> Seq<Seq<char>> {
    Seq::new(v.len(), |i: int| v[i]@)
}

/// Splits `s` into lines as `str::lines` does.
pub fn lines(s: &[char]) -> (res: Vec<Vec<char>>)
    ensures
        line_views(res@) == lines_of(s@),
{
    let n = s.len();
    let mut out: Vec<Vec<char>> = Vec::new();
    let mut cur: Vec<char> = Vec::new();
    let ghost mut raw: Seq<Seq<char>> = Seq::empty();
    for i in 0..n
        invariant
            n == s@.len(),
            newline_pieces(s@.take(i as int)) == raw.push(cur@),
            line_views(out@) == raw.map_values(|l: Seq<char>| strip_cr(l)),
            i > 0 && s@[i - 1] == '\n' ==> cur@.len() == 0,
            i > 0 && s@[i - 1] != '\n' ==> cur@.len() > 0,
    {
        let c = s[i];
        let ghost t = s@.take(i + 1);
        assert(t.drop_last() == s@.take(i as int));
        assert(t.last() == c);
        if c == '\n' {
            let line = strip_cr_exec(cur);
            let ghost old_out = line_views(out@);
            let ghost old_raw = raw;
            proof {
                raw = raw.push(cur@);
            }
            out.push(line);
            assert(line_views(out@) =~= old_out.push(strip_cr(cur@)));
            assert(raw.map_values(|l: Seq<char>| strip_cr(l)) =~= old_raw.map_values(
                |l: Seq<char>| strip_cr(l),
            ).push(strip_cr(cur@)));
            cur = Vec::new();
            assert(newline_pieces(t) =~= raw.push(cur@));
        } else {
            cur.push(c);
            assert(newline_pieces(t) =~= raw.push(cur@));
        }
    }
    assert(s@.take(n as int) == s@);
    proof {
        lemma_pieces_facts(s@, '\n');
    }
    if cur.len() > 0 {
        let ghost before = line_views(out@);
        out.push(cur);
        assert(line_views(out@) =~= before.push(newline_pieces(s@).last()));
        assert(newline_pieces(s@).drop_last() =~= raw);
    } else {
        assert(newline_pieces(s@).drop_last() =~= raw);
        if n > 0 {
            assert(s@.last() == '\n');
        }
    }
    out
}

/// Lines joined by `\n`.
pub open spec fn join_lines(ls: Seq<Seq<char>>) -> Seq<char>
    decreases ls.len(),
{
    if ls.len() == 0 {
        Seq::empty()
    } else if ls.len() == 1 {
        ls[0]
    } else {
        join_lines(ls.drop_last()) + seq!['\n'] + ls.last()
    }
}

/// Joins lines with `\n`.
pub fn join(ls: &Vec<Vec<char>>) -> (res: Vec<char>)
    ensures
        res@ == join_lines(line_views(ls@)),
{
    let mut out: Vec<char> = Vec::new();
    let n = ls.len();
    for i in 0..n
        invariant
            n == ls@.len(),
            out@ == join_lines(line_views(ls@).take(i as int)),
    {
        let ghost t = line_views(ls@).take(i + 1);
        assert(t.drop_last() == line_views(ls@).take(i as int));
        assert(t.last() == ls@[i as int]@);
        if i > 0 {
            out.push('\n');
        }
        push_seq(&mut out, ls[i].as_slice());
    }
    assert(line_views(ls@).take(n as int) == line_views(ls@));
    out
}

/// `s` split at its first `sep`: the text before it and the text after it.
pub open spec fn split_once_spec(s: Seq<char>, sep: char) -> Option<(Seq<char>, Seq<char>)> {
    match first_index_of(s, sep) {
        Some(i) => Some((s.take(i), s.skip(i + 1))),
        None => None,
    }
}

/// Splits `s` at its first `sep`, as `str::split_once` with a `char` does.
pub fn split_once(s: &[char], sep: char) -> (res: Option<(Vec<char>, Vec<char>)>)
    ensures
        match res {
            Some((a, b)) => split_once_spec(s@, sep) == Some((a@, b@)),
            None => split_once_spec(s@, sep) is None,
        },
{
    let n = s.len();
    match find_char(s, sep) {
        Some(i) => {
            let a = slice_chars(s, 0, i);
            let b = slice_chars(s, i + 1, n);
            assert(a@ =~= s@.take(i as int));
            assert(b@ =~= s@.skip(i + 1));
            Some((a, b))
        },
        None => None,
    }
}

/// Texts joined by `sep`.
pub open spec fn joined(ls: Seq<Seq<char>>, sep: char) -> Seq<char>
    decreases ls.len(),
{
    if ls.len() == 0 {
        Seq::empty()
    } else if ls.len() == 1 {
        ls[0]
    } else {
        joined(ls.drop_last(), sep) + seq![sep] + ls.last()
    }
}

/// Splitting at a separator and joining the pieces with it gives back the
/// text: `s.split(sep)` joined by `sep` is `s`.
pub proof fn lemma_join_pieces(s: Seq<char>, sep: char)
    ensures
        joined(pieces(s, sep), sep) == s,
    decreases s.len(),
{
    if s.len() > 0 {
        let t = s.drop_last();
        let c = s.last();
        lemma_join_pieces(t, sep);
        lemma_pieces_facts(t, sep);
        let p = pieces(t, sep);
        if c == sep {
            assert(pieces(s, sep).drop_last() == p);
            assert(joined(pieces(s, sep), sep) =~= t + seq![sep] + Seq::<char>::empty());
        } else {
            let q = pieces(s, sep);
            assert(q == p.update(p.len() - 1, p.last().push(c)));
            if p.len() == 1 {
                assert(q.len() == 1);
                assert(q[0] == p[0].push(c));
                assert(joined(p, sep) == p[0]);
                assert(s == t.push(c));
                assert(joined(q, sep) == q[0]);
                assert(p[0] == t);
            } else {
                assert(q.drop_last() == p.drop_last());
                assert(joined(q, sep) == joined(p.drop_last(), sep) + seq![sep] + p.last().push(c));
                assert(joined(p, sep) == joined(p.drop_last(), sep) + seq![sep] + p.last());
                assert(joined(q, sep) =~= joined(p, sep).push(c));
                assert(s =~= t.push(c));
            }
        }
    }
}

/// The views of a list of strings.
pub open spec fn string_views(v: Seq<String>) -> Seq<Seq<char>> {
    Seq::new(v.len(), |i: int| v[i]@)
}

/// Joins strings with `sep`, as `[String]::join` does.
pub fn join_strings(ls: &Vec<String>, sep: char) -> (res: Vec<char>)
    ensures
        res@ == joined(string_views(ls@), sep),
{
    let mut out: Vec<char> = Vec::new();
    let n = ls.len();
    for i in 0..n
        invariant
            n == ls@.len(),
            out@ == joined(string_views(ls@).take(i as int), sep),
    {
        let ghost t = string_views(ls@).take(i + 1);
        assert(t.drop_last() == string_views(ls@).take(i as int));
        assert(t.last() == ls@[i as int]@);
        if i > 0 {
            out.push(sep);
        }
        push_string(&mut out, &ls[i]);
    }
    assert(string_views(ls@).take(n as int) == string_views(ls@));
    out
}

/// The text `String::from_utf8_lossy` makes of `bytes`: invalid sequences
/// become U+FFFD.
pub uninterp spec fn utf8_lossy(bytes: Seq<u8>) -> Seq<char>;

/// Decodes `bytes` as UTF-8, replacing invalid sequences.
///
/// Trusted: `String::from_utf8_lossy`. Its result depends on the bytes
/// alone; on valid UTF-8 it is the decoded text, as std documents.
#[verifier::external_body]
pub(crate) fn lossy_utf8(bytes: &[u8]) -> (res: String)
    ensures
        res@ == utf8_lossy(bytes@),
        vstd::utf8::valid_utf8(bytes@) ==> res@ == vstd::utf8::decode_utf8(bytes@),
{
    String::from_utf8_lossy(bytes).into_owned()
}

} // verus!
