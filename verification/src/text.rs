//! Character-level text handling: the line, word and field splitting that the
//! collectors' parsers are built from, stated over `Seq<char>`.
use vstd::prelude::*;

verus! {

/// `String::push` appends one character.
pub assume_specification[ String::push ](s: &mut String, ch: char)
    ensures
        final(s)@ == old(s)@.push(ch),
;

/// Unicode `White_Space`, the property behind `char::is_whitespace`.
pub open spec fn is_ws(c: char) -> bool {
    let u = c as u32;
    ||| 0x09 <= u <= 0x0D
    ||| u == 0x20
    ||| u == 0x85
    ||| u == 0xA0
    ||| u == 0x1680
    ||| 0x2000 <= u <= 0x200A
    ||| u == 0x2028
    ||| u == 0x2029
    ||| u == 0x202F
    ||| u == 0x205F
    ||| u == 0x3000
}

pub fn is_whitespace(c: char) -> (b: bool)
    ensures
        b == is_ws(c),
{
    let u = c as u32;
    (0x09 <= u && u <= 0x0D) || u == 0x20 || u == 0x85 || u == 0xA0 || u == 0x1680 || (0x2000
        <= u && u <= 0x200A) || u == 0x2028 || u == 0x2029 || u == 0x202F || u == 0x205F || u
        == 0x3000
}

/// The views of a sequence of character vectors.
pub open spec fn views(v: Seq<Vec<char>>) -> Seq<Seq<char>> {
    Seq::new(v.len(), |i: int| v[i]@)
}

/// Index of the first `c` in `s`, or `s.len()` when there is none.
pub open spec fn index_of(s: Seq<char>, c: char) -> int
    decreases s.len(),
{
    if s.len() == 0 {
        0
    } else if s[0] == c {
        0
    } else {
        1 + index_of(s.drop_first(), c)
    }
}

pub proof fn lemma_index_of(s: Seq<char>, c: char)
    ensures
        0 <= index_of(s, c) <= s.len(),
        index_of(s, c) < s.len() ==> s[index_of(s, c)] == c,
        forall|k: int| 0 <= k < index_of(s, c) ==> s[k] != c,
    decreases s.len(),
{
    if s.len() > 0 && s[0] != c {
        lemma_index_of(s.drop_first(), c);
        assert forall|k: int| 0 <= k < index_of(s, c) implies s[k] != c by {
            if k > 0 {
                assert(s[k] == s.drop_first()[k - 1]);
            }
        }
    }
}

/// `index_of` is the unique index that the three facts of `lemma_index_of` describe.
pub proof fn lemma_index_of_unique(s: Seq<char>, c: char, i: int)
    requires
        0 <= i <= s.len(),
        i < s.len() ==> s[i] == c,
        forall|k: int| 0 <= k < i ==> s[k] != c,
    ensures
        index_of(s, c) == i,
{
    lemma_index_of(s, c);
    let j = index_of(s, c);
    if j < i {
        assert(s[j] == c);
    } else if i < j {
        assert(s[i] != c);
    }
}

/// Drops one trailing `'\r'`.
pub open spec fn strip_cr(s: Seq<char>) -> Seq<char> {
    if s.len() > 0 && s.last() == '\r' {
        s.drop_last()
    } else {
        s
    }
}

/// The lines of `s` as `str::lines` yields them: split at `'\n'`, a `'\r'` right
/// before a `'\n'` dropped, and no empty line after a final `'\n'`.
pub open spec fn lines(s: Seq<char>) -> Seq<Seq<char>>
    decreases s.len(),
{
    if s.len() == 0 {
        seq![]
    } else {
        let i = index_of(s, '\n');
        proof {
            lemma_index_of(s, '\n');
        }
        if i < s.len() {
            seq![strip_cr(s.take(i))] + lines(s.skip(i + 1))
        } else {
            seq![s]
        }
    }
}

/// The pieces of `s` between occurrences of `c`, as `str::split` yields them.
pub open spec fn split_on(s: Seq<char>, c: char) -> Seq<Seq<char>>
    decreases s.len(),
{
    let i = index_of(s, c);
    proof {
        lemma_index_of(s, c);
    }
    if i < s.len() {
        seq![s.take(i)] + split_on(s.skip(i + 1), c)
    } else {
        seq![s]
    }
}

/// Number of leading characters of `s` that are not whitespace.
pub open spec fn word_len(s: Seq<char>) -> int
    decreases s.len(),
{
    if s.len() == 0 || is_ws(s[0]) {
        0
    } else {
        1 + word_len(s.drop_first())
    }
}

pub proof fn lemma_word_len(s: Seq<char>)
    ensures
        0 <= word_len(s) <= s.len(),
        word_len(s) < s.len() ==> is_ws(s[word_len(s)]),
        forall|k: int| 0 <= k < word_len(s) ==> !is_ws(s[k]),
    decreases s.len(),
{
    if s.len() > 0 && !is_ws(s[0]) {
        lemma_word_len(s.drop_first());
        assert forall|k: int| 0 <= k < word_len(s) implies !is_ws(s[k]) by {
            if k > 0 {
                assert(s[k] == s.drop_first()[k - 1]);
            }
        }
    }
}

/// The whitespace-separated words of `s`, as `str::split_whitespace` yields them.
pub open spec fn words(s: Seq<char>) -> Seq<Seq<char>>
    decreases s.len(),
{
    if s.len() == 0 {
        seq![]
    } else if is_ws(s[0]) {
        words(s.drop_first())
    } else {
        let k = word_len(s);
        proof {
            lemma_word_len(s);
        }
        seq![s.take(k)] + words(s.skip(k))
    }
}

/// `s` without its leading whitespace.
pub open spec fn trim_start(s: Seq<char>) -> Seq<char>
    decreases s.len(),
{
    if s.len() > 0 && is_ws(s[0]) {
        trim_start(s.drop_first())
    } else {
        s
    }
}

/// `s` without its trailing whitespace.
pub open spec fn trim_end(s: Seq<char>) -> Seq<char>
    decreases s.len(),
{
    if s.len() > 0 && is_ws(s.last()) {
        trim_end(s.drop_last())
    } else {
        s
    }
}

/// `str::trim`.
pub open spec fn trim(s: Seq<char>) -> Seq<char> {
    trim_end(trim_start(s))
}

pub open spec fn starts_with(s: Seq<char>, p: Seq<char>) -> bool {
    p.len() <= s.len() && s.take(p.len() as int) == p
}

pub open spec fn ends_with(s: Seq<char>, p: Seq<char>) -> bool {
    p.len() <= s.len() && s.skip(s.len() - p.len()) == p
}

/// `p` occurs in `s` at index `i`.
pub open spec fn occurs_at(s: Seq<char>, p: Seq<char>, i: int) -> bool {
    0 <= i && i + p.len() <= s.len() && s.subrange(i, i + p.len()) == p
}

/// The first index at or after `i` where `p` occurs in `s`.
pub open spec fn find_from(s: Seq<char>, p: Seq<char>, i: int) -> Option<int>
    decreases s.len() + 1 - i,
{
    if i < 0 || i > s.len() || i + p.len() > s.len() {
        None
    } else if occurs_at(s, p, i) {
        Some(i)
    } else {
        find_from(s, p, i + 1)
    }
}

/// `str::find` with a string pattern.
pub open spec fn find(s: Seq<char>, p: Seq<char>) -> Option<int> {
    find_from(s, p, 0)
}

/// `str::contains` with a string pattern.
pub open spec fn contains(s: Seq<char>, p: Seq<char>) -> bool {
    find(s, p) is Some
}

/// Index of the last `c` in `s`.
pub open spec fn last_index_of(s: Seq<char>, c: char) -> Option<int>
    decreases s.len(),
{
    if s.len() == 0 {
        None
    } else if s.last() == c {
        Some(s.len() - 1)
    } else {
        last_index_of(s.drop_last(), c)
    }
}

/// ASCII lower-casing of one character, as `char::to_ascii_lowercase`.
pub open spec fn ascii_lower_char(c: char) -> char {
    if 'A' <= c <= 'Z' {
        ((c as u32) + 32) as char
    } else {
        c
    }
}

/// `str::to_ascii_lowercase`.
pub open spec fn ascii_lower(s: Seq<char>) -> Seq<char> {
    s.map_values(|c: char| ascii_lower_char(c))
}

pub open spec fn is_digit(c: char) -> bool {
    '0' <= c <= '9'
}

/// The value of a string of decimal digits.
pub open spec fn digits_value(d: Seq<char>) -> nat
    decreases d.len(),
{
    if d.len() == 0 {
        0
    } else {
        digits_value(d.drop_last()) * 10 + ((d.last() as u32) - ('0' as u32)) as nat
    }
}

/// The value that `FromStr` for an unsigned integer type whose largest value is
/// `max` gives `s`: one optional `'+'`, then at least one decimal digit, and no
/// value above `max`.
pub open spec fn parse_unsigned(s: Seq<char>, max: nat) -> Option<nat> {
    let d = unsigned_digits(s);
    if d.len() > 0 && all_digits(d) && digits_value(d) <= max {
        Some(digits_value(d))
    } else {
        None
    }
}

/// `s` without one leading `'+'`.
pub open spec fn unsigned_digits(s: Seq<char>) -> Seq<char> {
    if s.len() > 0 && s[0] == '+' {
        s.drop_first()
    } else {
        s
    }
}

/// Every character of `d` is a decimal digit.
pub open spec fn all_digits(d: Seq<char>) -> bool {
    forall|i: int| 0 <= i < d.len() ==> is_digit(#[trigger] d[i])
}



/// The characters of `s`, in order.
pub fn chars_of(s: &str) -> (out: Vec<char>)
    ensures
        out@ == s@,
{
    let mut out: Vec<char> = Vec::new();
    for c in it: s.chars()
        invariant
            it.seq() == s@,
            out@ == it.seq().take(it.index() as int),
    {
        out.push(c);
    }
    out
}

/// A `String` holding exactly the characters `cs`.
pub fn string_of(cs: &[char]) -> (out: String)
    ensures
        out@ == cs@,
{
    let mut out = String::new();
    let mut i: usize = 0;
    while i < cs.len()
        invariant
            i <= cs@.len(),
            out@ == cs@.take(i as int),
        decreases cs@.len() - i,
    {
        out.push(cs[i]);
        assert(cs@.take(i + 1) == cs@.take(i as int).push(cs@[i as int]));
        i = i + 1;
    }
    assert(cs@.take(cs@.len() as int) == cs@);
    out
}

/// A copy of `s[from..to]`.
pub fn copy_range(s: &[char], from: usize, to: usize) -> (out: Vec<char>)
    requires
        from <= to <= s@.len(),
    ensures
        out@ == s@.subrange(from as int, to as int),
{
    let mut out: Vec<char> = Vec::new();
    let mut k: usize = from;
    while k < to
        invariant
            from <= k <= to <= s@.len(),
            out@ == s@.subrange(from as int, k as int),
        decreases to - k,
    {
        out.push(s[k]);
        assert(s@.subrange(from as int, k + 1) == s@.subrange(from as int, k as int).push(
            s@[k as int],
        ));
        k = k + 1;
    }
    out
}

/// Index of the first `c` at or after `start`.
pub fn index_from(s: &[char], start: usize, c: char) -> (j: usize)
    requires
        start <= s@.len(),
    ensures
        start <= j <= s@.len(),
        j - start == index_of(s@.skip(start as int), c),
{
    let mut j: usize = start;
    while j < s.len() && s[j] != c
        invariant
            start <= j <= s@.len(),
            forall|k: int| start <= k < j ==> s@[k] != c,
        decreases s@.len() - j,
    {
        j = j + 1;
    }
    proof {
        let t = s@.skip(start as int);
        assert forall|k: int| 0 <= k < j - start implies t[k] != c by {
            assert(t[k] == s@[k + start]);
        }
        lemma_index_of_unique(t, c, j - start);
    }
    j
}

/// The lines of `s`.
pub fn split_lines(s: &[char]) -> (out: Vec<Vec<char>>)
    ensures
        views(out@) == lines(s@),
{
    let mut out: Vec<Vec<char>> = Vec::new();
    let mut pos: usize = 0;
    assert(s@.skip(0) == s@);
    while pos < s.len()
        invariant
            pos <= s@.len(),
            views(out@) + lines(s@.skip(pos as int)) == lines(s@),
        decreases s@.len() - pos,
    {
        let ghost t = s@.skip(pos as int);
        let j = index_from(s, pos, '\n');
        proof {
            lemma_index_of(t, '\n');
        }
        if j < s.len() {
            let mut end = j;
            if end > pos && s[end - 1] == '\r' {
                end = end - 1;
            }
            let line = copy_range(s, pos, end);
            proof {
                let i = j - pos;
                assert(t.take(i) == s@.subrange(pos as int, j as int));
                assert(line@ == strip_cr(t.take(i)));
                assert(t.skip(i + 1) == s@.skip(j + 1));
                assert(lines(t) == seq![strip_cr(t.take(i))] + lines(t.skip(i + 1)));
            }
            let ghost before = out@;
            out.push(line);
            assert(views(out@) == views(before).push(line@));
            pos = j + 1;
        } else {
            let line = copy_range(s, pos, s.len());
            assert(line@ == t);
            assert(lines(t) == seq![t]);
            let ghost before = out@;
            out.push(line);
            assert(views(out@) == views(before).push(line@));
            pos = s.len();
            assert(s@.skip(pos as int).len() == 0);
        }
    }
    assert(s@.skip(pos as int).len() == 0);
    assert(lines(s@.skip(pos as int)) == Seq::<Seq<char>>::empty());
    out
}


/// The pieces of `s` between occurrences of `c`.
pub fn split_char(s: &[char], c: char) -> (out: Vec<Vec<char>>)
    ensures
        views(out@) == split_on(s@, c),
{
    let mut out: Vec<Vec<char>> = Vec::new();
    let mut pos: usize = 0;
    assert(s@.skip(0) == s@);
    loop
        invariant
            pos <= s@.len(),
            views(out@) + split_on(s@.skip(pos as int), c) == split_on(s@, c),
        decreases s@.len() - pos,
    {
        let ghost t = s@.skip(pos as int);
        let j = index_from(s, pos, c);
        proof {
            lemma_index_of(t, c);
        }
        let piece = copy_range(s, pos, j);
        assert(piece@ == t.take(j - pos));
        let ghost before = out@;
        out.push(piece);
        assert(views(out@) == views(before).push(piece@));
        if j < s.len() {
            assert(t.skip(j - pos + 1) == s@.skip(j + 1));
            assert(split_on(t, c) == seq![t.take(j - pos)] + split_on(t.skip(j - pos + 1), c));
            pos = j + 1;
        } else {
            assert(t.take(j - pos) == t);
            assert(split_on(t, c) == seq![t]);
            assert(views(out@) == split_on(s@, c));
            return out;
        }
    }
}

/// The whitespace-separated words of `s`.
pub fn split_words(s: &[char]) -> (out: Vec<Vec<char>>)
    ensures
        views(out@) == words(s@),
{
    let mut out: Vec<Vec<char>> = Vec::new();
    let mut pos: usize = 0;
    assert(s@.skip(0) == s@);
    while pos < s.len()
        invariant
            pos <= s@.len(),
            views(out@) + words(s@.skip(pos as int)) == words(s@),
        decreases s@.len() - pos,
    {
        let ghost t = s@.skip(pos as int);
        if is_whitespace(s[pos]) {
            assert(t[0] == s@[pos as int]);
            assert(t.drop_first() == s@.skip(pos + 1));
            pos = pos + 1;
        } else {
            let mut j: usize = pos;
            while j < s.len() && !is_whitespace(s[j])
                invariant
                    pos <= j <= s@.len(),
                    forall|k: int| pos <= k < j ==> !is_ws(s@[k]),
                decreases s@.len() - j,
            {
                j = j + 1;
            }
            proof {
                lemma_word_len(t);
                let w = word_len(t);
                let i = j - pos;
                if w < i {
                    assert(t[w] == s@[pos + w]);
                } else if i < w {
                    assert(t[i] == s@[j as int]);
                }
                assert(w == i);
                assert(t.skip(i) == s@.skip(j as int));
                assert(t.take(i) == s@.subrange(pos as int, j as int));
            }
            let word = copy_range(s, pos, j);
            let ghost before = out@;
            out.push(word);
            assert(views(out@) == views(before).push(word@));
            pos = j;
        }
    }
    assert(s@.skip(pos as int).len() == 0);
    assert(words(s@.skip(pos as int)) == Seq::<Seq<char>>::empty());
    out
}

proof fn lemma_trim_start_skip(s: Seq<char>, i: int)
    requires
        0 <= i <= s.len(),
        forall|k: int| 0 <= k < i ==> is_ws(s[k]),
    ensures
        trim_start(s) == trim_start(s.skip(i)),
    decreases i,
{
    if i > 0 {
        assert(s.drop_first().skip(i - 1) == s.skip(i));
        lemma_trim_start_skip(s.drop_first(), i - 1);
    } else {
        assert(s.skip(0) == s);
    }
}

proof fn lemma_trim_end_take(s: Seq<char>, i: int)
    requires
        0 <= i <= s.len(),
        forall|k: int| i <= k < s.len() ==> is_ws(s[k]),
    ensures
        trim_end(s) == trim_end(s.take(i)),
    decreases s.len() - i,
{
    if i < s.len() {
        assert(s.drop_last().take(i) == s.take(i));
        lemma_trim_end_take(s.drop_last(), i);
    } else {
        assert(s.take(i) == s);
    }
}

/// `s` without leading and trailing whitespace.
pub fn trim_chars(s: &[char]) -> (out: Vec<char>)
    ensures
        out@ == trim(s@),
{
    let mut a: usize = 0;
    while a < s.len() && is_whitespace(s[a])
        invariant
            a <= s@.len(),
            forall|k: int| 0 <= k < a ==> is_ws(s@[k]),
        decreases s@.len() - a,
    {
        a = a + 1;
    }
    let mut b: usize = s.len();
    while b > a && is_whitespace(s[b - 1])
        invariant
            a <= b <= s@.len(),
            forall|k: int| b <= k < s@.len() ==> is_ws(s@[k]),
        decreases b,
    {
        b = b - 1;
    }
    proof {
        lemma_trim_start_skip(s@, a as int);
        let t = s@.skip(a as int);
        if a < s@.len() {
            assert(t[0] == s@[a as int]);
        }
        assert(trim_start(t) == t);
        lemma_trim_end_take(t, b - a);
        let u = t.take(b - a);
        if b > a {
            assert(u.last() == s@[b - 1]);
        }
        assert(trim_end(u) == u);
        assert(u == s@.subrange(a as int, b as int));
    }
    copy_range(s, a, b)
}

/// Whether the characters of `s` begin with those of `p`.
pub fn has_prefix(s: &[char], p: &[char]) -> (b: bool)
    ensures
        b == starts_with(s@, p@),
{
    if p.len() > s.len() {
        return false;
    }
    let mut k: usize = 0;
    while k < p.len()
        invariant
            p@.len() <= s@.len(),
            k <= p@.len(),
            forall|i: int| 0 <= i < k ==> s@[i] == p@[i],
        decreases p@.len() - k,
    {
        if s[k] != p[k] {
            assert(s@.take(p@.len() as int)[k as int] != p@[k as int]);
            return false;
        }
        k = k + 1;
    }
    assert(s@.take(p@.len() as int) == p@);
    true
}

/// Whether `p` occurs in `s` at index `i`.
pub fn matches_at(s: &[char], p: &[char], i: usize) -> (b: bool)
    ensures
        b == occurs_at(s@, p@, i as int),
{
    if i > s.len() || p.len() > s.len() - i {
        return false;
    }
    let mut k: usize = 0;
    while k < p.len()
        invariant
            i + p@.len() <= s@.len(),
            s@.len() == s.len(),
            k <= p@.len(),
            forall|j: int| 0 <= j < k ==> s@[i + j] == p@[j],
        decreases p@.len() - k,
    {
        if s[i + k] != p[k] {
            assert(s@.subrange(i as int, i + p@.len())[k as int] != p@[k as int]);
            return false;
        }
        k = k + 1;
    }
    assert(s@.subrange(i as int, i + p@.len()) == p@);
    true
}

/// Whether the characters of `s` end with those of `p`.
pub fn has_suffix(s: &[char], p: &[char]) -> (b: bool)
    ensures
        b == ends_with(s@, p@),
{
    if p.len() > s.len() {
        return false;
    }
    let b = matches_at(s, p, s.len() - p.len());
    assert(s@.subrange(s@.len() - p@.len(), s@.len() as int) == s@.skip(s@.len() - p@.len()));
    b
}

/// The first index where `p` occurs in `s`.
pub fn find_in(s: &[char], p: &[char]) -> (r: Option<usize>)
    ensures
        r matches Some(i) ==> find(s@, p@) == Some(i as int) && occurs_at(s@, p@, i as int),
        r is None ==> find(s@, p@) is None,
{
    if p.len() > s.len() {
        return None;
    }
    let mut i: usize = 0;
    loop
        invariant
            i <= s@.len() - p@.len(),
            find(s@, p@) == find_from(s@, p@, i as int),
        decreases s@.len() - i,
    {
        if matches_at(s, p, i) {
            return Some(i);
        }
        if i == s.len() - p.len() {
            assert(find_from(s@, p@, i + 1) is None);
            return None;
        }
        i = i + 1;
    }
}

/// Index of the last `c` in `s`.
pub fn last_index(s: &[char], c: char) -> (r: Option<usize>)
    ensures
        r matches Some(i) ==> last_index_of(s@, c) == Some(i as int) && i < s@.len(),
        r is None ==> last_index_of(s@, c) is None,
{
    let mut n: usize = s.len();
    assert(s@.take(n as int) == s@);
    while n > 0
        invariant
            n <= s@.len(),
            last_index_of(s@, c) == last_index_of(s@.take(n as int), c),
        decreases n,
    {
        let ghost t = s@.take(n as int);
        assert(t.last() == s@[n - 1]);
        if s[n - 1] == c {
            return Some(n - 1);
        }
        assert(t.drop_last() == s@.take(n - 1));
        n = n - 1;
    }
    None
}

/// ASCII lower-casing.
pub fn to_ascii_lower(s: &[char]) -> (out: Vec<char>)
    ensures
        out@ == ascii_lower(s@),
{
    let mut out: Vec<char> = Vec::new();
    let mut k: usize = 0;
    while k < s.len()
        invariant
            k <= s@.len(),
            out@ == ascii_lower(s@.take(k as int)),
        decreases s@.len() - k,
    {
        let c = s[k];
        let lc = if 'A' <= c && c <= 'Z' {
            (((c as u32) + 32) as u8) as char
        } else {
            c
        };
        out.push(lc);
        assert(ascii_lower(s@.take(k + 1)) == ascii_lower(s@.take(k as int)).push(
            ascii_lower_char(c),
        ));
        k = k + 1;
    }
    assert(s@.take(s@.len() as int) == s@);
    out
}


/// Whether `a` and `b` hold the same characters.
pub fn same_chars(a: &[char], b: &[char]) -> (r: bool)
    ensures
        r == (a@ == b@),
{
    if a.len() != b.len() {
        return false;
    }
    let mut k: usize = 0;
    while k < a.len()
        invariant
            a@.len() == b@.len(),
            k <= a@.len(),
            forall|i: int| 0 <= i < k ==> a@[i] == b@[i],
        decreases a@.len() - k,
    {
        if a[k] != b[k] {
            return false;
        }
        k = k + 1;
    }
    assert(a@ == b@);
    true
}

/// Whether the characters `a` spell `b`.
pub fn is_text(a: &[char], b: &str) -> (r: bool)
    ensures
        r == (a@ == b@),
{
    let bc = chars_of(b);
    same_chars(a, bc.as_slice())
}

/// A `String` holding `a` followed by `b`.
pub fn concat2(a: &str, b: &str) -> (out: String)
    ensures
        out@ == a@ + b@,
{
    let mut out = String::from_str(a);
    out.append(b);
    out
}

/// A `String` holding `a`, `b` and `c` in turn.
pub fn concat3(a: &str, b: &str, c: &str) -> (out: String)
    ensures
        out@ == a@ + b@ + c@,
{
    let mut out = String::from_str(a);
    out.append(b);
    out.append(c);
    out
}

/// A copy of an optional string.
pub fn clone_opt_string(o: &Option<String>) -> (r: Option<String>)
    ensures
        r == *o,
{
    match o {
        Some(s) => Some(s.clone()),
        None => None,
    }
}


/// The views of a sequence of strings.
pub open spec fn string_views(v: Seq<String>) -> Seq<Seq<char>> {
    Seq::new(v.len(), |i: int| v[i]@)
}

/// The parts joined with `sep` between each two of them, as `[String]::join`.
pub open spec fn join(parts: Seq<Seq<char>>, sep: Seq<char>) -> Seq<char>
    decreases parts.len(),
{
    if parts.len() == 0 {
        seq![]
    } else if parts.len() == 1 {
        parts[0]
    } else {
        join(parts.drop_last(), sep) + sep + parts.last()
    }
}

/// The strings of `parts` joined with `sep`.
pub fn join_strings(parts: &Vec<String>, sep: &str) -> (out: String)
    ensures
        out@ == join(string_views(parts@), sep@),
{
    let mut out = String::new();
    let mut i: usize = 0;
    while i < parts.len()
        invariant
            i <= parts@.len(),
            out@ == join(string_views(parts@.take(i as int)), sep@),
        decreases parts@.len() - i,
    {
        let ghost prev = string_views(parts@.take(i as int));
        if i > 0 {
            out.append(sep);
        }
        out.append(parts[i].as_str());
        proof {
            let next = string_views(parts@.take(i + 1));
            assert(next.drop_last() == prev);
            assert(next.last() == parts@[i as int]@);
            if i == 0 {
                assert(next.len() == 1);
            }
        }
        i = i + 1;
    }
    assert(parts@.take(parts@.len() as int) == parts@);
    out
}

/// The value of `s` as an unsigned integer no larger than `max`, as the
/// standard `FromStr` for such a type reads it.
pub fn parse_unsigned_chars(s: &[char], max: u64) -> (r: Option<u64>)
    ensures
        r matches Some(v) ==> parse_unsigned(s@, max as nat) == Some(v as nat),
        r is None ==> parse_unsigned(s@, max as nat) is None,
{
    let start: usize = if s.len() > 0 && s[0] == '+' {
        1
    } else {
        0
    };
    let ghost d = s@.skip(start as int);
    assert(d == (if s@.len() > 0 && s@[0] == '+' {
        s@.drop_first()
    } else {
        s@
    }));
    if start >= s.len() {
        return None;
    }
    let cap: u128 = (max as u128) + 1;
    let mut value: u128 = 0;
    let mut k: usize = start;
    while k < s.len()
        invariant
            start <= k <= s@.len(),
            d == s@.skip(start as int),
            d == (if s@.len() > 0 && s@[0] == '+' {
                s@.drop_first()
            } else {
                s@
            }),
            cap == max + 1,
            forall|i: int| 0 <= i < k - start ==> is_digit(#[trigger] d[i]),
            value as int == if digits_value(d.take(k - start)) <= max {
                digits_value(d.take(k - start)) as int
            } else {
                cap as int
            },
        decreases s@.len() - k,
    {
        let c = s[k];
        if c < '0' || c > '9' {
            proof {
                let i = k - start;
                assert(0 <= i < d.len());
                assert(d[i] == c);
                assert(!is_digit(d[i]));
                assert(unsigned_digits(s@) == d);
                if all_digits(d) {
                    assert(is_digit(d[i]));
                }
                assert(parse_unsigned(s@, max as nat) is None);
            }
            return None;
        }
        let digit = ((c as u32) - ('0' as u32)) as u128;
        let ghost prev = d.take(k - start);
        let ghost next = d.take(k - start + 1);
        assert(next.drop_last() == prev);
        assert(next.last() == c);
        assert(digits_value(next) == digits_value(prev) * 10 + digit);
        let candidate = value * 10 + digit;
        value = if candidate > cap {
            cap
        } else {
            candidate
        };
        k = k + 1;
    }
    assert(d.take(d.len() as int) == d);
    if value <= max as u128 {
        Some(value as u64)
    } else {
        None
    }
}

/// The decimal digit for `n` below ten.
pub open spec fn digit_char(n: nat) -> char {
    ((n + 48) as u32) as char
}

/// The decimal text of `n`, as `Display` writes an unsigned integer.
pub open spec fn decimal(n: nat) -> Seq<char>
    decreases n,
{
    if n < 10 {
        seq![digit_char(n)]
    } else {
        decimal(n / 10).push(digit_char(n % 10))
    }
}

/// The decimal text of `n`.
pub fn decimal_chars(n: u64) -> (out: Vec<char>)
    ensures
        out@ == decimal(n as nat),
    decreases n,
{
    let d = (((n % 10) as u8) + 48) as char;
    if n < 10 {
        let mut out: Vec<char> = Vec::new();
        out.push(d);
        assert(out@ == seq![digit_char(n as nat)]);
        out
    } else {
        let mut out = decimal_chars(n / 10);
        out.push(d);
        out
    }
}

/// `s` without every trailing repetition of `p`, as `str::trim_end_matches`.
pub open spec fn strip_suffixes(s: Seq<char>, p: Seq<char>) -> Seq<char>
    decreases s.len(),
{
    if p.len() > 0 && ends_with(s, p) {
        strip_suffixes(s.take(s.len() - p.len()), p)
    } else {
        s
    }
}

pub fn strip_suffixes_chars(s: &[char], p: &[char]) -> (out: Vec<char>)
    ensures
        out@ == strip_suffixes(s@, p@),
{
    let mut end: usize = s.len();
    assert(s@.take(end as int) == s@);
    if p.len() == 0 {
        return copy_range(s, 0, end);
    }
    loop
        invariant
            end <= s@.len(),
            p@.len() > 0,
            strip_suffixes(s@, p@) == strip_suffixes(s@.take(end as int), p@),
        decreases end,
    {
        let ghost t = s@.take(end as int);
        let head = copy_range(s, 0, end);
        assert(head@ == t);
        if has_suffix(head.as_slice(), p) {
            assert(t.take(t.len() - p@.len()) == s@.take(end - p@.len()));
            end = end - p.len();
        } else {
            return head;
        }
    }
}

/// `s` without every leading `c`, as `str::trim_start_matches` with a char.
pub open spec fn strip_leading(s: Seq<char>, c: char) -> Seq<char>
    decreases s.len(),
{
    if s.len() > 0 && s[0] == c {
        strip_leading(s.drop_first(), c)
    } else {
        s
    }
}

pub fn strip_leading_chars(s: &[char], c: char) -> (out: Vec<char>)
    ensures
        out@ == strip_leading(s@, c),
{
    let mut a: usize = 0;
    assert(s@.skip(0) == s@);
    while a < s.len() && s[a] == c
        invariant
            a <= s@.len(),
            strip_leading(s@, c) == strip_leading(s@.skip(a as int), c),
        decreases s@.len() - a,
    {
        assert(s@.skip(a as int).drop_first() == s@.skip(a + 1));
        a = a + 1;
    }
    assert(s@.skip(a as int) == s@.subrange(a as int, s@.len() as int));
    copy_range(s, a, s.len())
}

/// A square bracket.
pub open spec fn is_bracket(c: char) -> bool {
    c == '[' || c == ']'
}

/// `s` without square brackets at either end, as `str::trim_matches(['[', ']'])`.
pub open spec fn strip_brackets(s: Seq<char>) -> Seq<char>
    decreases s.len(),
{
    if s.len() > 0 && is_bracket(s[0]) {
        strip_brackets(s.drop_first())
    } else if s.len() > 0 && is_bracket(s.last()) {
        strip_brackets(s.drop_last())
    } else {
        s
    }
}

pub fn strip_brackets_chars(s: &[char]) -> (out: Vec<char>)
    ensures
        out@ == strip_brackets(s@),
{
    let mut a: usize = 0;
    let mut b: usize = s.len();
    assert(s@.subrange(0, s@.len() as int) == s@);
    loop
        invariant
            a <= b <= s@.len(),
            strip_brackets(s@) == strip_brackets(s@.subrange(a as int, b as int)),
        decreases b - a,
    {
        let ghost t = s@.subrange(a as int, b as int);
        if a < b && (s[a] == '[' || s[a] == ']') {
            assert(t[0] == s@[a as int]);
            assert(t.drop_first() == s@.subrange(a + 1, b as int));
            a = a + 1;
        } else if a < b && (s[b - 1] == '[' || s[b - 1] == ']') {
            assert(t.last() == s@[b - 1]);
            assert(t.drop_last() == s@.subrange(a as int, b - 1));
            b = b - 1;
        } else {
            return copy_range(s, a, b);
        }
    }
}

/// The characters of an optional string.
pub open spec fn opt_view(o: Option<String>) -> Option<Seq<char>> {
    match o {
        Some(s) => Some(s@),
        None => None,
    }
}

/// `a` comes before `b` in lexicographic order of code points, the order in
/// which Rust compares strings (UTF-8 keeps code point order).
pub open spec fn text_lt(a: Seq<char>, b: Seq<char>) -> bool
    decreases a.len(),
{
    if a.len() == 0 {
        b.len() > 0
    } else if b.len() == 0 {
        false
    } else if a[0] != b[0] {
        a[0] < b[0]
    } else {
        text_lt(a.drop_first(), b.drop_first())
    }
}

pub proof fn lemma_text_lt_irreflexive(a: Seq<char>)
    ensures
        !text_lt(a, a),
    decreases a.len(),
{
    if a.len() > 0 {
        lemma_text_lt_irreflexive(a.drop_first());
    }
}

pub proof fn lemma_text_lt_transitive(a: Seq<char>, b: Seq<char>, c: Seq<char>)
    requires
        text_lt(a, b),
        text_lt(b, c),
    ensures
        text_lt(a, c),
    decreases a.len(),
{
    if a.len() > 0 && b.len() > 0 && c.len() > 0 && a[0] == b[0] && b[0] == c[0] {
        lemma_text_lt_transitive(a.drop_first(), b.drop_first(), c.drop_first());
    }
}

pub proof fn lemma_text_lt_total(a: Seq<char>, b: Seq<char>)
    ensures
        text_lt(a, b) || text_lt(b, a) || a == b,
    decreases a.len(),
{
    if a.len() > 0 && b.len() > 0 && a[0] == b[0] {
        lemma_text_lt_total(a.drop_first(), b.drop_first());
        if a.drop_first() == b.drop_first() {
            assert forall|i: int| 0 <= i < a.len() implies a[i] == b[i] by {
                if i > 0 {
                    assert(a[i] == a.drop_first()[i - 1]);
                    assert(b[i] == b.drop_first()[i - 1]);
                }
            }
            assert(a =~= b);
        }
    } else if a.len() == 0 && b.len() == 0 {
        assert(a =~= b);
    } else if a.len() > 0 && b.len() > 0 {
        assert(a[0] != b[0]);
    }
}

pub proof fn lemma_text_lt_asymmetric(a: Seq<char>, b: Seq<char>)
    requires
        text_lt(a, b),
    ensures
        !text_lt(b, a),
{
    if text_lt(b, a) {
        lemma_text_lt_transitive(a, b, a);
        lemma_text_lt_irreflexive(a);
    }
}

/// Whether `a` comes before `b` in the order of Rust strings.
pub fn chars_lt(a: &[char], b: &[char]) -> (r: bool)
    ensures
        r == text_lt(a@, b@),
{
    let mut k: usize = 0;
    assert(a@.skip(0) == a@ && b@.skip(0) == b@);
    loop
        invariant
            k <= a@.len(),
            k <= b@.len(),
            text_lt(a@, b@) == text_lt(a@.skip(k as int), b@.skip(k as int)),
        decreases a@.len() - k,
    {
        let ghost ta = a@.skip(k as int);
        let ghost tb = b@.skip(k as int);
        if k == a.len() {
            return k < b.len();
        }
        if k == b.len() {
            return false;
        }
        assert(ta[0] == a@[k as int] && tb[0] == b@[k as int]);
        if a[k] != b[k] {
            return a[k] < b[k];
        }
        assert(ta.drop_first() == a@.skip(k + 1));
        assert(tb.drop_first() == b@.skip(k + 1));
        k = k + 1;
    }
}


/// Why the standard `FromStr` for an unsigned integer type refuses a text.
#[derive(Debug, Clone, Copy, PartialEq, Eq, Structural)]
pub enum ParseIntFailure {
    /// The text is empty.
    Empty,
    /// A character is not a decimal digit (or there is no digit after `'+'`).
    InvalidDigit,
    /// The value is above the type's largest value.
    TooLarge,
}

impl ParseIntFailure {
    /// The message the standard library's `ParseIntError` displays.
    pub open spec fn message(self) -> Seq<char> {
        match self {
            ParseIntFailure::Empty => "cannot parse integer from empty string"@,
            ParseIntFailure::InvalidDigit => "invalid digit found in string"@,
            ParseIntFailure::TooLarge => "number too large to fit in target type"@,
        }
    }

    pub fn describe(self) -> (s: String)
        ensures
            s@ == self.message(),
    {
        match self {
            ParseIntFailure::Empty => String::from_str("cannot parse integer from empty string"),
            ParseIntFailure::InvalidDigit => String::from_str("invalid digit found in string"),
            ParseIntFailure::TooLarge => String::from_str("number too large to fit in target type"),
        }
    }
}

/// Some leading run of digits of `d` is worth more than `max`: reading left
/// to right, the value overflows before any character that is not a digit.
pub open spec fn prefix_too_large(d: Seq<char>, max: nat) -> bool {
    exists|j: int| 0 < j <= d.len() && all_digits(#[trigger] d.take(j)) && digits_value(d.take(j)) > max
}

/// Why `FromStr` for an unsigned type whose largest value is `max` refuses
/// `s`, or `None` when it reads `s`. The first failure from the left wins.
pub open spec fn parse_failure(s: Seq<char>, max: nat) -> Option<ParseIntFailure> {
    let d = unsigned_digits(s);
    if s.len() == 0 {
        Some(ParseIntFailure::Empty)
    } else if prefix_too_large(d, max) {
        Some(ParseIntFailure::TooLarge)
    } else if d.len() == 0 || !all_digits(d) {
        Some(ParseIntFailure::InvalidDigit)
    } else {
        None
    }
}

/// A longer run of digits is worth at least as much as its prefixes.
proof fn lemma_digits_value_prefix(d: Seq<char>, j: int)
    requires
        all_digits(d),
        0 <= j <= d.len(),
    ensures
        digits_value(d.take(j)) <= digits_value(d),
        all_digits(d.take(j)),
    decreases d.len(),
{
    if j < d.len() {
        let rest = d.drop_last();
        assert(rest.take(j) == d.take(j));
        assert(all_digits(rest));
        lemma_digits_value_prefix(rest, j);
    } else {
        assert(d.take(j) == d);
    }
}

/// `s` read as an unsigned integer no larger than `max`, or why it cannot be,
/// as the standard `FromStr` reports it.
pub fn parse_unsigned_checked(s: &[char], max: u64) -> (r: Result<u64, ParseIntFailure>)
    ensures
        match r {
            Ok(v) => parse_failure(s@, max as nat) is None && parse_unsigned(s@, max as nat) == Some(
                v as nat,
            ),
            Err(f) => parse_failure(s@, max as nat) == Some(f) && parse_unsigned(s@, max as nat) is None,
        },
{
    if s.len() == 0 {
        return Err(ParseIntFailure::Empty);
    }
    let start: usize = if s[0] == '+' {
        1
    } else {
        0
    };
    let ghost d = s@.skip(start as int);
    assert(d == unsigned_digits(s@));
    if start >= s.len() {
        proof {
            assert(d.len() == 0);
            assert forall|j: int| 0 < j <= d.len() implies !(all_digits(#[trigger] d.take(j))
                && digits_value(d.take(j)) > max) by {}
        }
        return Err(ParseIntFailure::InvalidDigit);
    }
    let mut value: u64 = 0;
    let mut k: usize = start;
    while k < s.len()
        invariant
            start <= k <= s@.len(),
            0 < s@.len(),
            d == s@.skip(start as int),
            d == unsigned_digits(s@),
            all_digits(d.take(k - start)),
            value as nat == digits_value(d.take(k - start)),
            value <= max,
        decreases s@.len() - k,
    {
        let c = s[k];
        let ghost i = k - start;
        if c < '0' || c > '9' {
            proof {
                assert(d[i] == c);
                assert forall|j: int| 0 < j <= d.len() implies !(all_digits(#[trigger] d.take(j))
                    && digits_value(d.take(j)) > max) by {
                    if all_digits(d.take(j)) {
                        if j > i {
                            assert(d.take(j)[i] == d[i]);
                        }
                        assert(d.take(j) == d.take(i).take(j));
                        lemma_digits_value_prefix(d.take(i), j);
                    }
                }
                assert(!is_digit(d[i]));
                if all_digits(d) {
                    assert(is_digit(d[i]));
                }
            }
            return Err(ParseIntFailure::InvalidDigit);
        }
        let digit = ((c as u32) - ('0' as u32)) as u64;
        let ghost prev = d.take(i);
        let ghost next = d.take(i + 1);
        assert(next.drop_last() == prev);
        assert(next.last() == c);
        assert(digits_value(next) == digits_value(prev) * 10 + digit);
        assert(all_digits(next)) by {
            assert forall|m: int| 0 <= m < next.len() implies is_digit(#[trigger] next[m]) by {
                if m < i {
                    assert(next[m] == prev[m]);
                }
            }
        }
        let candidate: u128 = (value as u128) * 10 + (digit as u128);
        if candidate > max as u128 {
            proof {
                assert(0 < i + 1 <= d.len());
                assert(all_digits(d.take(i + 1)) && digits_value(d.take(i + 1)) > max);
                if all_digits(d) {
                    lemma_digits_value_prefix(d, i + 1);
                }
            }
            return Err(ParseIntFailure::TooLarge);
        }
        value = candidate as u64;
        k = k + 1;
    }
    proof {
        assert(d.take(d.len() as int) == d);
        assert forall|j: int| 0 < j <= d.len() implies !(all_digits(#[trigger] d.take(j))
            && digits_value(d.take(j)) > max) by {
            lemma_digits_value_prefix(d, j);
        }
    }
    Ok(value)
}


} // verus!
