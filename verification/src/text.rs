//! Text as sequences of characters: the small vocabulary of cutting, trimming and
//! searching that the theme readers and writers are built from.
//!
//! Every executable function works on `Vec<char>` and is specified by a spec
//! function on `Seq<char>` of a similar name.

use vstd::prelude::*;

verus! {

/// White space: the code points that Unicode classes as `White_Space`.
pub open spec fn blank(c: char) -> bool {
    let n = c as u32;
    ||| 0x09 <= n <= 0x0d
    ||| n == 0x20
    ||| n == 0x85
    ||| n == 0xa0
    ||| n == 0x1680
    ||| 0x2000 <= n <= 0x200a
    ||| n == 0x2028
    ||| n == 0x2029
    ||| n == 0x202f
    ||| n == 0x205f
    ||| n == 0x3000
}

/// What is peeled off the ends of a raw value: white space, double quotes and the
/// separator itself.
pub open spec fn wrapping(c: char) -> bool {
    c == '"' || c == ':' || blank(c)
}

/// The set of characters that a trim removes: white space alone, or white space
/// together with quotes and separators.
pub open spec fn margin(quoted: bool) -> spec_fn(char) -> bool {
    |c: char| if quoted { wrapping(c) } else { blank(c) }
}

pub fn is_blank(c: char) -> (r: bool)
    ensures
        r == blank(c),
{
    let n: u32 = c as u32;
    (0x09 <= n && n <= 0x0d) || n == 0x20 || n == 0x85 || n == 0xa0 || n == 0x1680 || (0x2000 <= n
        && n <= 0x200a) || n == 0x2028 || n == 0x2029 || n == 0x202f || n == 0x205f || n == 0x3000
}

pub fn in_margin(c: char, quoted: bool) -> (r: bool)
    ensures
        r == margin(quoted)(c),
{
    if quoted {
        c == '"' || c == ':' || is_blank(c)
    } else {
        is_blank(c)
    }
}

/// `s` without its longest prefix of characters in `strip`.
pub open spec fn without_prefix(s: Seq<char>, strip: spec_fn(char) -> bool) -> Seq<char>
    decreases s.len(),
{
    if s.len() > 0 && strip(s[0]) {
        without_prefix(s.drop_first(), strip)
    } else {
        s
    }
}

/// `s` without its longest suffix of characters in `strip`.
pub open spec fn without_suffix(s: Seq<char>, strip: spec_fn(char) -> bool) -> Seq<char>
    decreases s.len(),
{
    if s.len() > 0 && strip(s.last()) {
        without_suffix(s.drop_last(), strip)
    } else {
        s
    }
}

/// `s` with the characters in `strip` removed from both ends.
pub open spec fn trimmed_by(s: Seq<char>, strip: spec_fn(char) -> bool) -> Seq<char> {
    without_suffix(without_prefix(s, strip), strip)
}

/// `s` with white space removed from both ends.
pub open spec fn trimmed(s: Seq<char>) -> Seq<char> {
    trimmed_by(s, margin(false))
}

/// A prefix made of characters in `strip`, followed by one that is not, is exactly
/// what `without_prefix` removes.
pub proof fn lemma_without_prefix(s: Seq<char>, strip: spec_fn(char) -> bool, k: int)
    requires
        0 <= k <= s.len(),
        forall|j: int| 0 <= j < k ==> strip(#[trigger] s[j]),
        k < s.len() ==> !strip(s[k]),
    ensures
        without_prefix(s, strip) == s.skip(k),
    decreases k,
{
    if k == 0 {
        assert(s.skip(0) =~= s);
    } else {
        let t = s.drop_first();
        assert forall|j: int| 0 <= j < k - 1 implies strip(#[trigger] t[j]) by {
            assert(t[j] == s[j + 1]);
        }
        lemma_without_prefix(t, strip, k - 1);
        assert(t.skip(k - 1) =~= s.skip(k));
    }
}

/// A suffix made of characters in `strip`, preceded by one that is not, is exactly
/// what `without_suffix` removes.
pub proof fn lemma_without_suffix(s: Seq<char>, strip: spec_fn(char) -> bool, k: int)
    requires
        0 <= k <= s.len(),
        forall|j: int| k <= j < s.len() ==> strip(#[trigger] s[j]),
        k > 0 ==> !strip(s[k - 1]),
    ensures
        without_suffix(s, strip) == s.take(k),
    decreases s.len() - k,
{
    if k == s.len() {
        assert(s.take(k) =~= s);
    } else {
        let t = s.drop_last();
        lemma_without_suffix(t, strip, k);
        assert(t.take(k) =~= s.take(k));
    }
}

/// The characters of `v` from `from` up to `to`.
pub fn slice(v: &Vec<char>, from: usize, to: usize) -> (r: Vec<char>)
    requires
        from <= to <= v.len(),
    ensures
        r@ == v@.subrange(from as int, to as int),
{
    let mut r: Vec<char> = Vec::new();
    let mut i: usize = from;
    while i < to
        invariant
            from <= i <= to <= v.len(),
            r@ == v@.subrange(from as int, i as int),
        decreases to - i,
    {
        r.push(v[i]);
        i += 1;
        assert(v@.subrange(from as int, i as int) =~= v@.subrange(from as int, i - 1).push(
            v@[i - 1],
        ));
    }
    r
}

/// Removes the characters of the chosen margin from both ends of `v`.
pub fn trim_by(v: &Vec<char>, quoted: bool) -> (r: Vec<char>)
    ensures
        r@ == trimmed_by(v@, margin(quoted)),
{
    let mut from: usize = 0;
    while from < v.len() && in_margin(v[from], quoted)
        invariant
            from <= v.len(),
            forall|j: int| 0 <= j < from ==> margin(quoted)(#[trigger] v@[j]),
        decreases v.len() - from,
    {
        from += 1;
    }
    let mut to: usize = v.len();
    while to > from && in_margin(v[to - 1], quoted)
        invariant
            from <= to <= v.len(),
            forall|j: int| to <= j < v.len() ==> margin(quoted)(#[trigger] v@[j]),
        decreases to,
    {
        to -= 1;
    }
    proof {
        let strip = margin(quoted);
        lemma_without_prefix(v@, strip, from as int);
        let rest = v@.skip(from as int);
        assert forall|j: int| to - from <= j < rest.len() implies strip(#[trigger] rest[j]) by {
            assert(rest[j] == v@[j + from]);
        }
        lemma_without_suffix(rest, strip, to - from);
        assert(rest.take(to - from) =~= v@.subrange(from as int, to as int));
    }
    slice(v, from, to)
}

/// Removes white space from both ends of `v`.
pub fn trim(v: &Vec<char>) -> (r: Vec<char>)
    ensures
        r@ == trimmed(v@),
{
    trim_by(v, false)
}

/// The index of the first `x` in `s`, or the length of `s` where there is none.
pub open spec fn position<A>(s: Seq<A>, x: A) -> int
    decreases s.len(),
{
    if s.len() == 0 || s[0] == x {
        0
    } else {
        1 + position(s.drop_first(), x)
    }
}

/// `position` is the least index that holds `x`, and never lies past the end.
pub proof fn lemma_position<A>(s: Seq<A>, x: A)
    ensures
        0 <= position(s, x) <= s.len(),
        position(s, x) < s.len() ==> s[position(s, x)] == x,
        forall|j: int| 0 <= j < position(s, x) ==> #[trigger] s[j] != x,
    decreases s.len(),
{
    if s.len() == 0 || s[0] == x {
    } else {
        let t = s.drop_first();
        lemma_position(t, x);
        assert forall|j: int| 0 <= j < position(s, x) implies #[trigger] s[j] != x by {
            if j > 0 {
                assert(s[j] == t[j - 1]);
            }
        }
    }
}

/// Any index that holds the first `x` is `position`.
pub proof fn lemma_position_is<A>(s: Seq<A>, x: A, k: int)
    requires
        0 <= k <= s.len(),
        forall|j: int| 0 <= j < k ==> #[trigger] s[j] != x,
        k < s.len() ==> s[k] == x,
    ensures
        position(s, x) == k,
{
    lemma_position(s, x);
    let p = position(s, x);
    if p < k {
        assert(s[p] != x);
    } else if k < p {
        assert(s[k] != x);
    }
}

/// The index of the first `c` at or after `from`, or the length of `v`.
pub fn find_from(v: &Vec<char>, c: char, from: usize) -> (r: usize)
    requires
        from <= v.len(),
    ensures
        r == from + position(v@.skip(from as int), c),
        from <= r <= v.len(),
{
    let mut i: usize = from;
    while i < v.len() && v[i] != c
        invariant
            from <= i <= v.len(),
            forall|j: int| from <= j < i ==> #[trigger] v@[j] != c,
        decreases v.len() - i,
    {
        i += 1;
    }
    proof {
        let rest = v@.skip(from as int);
        assert forall|j: int| 0 <= j < i - from implies #[trigger] rest[j] != c by {
            assert(rest[j] == v@[j + from]);
        }
        lemma_position_is(rest, c, i - from);
    }
    i
}

/// The index of the first `c` in `v`, or the length of `v`.
pub fn find(v: &Vec<char>, c: char) -> (r: usize)
    ensures
        r == position(v@, c),
        r <= v.len(),
{
    assert(v@.skip(0) =~= v@);
    find_from(v, c, 0)
}

/// The lines of `s`: the pieces between its line feeds. A text without a line
/// feed is one line; a text that ends in a line feed has an empty last line.
pub open spec fn lines_of(s: Seq<char>) -> Seq<Seq<char>>
    decreases s.len(),
{
    let n = position(s, '\n');
    if 0 <= n < s.len() {
        seq![s.take(n)] + lines_of(s.skip(n + 1))
    } else {
        seq![s]
    }
}

/// The views of a vector of character vectors.
pub open spec fn views(v: Seq<Vec<char>>) -> Seq<Seq<char>> {
    v.map_values(|x: Vec<char>| x@)
}

/// Cuts `v` at its line feeds.
pub fn split_lines(v: &Vec<char>) -> (r: Vec<Vec<char>>)
    ensures
        views(r@) == lines_of(v@),
{
    let mut r: Vec<Vec<char>> = Vec::new();
    let mut start: usize = 0;
    assert(v@.skip(0) =~= v@);
    loop
        invariant
            start <= v.len(),
            views(r@) + lines_of(v@.skip(start as int)) == lines_of(v@),
        decreases v.len() - start,
    {
        let end = find_from(v, '\n', start);
        let ghost rest = v@.skip(start as int);
        let ghost before = views(r@);
        r.push(slice(v, start, end));
        proof {
            assert(rest.take(end - start) =~= v@.subrange(start as int, end as int));
            assert(views(r@) =~= before.push(v@.subrange(start as int, end as int)));
        }
        if end >= v.len() {
            proof {
                assert(rest.take(end - start) =~= rest);
                assert(lines_of(rest) == seq![rest]);
                assert(before + seq![rest] =~= before.push(rest));
            }
            return r;
        }
        proof {
            assert(rest.skip(end - start + 1) =~= v@.skip(end + 1));
            assert(before + (seq![rest.take(end - start)] + lines_of(v@.skip(end + 1)))
                =~= before.push(rest.take(end - start)) + lines_of(v@.skip(end + 1)));
        }
        start = end + 1;
    }
}

/// The number of characters at the start of `s` that are not white space.
pub open spec fn word_len(s: Seq<char>) -> nat
    decreases s.len(),
{
    if s.len() == 0 || blank(s[0]) {
        0
    } else {
        1 + word_len(s.drop_first())
    }
}

/// A word never runs past the end of the text it starts.
pub proof fn lemma_word_len(s: Seq<char>)
    ensures
        word_len(s) <= s.len(),
        word_len(s) < s.len() ==> blank(s[word_len(s) as int]),
        forall|j: int| 0 <= j < word_len(s) ==> !blank(#[trigger] s[j]),
        s.len() > 0 && !blank(s[0]) ==> word_len(s) >= 1,
    decreases s.len(),
{
    if s.len() == 0 || blank(s[0]) {
    } else {
        let t = s.drop_first();
        lemma_word_len(t);
        assert forall|j: int| 0 <= j < word_len(s) implies !blank(#[trigger] s[j]) by {
            if j > 0 {
                assert(s[j] == t[j - 1]);
            }
        }
    }
}

/// Any run of characters that are not white space, ended by white space or by
/// the end of the text, is the first word.
pub proof fn lemma_word_len_is(s: Seq<char>, k: int)
    requires
        0 <= k <= s.len(),
        forall|j: int| 0 <= j < k ==> !blank(#[trigger] s[j]),
        k < s.len() ==> blank(s[k]),
    ensures
        word_len(s) == k,
{
    lemma_word_len(s);
    let n = word_len(s) as int;
    if n < k {
        assert(!blank(s[n]));
    } else if k < n {
        assert(blank(s[k]));
    }
}

/// The words of `s`: its maximal runs of characters that are not white space,
/// in order.
pub open spec fn words_of(s: Seq<char>) -> Seq<Seq<char>>
    decreases s.len(),
    via words_of_decreases
{
    if s.len() == 0 {
        seq![]
    } else if blank(s[0]) {
        words_of(s.drop_first())
    } else {
        seq![s.take(word_len(s) as int)] + words_of(s.skip(word_len(s) as int))
    }
}

#[via_fn]
proof fn words_of_decreases(s: Seq<char>) {
    lemma_word_len(s);
}

/// Cuts `v` at its white space and keeps the pieces that are not empty.
pub fn split_words(v: &Vec<char>) -> (r: Vec<Vec<char>>)
    ensures
        views(r@) == words_of(v@),
{
    let mut r: Vec<Vec<char>> = Vec::new();
    let mut i: usize = 0;
    assert(v@.skip(0) =~= v@);
    assert(views(r@) + words_of(v@) =~= words_of(v@));
    while i < v.len()
        invariant
            i <= v.len(),
            views(r@) + words_of(v@.skip(i as int)) == words_of(v@),
        decreases v.len() - i,
    {
        let ghost rest = v@.skip(i as int);
        if is_blank(v[i]) {
            proof {
                assert(rest.drop_first() =~= v@.skip(i + 1));
            }
            i += 1;
        } else {
            let mut end: usize = i + 1;
            while end < v.len() && !is_blank(v[end])
                invariant
                    i < end <= v.len(),
                    forall|j: int| i <= j < end ==> !blank(#[trigger] v@[j]),
                decreases v.len() - end,
            {
                end += 1;
            }
            let ghost before = views(r@);
            r.push(slice(v, i, end));
            proof {
                assert forall|j: int| 0 <= j < end - i implies !blank(#[trigger] rest[j]) by {
                    assert(rest[j] == v@[j + i]);
                }
                lemma_word_len_is(rest, end - i);
                assert(rest.take(end - i) =~= v@.subrange(i as int, end as int));
                assert(rest.skip(end - i) =~= v@.skip(end as int));
                assert(views(r@) =~= before.push(rest.take(end - i)));
                assert(before + (seq![rest.take(end - i)] + words_of(v@.skip(end as int)))
                    =~= before.push(rest.take(end - i)) + words_of(v@.skip(end as int)));
            }
            i = end;
        }
    }
    proof {
        assert(views(r@) + words_of(v@.skip(i as int)) =~= views(r@));
    }
    r
}

/// The characters other than `c`.
pub open spec fn other_than(c: char) -> spec_fn(char) -> bool {
    |x: char| x != c
}

/// `s` with every `c` taken out.
pub open spec fn without_char(s: Seq<char>, c: char) -> Seq<char> {
    s.filter(other_than(c))
}

/// Takes every `c` out of `v`.
pub fn remove_char(v: &Vec<char>, c: char) -> (r: Vec<char>)
    ensures
        r@ == without_char(v@, c),
{
    let mut r: Vec<char> = Vec::new();
    let mut i: usize = 0;
    let ghost keep = other_than(c);
    proof {
        reveal(Seq::filter);
        assert(v@.take(0) =~= Seq::<char>::empty());
    }
    while i < v.len()
        invariant
            i <= v.len(),
            keep == other_than(c),
            r@ == v@.take(i as int).filter(keep),
        decreases v.len() - i,
    {
        proof {
            reveal(Seq::filter);
            assert(v@.take(i + 1).drop_last() =~= v@.take(i as int));
        }
        if v[i] != c {
            r.push(v[i]);
        }
        i += 1;
    }
    assert(v@.take(i as int) =~= v@);
    r
}

/// Whether `p` stands in `s` at index `i`.
pub open spec fn occurs_at(s: Seq<char>, p: Seq<char>, i: int) -> bool {
    0 <= i && i + p.len() <= s.len() && s.subrange(i, i + p.len()) == p
}

/// Whether `p` stands somewhere in `s`.
pub open spec fn occurs(s: Seq<char>, p: Seq<char>) -> bool {
    exists|i: int| occurs_at(s, p, i)
}

/// Whether `s` starts with `p`.
pub open spec fn begins_with(s: Seq<char>, p: Seq<char>) -> bool {
    occurs_at(s, p, 0)
}

/// Whether `p` stands in `v` at index `i`.
pub fn matches_at(v: &Vec<char>, p: &Vec<char>, i: usize) -> (r: bool)
    ensures
        r == occurs_at(v@, p@, i as int),
{
    if p.len() > v.len() || i > v.len() - p.len() {
        return false;
    }
    let mut k: usize = 0;
    while k < p.len()
        invariant
            k <= p.len(),
            i + p.len() <= v.len(),
            forall|j: int| 0 <= j < k ==> v@[i + j] == #[trigger] p@[j],
        decreases p.len() - k,
    {
        if v[i + k] != p[k] {
            proof {
                let part = v@.subrange(i as int, i + p.len());
                assert(part[k as int] == v@[i + k]);
            }
            return false;
        }
        k += 1;
    }
    assert(v@.subrange(i as int, i + p.len()) =~= p@);
    true
}

/// Whether `p` stands somewhere in `v`.
pub fn contains(v: &Vec<char>, p: &Vec<char>) -> (r: bool)
    ensures
        r == occurs(v@, p@),
{
    if p.len() > v.len() {
        return false;
    }
    let last: usize = v.len() - p.len();
    let mut i: usize = 0;
    while i < last
        invariant
            i <= last,
            last == v.len() - p.len(),
            forall|j: int| 0 <= j < i ==> !occurs_at(v@, p@, j),
        decreases last - i,
    {
        if matches_at(v, p, i) {
            return true;
        }
        i += 1;
    }
    matches_at(v, p, last)
}

/// Whether `v` starts with `p`.
pub fn starts_with(v: &Vec<char>, p: &Vec<char>) -> (r: bool)
    ensures
        r == begins_with(v@, p@),
{
    matches_at(v, p, 0)
}

/// Whether `a` and `b` hold the same characters.
pub fn same(a: &Vec<char>, b: &Vec<char>) -> (r: bool)
    ensures
        r == (a@ == b@),
{
    if a.len() != b.len() {
        return false;
    }
    let r = matches_at(a, b, 0);
    assert(a@.subrange(0, a.len() as int) =~= a@);
    r
}

/// The character that writes the digit `d`.
pub open spec fn digit(d: nat) -> char
    recommends
        d < 10,
{
    (0x30 + d) as char
}

/// `n` written in base ten, without leading zeros.
pub open spec fn decimal(n: nat) -> Seq<char>
    decreases n,
{
    if n < 10 {
        seq![digit(n)]
    } else {
        decimal(n / 10).push(digit(n % 10))
    }
}

/// The number that a sequence of digits writes in base ten.
pub open spec fn decimal_value(s: Seq<char>) -> nat
    decreases s.len(),
{
    if s.len() == 0 {
        0
    } else {
        (10 * decimal_value(s.drop_last()) + (s.last() as nat - 0x30)) as nat
    }
}

/// Reading back what `decimal` wrote gives the number again.
pub proof fn lemma_decimal_value(n: nat)
    ensures
        decimal_value(decimal(n)) == n,
        decimal(n).len() >= 1,
    decreases n,
{
    if n < 10 {
        let s = seq![digit(n)];
        assert(s.drop_last() =~= Seq::<char>::empty());
        assert(s.last() == digit(n));
        assert(decimal_value(s.drop_last()) == 0);
    } else {
        lemma_decimal_value(n / 10);
        let s = decimal(n / 10).push(digit(n % 10));
        assert(s.drop_last() =~= decimal(n / 10));
        assert(s.last() == digit(n % 10));
    }
}

/// Two numbers are written alike only if they are equal.
pub proof fn lemma_decimal_injective(a: nat, b: nat)
    requires
        decimal(a) == decimal(b),
    ensures
        a == b,
{
    lemma_decimal_value(a);
    lemma_decimal_value(b);
}

/// Every character of a number written in base ten is a digit.
pub proof fn lemma_decimal_digits(n: nat)
    ensures
        forall|j: int| 0 <= j < decimal(n).len() ==> '0' <= #[trigger] decimal(n)[j] <= '9',
    decreases n,
{
    if n >= 10 {
        lemma_decimal_digits(n / 10);
        let head = decimal(n / 10);
        assert forall|j: int| 0 <= j < decimal(n).len() implies '0' <= #[trigger] decimal(n)[j]
            <= '9' by {
            if j < head.len() {
                assert(decimal(n)[j] == head[j]);
            } else {
                assert(decimal(n)[j] == digit(n % 10));
            }
        }
    } else {
        assert(decimal(n)[0] == digit(n));
    }
}

/// Writes `n` in base ten.
pub fn to_decimal(n: usize) -> (r: Vec<char>)
    ensures
        r@ == decimal(n as nat),
    decreases n,
{
    if n < 10 {
        let d: u8 = n as u8;
        vec![(0x30u8 + d) as char]
    } else {
        let mut r = to_decimal(n / 10);
        let d: u8 = (n % 10) as u8;
        r.push((0x30u8 + d) as char);
        r
    }
}

/// The characters of `s`.
pub fn chars_of(s: &str) -> (v: Vec<char>)
    ensures
        v@ == s@,
{
    let mut v: Vec<char> = Vec::new();
    for c in it: s.chars()
        invariant
            v@ == it.seq().take(it.index() as int),
            it.seq() == s@,
    {
        v.push(c);
    }
    v
}

/// The string made of the characters of `v`.
pub fn string_of(v: &Vec<char>) -> (s: String)
    ensures
        s@ == v@,
{
    let mut s = String::new();
    let mut i: usize = 0;
    while i < v.len()
        invariant
            i <= v.len(),
            s@ == v@.take(i as int),
        decreases v.len() - i,
    {
        s.push(v[i]);
        i += 1;
        assert(v@.take(i as int) =~= v@.take(i - 1).push(v@[i - 1]));
    }
    assert(v@.take(i as int) =~= v@);
    s
}

/// Whether `v` holds exactly the characters of `word`.
pub fn is_word(v: &Vec<char>, word: &str) -> (r: bool)
    ensures
        r == (v@ == word@),
{
    let w = chars_of(word);
    same(v, &w)
}

/// Whether `v` starts with `word`.
pub fn starts_with_word(v: &Vec<char>, word: &str) -> (r: bool)
    ensures
        r == begins_with(v@, word@),
{
    let w = chars_of(word);
    starts_with(v, &w)
}

/// Whether `word` stands somewhere in `v`.
pub fn contains_word(v: &Vec<char>, word: &str) -> (r: bool)
    ensures
        r == occurs(v@, word@),
{
    let w = chars_of(word);
    contains(v, &w)
}

/// A string of its own with the characters of `s`.
pub fn owned(s: &str) -> (r: String)
    ensures
        r@ == s@,
{
    s.to_owned()
}

/// The part of `s` after its last `c`: all of `s` where it holds no `c`.
pub open spec fn after_last(s: Seq<char>, c: char) -> Seq<char>
    decreases s.len(),
{
    if s.len() == 0 || s.last() == c {
        Seq::empty()
    } else {
        after_last(s.drop_last(), c).push(s.last())
    }
}

/// A suffix free of `c` that starts the text or follows a `c` is `after_last`.
pub proof fn lemma_after_last(s: Seq<char>, c: char, k: int)
    requires
        0 <= k <= s.len(),
        forall|j: int| k <= j < s.len() ==> #[trigger] s[j] != c,
        k > 0 ==> s[k - 1] == c,
    ensures
        after_last(s, c) == s.skip(k),
    decreases s.len() - k,
{
    if k == s.len() {
        assert(s.skip(k) =~= Seq::<char>::empty());
    } else {
        lemma_after_last(s.drop_last(), c, k);
        assert(s.drop_last().skip(k).push(s.last()) =~= s.skip(k));
    }
}

/// The part of `v` after its last `c`.
pub fn tail_after(v: &Vec<char>, c: char) -> (r: Vec<char>)
    ensures
        r@ == after_last(v@, c),
{
    let mut k: usize = v.len();
    while k > 0 && v[k - 1] != c
        invariant
            k <= v.len(),
            forall|j: int| k <= j < v.len() ==> #[trigger] v@[j] != c,
        decreases k,
    {
        k -= 1;
    }
    proof {
        lemma_after_last(v@, c, k as int);
        assert(v@.skip(k as int) =~= v@.subrange(k as int, v@.len() as int));
    }
    slice(v, k, v.len())
}

/// `lines` written one after the other, with a line feed between one line and
/// the next.
pub open spec fn joined(lines: Seq<Seq<char>>) -> Seq<char>
    decreases lines.len(),
{
    if lines.len() == 0 {
        Seq::empty()
    } else if lines.len() == 1 {
        lines[0]
    } else {
        joined(lines.drop_last()) + seq!['\n'] + lines.last()
    }
}

/// Whether `s` holds no line feed.
pub open spec fn is_one_line(s: Seq<char>) -> bool {
    forall|j: int| 0 <= j < s.len() ==> #[trigger] s[j] != '\n'
}

/// A text of one line is its own only line.
pub proof fn lemma_lines_of_one_line(s: Seq<char>)
    requires
        is_one_line(s),
    ensures
        lines_of(s) == seq![s],
{
    lemma_position_is(s, '\n', s.len() as int);
}

/// A line put behind a text, after a line feed, is a line more.
pub proof fn lemma_lines_of_append(before: Seq<char>, line: Seq<char>)
    requires
        is_one_line(line),
    ensures
        lines_of(before + seq!['\n'] + line) == lines_of(before).push(line),
    decreases before.len(),
{
    let whole = before + seq!['\n'] + line;
    let n = position(before, '\n');
    lemma_position(before, '\n');
    assert forall|j: int| 0 <= j < n implies #[trigger] whole[j] != '\n' by {
        assert(whole[j] == before[j]);
    }
    if n < before.len() {
        assert(whole[n] == before[n]);
        lemma_position_is(whole, '\n', n);
        let rest = before.skip(n + 1);
        assert(whole.skip(n + 1) =~= rest + seq!['\n'] + line);
        assert(whole.take(n) =~= before.take(n));
        lemma_lines_of_append(rest, line);
        assert(seq![before.take(n)] + lines_of(rest).push(line) =~= (seq![before.take(n)]
            + lines_of(rest)).push(line));
    } else {
        assert(whole[n] == '\n');
        lemma_position_is(whole, '\n', n);
        assert(whole.take(n) =~= before);
        assert(whole.skip(n + 1) =~= line);
        lemma_lines_of_one_line(line);
        assert(seq![before] + seq![line] =~= seq![before].push(line));
    }
}

/// Lines that hold no line feed are read back from their joined text as they
/// were.
pub proof fn lemma_lines_of_joined(lines: Seq<Seq<char>>)
    requires
        lines.len() >= 1,
        forall|i: int| 0 <= i < lines.len() ==> is_one_line(#[trigger] lines[i]),
    ensures
        lines_of(joined(lines)) == lines,
    decreases lines.len(),
{
    if lines.len() == 1 {
        lemma_lines_of_one_line(lines[0]);
        assert(seq![lines[0]] =~= lines);
    } else {
        let before = lines.drop_last();
        assert forall|i: int| 0 <= i < before.len() implies is_one_line(#[trigger] before[i]) by {
            assert(before[i] == lines[i]);
        }
        lemma_lines_of_joined(before);
        lemma_lines_of_append(joined(before), lines.last());
        assert(before.push(lines.last()) =~= lines);
    }
}

/// The joined text of two or more lines is the first line, a line feed, and the
/// joined text of the others.
pub proof fn lemma_joined_front(lines: Seq<Seq<char>>)
    requires
        lines.len() >= 2,
    ensures
        joined(lines) == lines[0] + seq!['\n'] + joined(lines.skip(1)),
    decreases lines.len(),
{
    if lines.len() == 2 {
        assert(joined(lines.drop_last()) == lines[0]);
        assert(joined(lines.skip(1)) == lines[1]);
    } else {
        lemma_joined_front(lines.drop_last());
        assert(lines.drop_last().skip(1) =~= lines.skip(1).drop_last());
        assert(joined(lines) =~= lines[0] + seq!['\n'] + joined(lines.skip(1)));
    }
}

/// A text that starts and ends with a character that is no white space, put
/// between two runs of white space, is what trimming leaves.
pub proof fn lemma_trimmed_padded(front: Seq<char>, core: Seq<char>, back: Seq<char>)
    requires
        forall|j: int| 0 <= j < front.len() ==> blank(#[trigger] front[j]),
        forall|j: int| 0 <= j < back.len() ==> blank(#[trigger] back[j]),
        core.len() > 0,
        !blank(core[0]),
        !blank(core.last()),
    ensures
        trimmed(front + core + back) == core,
{
    let whole = front + core + back;
    let strip = margin(false);
    assert forall|j: int| 0 <= j < front.len() implies strip(#[trigger] whole[j]) by {
        assert(whole[j] == front[j]);
    }
    assert(whole[front.len() as int] == core[0]);
    lemma_without_prefix(whole, strip, front.len() as int);
    let rest = whole.skip(front.len() as int);
    assert(rest =~= core + back);
    assert forall|j: int| core.len() <= j < rest.len() implies strip(#[trigger] rest[j]) by {
        assert(rest[j] == back[j - core.len()]);
    }
    assert(rest[core.len() - 1] == core.last());
    lemma_without_suffix(rest, strip, core.len() as int);
    assert(rest.take(core.len() as int) =~= core);
}

/// Taking `c` out of a text that does not hold it changes nothing.
pub proof fn lemma_without_absent_char(s: Seq<char>, c: char)
    requires
        forall|j: int| 0 <= j < s.len() ==> #[trigger] s[j] != c,
    ensures
        without_char(s, c) == s,
    decreases s.len(),
{
    reveal(Seq::filter);
    if s.len() > 0 {
        lemma_without_absent_char(s.drop_last(), c);
        assert(s.drop_last().push(s.last()) =~= s);
    }
}

/// Taking `c` out of a text that starts with it, and does not hold it again,
/// leaves the rest.
pub proof fn lemma_without_leading_char(s: Seq<char>, c: char)
    requires
        forall|j: int| 0 <= j < s.len() ==> #[trigger] s[j] != c,
    ensures
        without_char(seq![c] + s, c) == s,
{
    let keep = other_than(c);
    Seq::filter_distributes_over_add(seq![c], s, keep);
    lemma_without_absent_char(s, c);
    assert(seq![c].filter(keep) =~= Seq::<char>::empty()) by {
        reveal_with_fuel(Seq::filter, 2);
        assert(seq![c].drop_last() =~= Seq::<char>::empty());
    }
    assert(Seq::<char>::empty() + s =~= s);
}

/// `without_suffix` cuts behind the last character that is not in `strip`, so
/// it never cuts a character that is not in `strip`, nor anything before one.
pub proof fn lemma_without_suffix_keeps(s: Seq<char>, strip: spec_fn(char) -> bool, j: int)
    requires
        0 <= j < s.len(),
        !strip(s[j]),
    ensures
        j < without_suffix(s, strip).len() <= s.len(),
        without_suffix(s, strip) == s.take(without_suffix(s, strip).len() as int),
    decreases s.len(),
{
    if strip(s.last()) {
        lemma_without_suffix_keeps(s.drop_last(), strip, j);
        let kept = without_suffix(s.drop_last(), strip);
        assert(s.drop_last().take(kept.len() as int) =~= s.take(kept.len() as int));
    } else {
        assert(s.take(s.len() as int) =~= s);
    }
}

} // verus!
