//! Text as a sequence of characters: trimming, lines, words and searching.

use vstd::prelude::*;
use vstd::slice::*;

use crate::chars;

verus! {

/// `String::push`. Claimed of it: it appends the character to the string.
pub assume_specification[ String::push ](s: &mut String, c: char)
    ensures
        final(s)@ == old(s)@.push(c),
;

/// White space, as a predicate.
pub open spec fn blank() -> spec_fn(char) -> bool {
    |c: char| chars::white_space(c)
}

/// Anything but white space, as a predicate.
pub open spec fn inked() -> spec_fn(char) -> bool {
    |c: char| !chars::white_space(c)
}

/// Anything but the character `c`, as a predicate.
pub open spec fn other_than(c: char) -> spec_fn(char) -> bool {
    |x: char| x != c
}

/// How many characters at the start of `s` satisfy `p` without a gap.
pub open spec fn leading(s: Seq<char>, p: spec_fn(char) -> bool) -> nat
    decreases s.len(),
{
    if s.len() == 0 || !p(s[0]) {
        0
    } else {
        1 + leading(s.drop_first(), p)
    }
}

/// How many characters at the end of `s` satisfy `p` without a gap.
pub open spec fn trailing(s: Seq<char>, p: spec_fn(char) -> bool) -> nat
    decreases s.len(),
{
    if s.len() == 0 || !p(s.last()) {
        0
    } else {
        1 + trailing(s.drop_last(), p)
    }
}

/// `s` without the white space at its start.
pub open spec fn trim_start(s: Seq<char>) -> Seq<char> {
    s.skip(leading(s, blank()) as int)
}

/// `s` without the white space at its end.
pub open spec fn trim_end(s: Seq<char>) -> Seq<char> {
    s.take(s.len() - trailing(s, blank()))
}

/// `s` without the white space at either end.
pub open spec fn trim(s: Seq<char>) -> Seq<char> {
    trim_end(trim_start(s))
}

/// The part of `s` before the first `c`, or all of `s` if it holds no `c`.
pub open spec fn before(s: Seq<char>, c: char) -> Seq<char> {
    s.take(leading(s, other_than(c)) as int)
}

/// The part of `s` after the last `c`, or all of `s` if it holds no `c`.
pub open spec fn after_last(s: Seq<char>, c: char) -> Seq<char> {
    s.skip(s.len() - trailing(s, other_than(c)))
}

/// A line that ended in a line feed, without the carriage return that may stand before it.
pub open spec fn without_return(line: Seq<char>) -> Seq<char> {
    if line.len() > 0 && line.last() == '\r' {
        line.drop_last()
    } else {
        line
    }
}

/// The lines of `s`, without their ends. A line feed ends a line, with or without a
/// carriage return before it. What follows the last line feed is a line if it is not empty.
pub open spec fn lines(s: Seq<char>) -> Seq<Seq<char>>
    decreases s.len(),
{
    let n = leading(s, other_than('\n'));
    if s.len() == 0 {
        Seq::empty()
    } else if n >= s.len() {
        seq![s]
    } else {
        seq![without_return(s.take(n as int))] + lines(s.skip(n as int + 1))
    }
}

/// The words of `s`: the longest runs of characters that are not white space.
pub open spec fn words(s: Seq<char>) -> Seq<Seq<char>>
    decreases s.len(),
{
    let t = trim_start(s);
    let n = leading(t, inked());
    if t.len() == 0 || n == 0 {
        Seq::empty()
    } else {
        proof {
            lemma_leading(s, blank());
            lemma_leading(t, inked());
        }
        seq![t.take(n as int)] + words(t.skip(n as int))
    }
}

/// Whether `pat` stands in `s` from index `i` on.
pub open spec fn stands_at(s: Seq<char>, pat: Seq<char>, i: int) -> bool {
    0 <= i && i + pat.len() <= s.len() && s.subrange(i, i + pat.len()) == pat
}

/// The least index from which `pat` stands in `s`.
pub open spec fn find(s: Seq<char>, pat: Seq<char>) -> Option<nat>
    decreases s.len(),
{
    if stands_at(s, pat, 0) {
        Some(0)
    } else if s.len() == 0 {
        None
    } else {
        match find(s.drop_first(), pat) {
            Some(i) => Some(1 + i),
            None => None,
        }
    }
}

/// The texts that a vector of character vectors holds.
pub open spec fn texts(v: Seq<Vec<char>>) -> Seq<Seq<char>> {
    Seq::new(v.len(), |i: int| v[i]@)
}

/// The texts that a vector of strings holds.
pub open spec fn strings(v: Seq<String>) -> Seq<Seq<char>> {
    Seq::new(v.len(), |i: int| v[i]@)
}

/// What `leading` counts: everything before it satisfies `p`, what follows does not.
pub proof fn lemma_leading(s: Seq<char>, p: spec_fn(char) -> bool)
    ensures
        leading(s, p) <= s.len(),
        forall|j: int| 0 <= j < leading(s, p) ==> p(#[trigger] s[j]),
        leading(s, p) < s.len() ==> !p(s[leading(s, p) as int]),
    decreases s.len(),
{
    if s.len() > 0 && p(s[0]) {
        let t = s.drop_first();
        lemma_leading(t, p);
        assert forall|j: int| 0 <= j < leading(s, p) implies p(#[trigger] s[j]) by {
            if j > 0 {
                assert(s[j] == t[j - 1]);
            }
        }
        if leading(s, p) < s.len() {
            assert(s[leading(s, p) as int] == t[leading(t, p) as int]);
        }
    }
}

/// Only one number has the properties of `leading`.
pub proof fn lemma_leading_is(s: Seq<char>, p: spec_fn(char) -> bool, k: int)
    requires
        0 <= k <= s.len(),
        forall|j: int| 0 <= j < k ==> p(#[trigger] s[j]),
        k < s.len() ==> !p(s[k]),
    ensures
        leading(s, p) == k,
{
    lemma_leading(s, p);
    let n = leading(s, p) as int;
    if n < k {
        assert(p(s[n]));
    } else if k < n {
        assert(p(s[k]));
    }
}

/// What `trailing` counts: everything from there on satisfies `p`, what precedes does not.
pub proof fn lemma_trailing(s: Seq<char>, p: spec_fn(char) -> bool)
    ensures
        trailing(s, p) <= s.len(),
        forall|j: int| s.len() - trailing(s, p) <= j < s.len() ==> p(#[trigger] s[j]),
        trailing(s, p) < s.len() ==> !p(s[s.len() - trailing(s, p) - 1]),
    decreases s.len(),
{
    if s.len() > 0 && p(s.last()) {
        let t = s.drop_last();
        lemma_trailing(t, p);
        assert forall|j: int| s.len() - trailing(s, p) <= j < s.len() implies p(
            #[trigger] s[j],
        ) by {
            if j < t.len() {
                assert(s[j] == t[j]);
            }
        }
    }
}

/// Only one number has the properties of `trailing`.
pub proof fn lemma_trailing_is(s: Seq<char>, p: spec_fn(char) -> bool, k: int)
    requires
        0 <= k <= s.len(),
        forall|j: int| s.len() - k <= j < s.len() ==> p(#[trigger] s[j]),
        k < s.len() ==> !p(s[s.len() - k - 1]),
    ensures
        trailing(s, p) == k,
{
    lemma_trailing(s, p);
    let n = trailing(s, p) as int;
    if n < k {
        assert(p(s[s.len() - n - 1]));
    } else if k < n {
        assert(p(s[s.len() - k - 1]));
    }
}

/// What `find` finds: the pattern stands there and nowhere before, or nowhere at all.
pub proof fn lemma_find(s: Seq<char>, pat: Seq<char>)
    ensures
        match find(s, pat) {
            Some(i) => stands_at(s, pat, i as int) && forall|j: int|
                0 <= j < i ==> !#[trigger] stands_at(s, pat, j),
            None => forall|j: int| !#[trigger] stands_at(s, pat, j),
        },
    decreases s.len(),
{
    if !stands_at(s, pat, 0) && s.len() > 0 {
        let t = s.drop_first();
        lemma_find(t, pat);
        assert forall|j: int| 1 <= j implies #[trigger] stands_at(s, pat, j) == stands_at(
            t,
            pat,
            j - 1,
        ) by {
            if j + pat.len() <= s.len() {
                assert(s.subrange(j, j + pat.len()) =~= t.subrange(j - 1, j - 1 + pat.len()));
            }
        }
    }
}

/// Only one index has the properties of what `find` finds.
pub proof fn lemma_find_is(s: Seq<char>, pat: Seq<char>, i: int)
    requires
        stands_at(s, pat, i),
        forall|j: int| 0 <= j < i ==> !#[trigger] stands_at(s, pat, j),
    ensures
        find(s, pat) == Some(i as nat),
{
    lemma_find(s, pat);
}

/// The characters of `s`.
pub fn chars_of(s: &str) -> (r: Vec<char>)
    ensures
        r@ == s@,
{
    let mut r: Vec<char> = Vec::new();
    for c in it: s.chars()
        invariant
            r@ == it.seq().take(it.index() as int),
            it.seq() == s@,
    {
        r.push(c);
    }
    r
}

/// The string of the characters `s`.
pub fn string_of(s: &[char]) -> (r: String)
    ensures
        r@ == s@,
{
    let mut r = String::new();
    for i in 0..s.len()
        invariant
            r@ == s@.take(i as int),
    {
        r.push(s[i]);
        assert(s@.take(i + 1) =~= s@.take(i as int).push(s@[i as int]));
    }
    assert(s@.take(s@.len() as int) =~= s@);
    r
}

/// The index of the first character of `s` that is not white space, or the length of `s`.
fn skip_blank(s: &[char]) -> (k: usize)
    ensures
        k == leading(s@, blank()),
{
    let mut k: usize = 0;
    while k < s.len() && chars::is_white_space(s[k])
        invariant
            k <= s@.len(),
            forall|j: int| 0 <= j < k ==> blank()(#[trigger] s@[j]),
        decreases s@.len() - k,
    {
        k += 1;
    }
    proof {
        lemma_leading_is(s@, blank(), k as int);
    }
    k
}

/// The index of the first white space of `s`, or the length of `s`.
fn skip_inked(s: &[char]) -> (k: usize)
    ensures
        k == leading(s@, inked()),
{
    let mut k: usize = 0;
    while k < s.len() && !chars::is_white_space(s[k])
        invariant
            k <= s@.len(),
            forall|j: int| 0 <= j < k ==> inked()(#[trigger] s@[j]),
        decreases s@.len() - k,
    {
        k += 1;
    }
    proof {
        lemma_leading_is(s@, inked(), k as int);
    }
    k
}

/// The index of the first `c` in `s`, or the length of `s`.
pub fn skip_to(s: &[char], c: char) -> (k: usize)
    ensures
        k == leading(s@, other_than(c)),
{
    let mut k: usize = 0;
    while k < s.len() && s[k] != c
        invariant
            k <= s@.len(),
            forall|j: int| 0 <= j < k ==> other_than(c)(#[trigger] s@[j]),
        decreases s@.len() - k,
    {
        k += 1;
    }
    proof {
        lemma_leading_is(s@, other_than(c), k as int);
    }
    k
}

/// `s` without the white space at its start.
pub fn trimmed_start<'a>(s: &'a [char]) -> (r: &'a [char])
    ensures
        r@ == trim_start(s@),
{
    let k: usize = skip_blank(s);
    proof {
        lemma_leading(s@, blank());
    }
    slice_subrange(s, k, s.len())
}

/// `s` without the white space at its end.
pub fn trimmed_end<'a>(s: &'a [char]) -> (r: &'a [char])
    ensures
        r@ == trim_end(s@),
{
    let mut n: usize = s.len();
    while n > 0 && chars::is_white_space(s[n - 1])
        invariant
            n <= s@.len(),
            forall|j: int| n <= j < s@.len() ==> blank()(#[trigger] s@[j]),
        decreases n,
    {
        n -= 1;
    }
    proof {
        lemma_trailing_is(s@, blank(), s@.len() - n);
    }
    slice_subrange(s, 0, n)
}

/// `s` without the white space at either end.
pub fn trimmed<'a>(s: &'a [char]) -> (r: &'a [char])
    ensures
        r@ == trim(s@),
{
    trimmed_end(trimmed_start(s))
}

/// The part of `s` before the first `c`, or all of `s`.
pub fn part_before<'a>(s: &'a [char], c: char) -> (r: &'a [char])
    ensures
        r@ == before(s@, c),
{
    let k: usize = skip_to(s, c);
    proof {
        lemma_leading(s@, other_than(c));
    }
    slice_subrange(s, 0, k)
}

/// The index after the last `c` in `s`, or 0 if `s` holds no `c`.
pub fn end_of_last(s: &[char], c: char) -> (n: usize)
    ensures
        n == s@.len() - trailing(s@, other_than(c)),
{
    let mut n: usize = s.len();
    while n > 0 && s[n - 1] != c
        invariant
            n <= s@.len(),
            forall|j: int| n <= j < s@.len() ==> other_than(c)(#[trigger] s@[j]),
        decreases n,
    {
        n -= 1;
    }
    proof {
        lemma_trailing_is(s@, other_than(c), s@.len() - n);
    }
    n
}

/// The part of `s` after the last `c`, or all of `s`.
pub fn part_after_last<'a>(s: &'a [char], c: char) -> (r: &'a [char])
    ensures
        r@ == after_last(s@, c),
{
    let n: usize = end_of_last(s, c);
    proof {
        lemma_trailing(s@, other_than(c));
    }
    slice_subrange(s, n, s.len())
}

/// Whether two texts are the same.
pub fn same(a: &[char], b: &[char]) -> (r: bool)
    ensures
        r == (a@ == b@),
{
    if a.len() != b.len() {
        return false;
    }
    for i in 0..a.len()
        invariant
            a@.len() == b@.len(),
            forall|j: int| 0 <= j < i ==> a@[j] == b@[j],
    {
        if a[i] != b[i] {
            return false;
        }
    }
    assert(a@ =~= b@);
    true
}

/// Whether `s` starts with `pat`.
pub fn starts_with(s: &[char], pat: &[char]) -> (r: bool)
    ensures
        r == pat@.is_prefix_of(s@),
{
    if pat.len() > s.len() {
        return false;
    }
    assert(s@.subrange(0, pat@.len() as int) =~= s@.take(pat@.len() as int));
    same(slice_subrange(s, 0, pat.len()), pat)
}

/// The least index from which `pat` stands in `s`.
pub fn position(s: &[char], pat: &[char]) -> (r: Option<usize>)
    ensures
        match find(s@, pat@) {
            Some(i) => r == Some(i as usize) && i + pat@.len() <= s@.len(),
            None => r is None,
        },
{
    let len: usize = s.len();
    if pat.len() <= len {
        let last: usize = len - pat.len();
        for i in 0..len
            invariant
                len == s@.len(),
                pat@.len() <= len,
                last == len - pat@.len(),
                forall|j: int| 0 <= j < i ==> !#[trigger] stands_at(s@, pat@, j),
        {
            if i <= last && same(slice_subrange(s, i, i + pat.len()), pat) {
                proof {
                    lemma_find_is(s@, pat@, i as int);
                }
                return Some(i);
            }
        }
        if pat.len() == 0 {
            assert(stands_at(s@, pat@, len as int)) by {
                assert(s@.subrange(len as int, len as int) =~= pat@);
            }
            proof {
                lemma_find_is(s@, pat@, len as int);
            }
            return Some(len);
        }
    }
    proof {
        lemma_find(s@, pat@);
    }
    None
}

/// The lines of `s`, without their ends.
pub fn split_lines(s: &[char]) -> (r: Vec<Vec<char>>)
    ensures
        texts(r@) == lines(s@),
{
    let mut r: Vec<Vec<char>> = Vec::new();
    let mut i: usize = 0;
    assert(s@.skip(0) =~= s@);
    assert(texts(r@) + lines(s@) =~= lines(s@));
    while i < s.len()
        invariant
            i <= s@.len(),
            texts(r@) + lines(s@.skip(i as int)) == lines(s@),
        decreases s@.len() - i,
    {
        let rest = slice_subrange(s, i, s.len());
        assert(rest@ =~= s@.skip(i as int));
        let n: usize = skip_to(rest, '\n');
        proof {
            lemma_leading(rest@, other_than('\n'));
        }
        let ghost before_push = texts(r@);
        if n == rest.len() {
            let line = slice_to_vec(rest);
            r.push(line);
            assert(texts(r@) =~= before_push.push(rest@));
            assert(lines(rest@) =~= seq![rest@]);
            assert(texts(r@) =~= lines(s@));
            return r;
        }
        let m: usize = if n > 0 && rest[n - 1] == '\r' { n - 1 } else { n };
        let line = slice_to_vec(slice_subrange(rest, 0, m));
        r.push(line);
        proof {
            assert(line@ =~= without_return(rest@.take(n as int)));
            assert(texts(r@) =~= before_push.push(line@));
            assert(rest@.skip(n as int + 1) =~= s@.skip(i + n + 1));
            assert(texts(r@) + lines(s@.skip(i + n + 1)) =~= before_push + lines(rest@));
        }
        i = i + n + 1;
    }
    assert(s@.skip(i as int) =~= Seq::<char>::empty());
    assert(texts(r@) =~= lines(s@));
    r
}

/// The words of `s`.
pub fn split_words(s: &[char]) -> (r: Vec<Vec<char>>)
    ensures
        texts(r@) == words(s@),
{
    let mut r: Vec<Vec<char>> = Vec::new();
    let mut i: usize = 0;
    assert(s@.skip(0) =~= s@);
    assert(texts(r@) + words(s@) =~= words(s@));
    loop
        invariant
            i <= s@.len(),
            texts(r@) + words(s@.skip(i as int)) == words(s@),
        decreases s@.len() - i,
    {
        let rest = slice_subrange(s, i, s.len());
        assert(rest@ =~= s@.skip(i as int));
        let k: usize = skip_blank(rest);
        proof {
            lemma_leading(rest@, blank());
        }
        let t = slice_subrange(rest, k, rest.len());
        assert(t@ =~= trim_start(rest@));
        if t.len() == 0 {
            assert(texts(r@) =~= words(s@));
            return r;
        }
        let n: usize = skip_inked(t);
        proof {
            lemma_leading(t@, inked());
            assert(!blank()(t@[0])) by {
                assert(t@[0] == rest@[k as int]);
            }
            assert(n > 0);
        }
        let ghost before_push = texts(r@);
        let word = slice_to_vec(slice_subrange(t, 0, n));
        r.push(word);
        proof {
            assert(word@ =~= t@.take(n as int));
            assert(texts(r@) =~= before_push.push(word@));
            assert(t@.skip(n as int) =~= s@.skip(i + k + n));
            assert(texts(r@) + words(s@.skip(i + k + n)) =~= before_push + words(rest@));
        }
        i = i + k + n;
    }
}

/// A text without surrounding white space that is not empty starts and ends with ink.
pub proof fn law_trimmed_ends_in_ink(s: Seq<char>)
    ensures
        ({
            let t = trim(s);
            t.len() > 0 ==> !chars::white_space(t[0]) && !chars::white_space(t.last())
        }),
{
    let u = trim_start(s);
    lemma_leading(s, blank());
    lemma_trailing(u, blank());
}

/// A line holds no line feed.
pub proof fn law_line_has_no_feed(s: Seq<char>, i: int, j: int)
    requires
        0 <= i < lines(s).len(),
        0 <= j < lines(s)[i].len(),
    ensures
        lines(s)[i][j] != '\n',
    decreases s.len(),
{
    let n = leading(s, other_than('\n')) as int;
    lemma_leading(s, other_than('\n'));
    if n >= s.len() {
        assert(other_than('\n')(s[j]));
    } else {
        let first = without_return(s.take(n));
        if i == 0 {
            assert(lines(s)[0] == first);
            assert(other_than('\n')(s[j]));
        } else {
            assert(lines(s)[i] == lines(s.skip(n + 1))[i - 1]);
            law_line_has_no_feed(s.skip(n + 1), i - 1, j);
        }
    }
}

} // verus!
