//! What the functions on text make of a text, told by the pieces that it is put together from.

use vstd::prelude::*;

use crate::ansi;
use crate::chars;
use crate::decimal;
use crate::lang;
use crate::order;
use crate::text;

verus! {

/// Whether a text holds nothing but white space.
pub open spec fn all_blank(s: Seq<char>) -> bool {
    forall|i: int| 0 <= i < s.len() ==> chars::white_space(#[trigger] s[i])
}

/// Whether a text holds no white space.
pub open spec fn all_ink(s: Seq<char>) -> bool {
    forall|i: int| 0 <= i < s.len() ==> !chars::white_space(#[trigger] s[i])
}

/// Whether a text has no white space at its ends.
pub open spec fn ink_ends(s: Seq<char>) -> bool {
    s.len() > 0 ==> !chars::white_space(s[0]) && !chars::white_space(s.last())
}

/// Whether a text does not hold the character `c`.
pub open spec fn lacks(s: Seq<char>, c: char) -> bool {
    forall|i: int| 0 <= i < s.len() ==> #[trigger] s[i] != c
}

/// The characters that count as white space.
pub proof fn law_white_space_characters(c: char)
    ensures
        chars::white_space(c) <==> {
            ||| c == '\t' || c == '\n' || c == '\u{b}' || c == '\u{c}' || c == '\r' || c == ' '
            ||| c == '\u{85}' || c == '\u{a0}' || c == '\u{1680}'
            ||| c == '\u{2000}' || c == '\u{2001}' || c == '\u{2002}' || c == '\u{2003}'
            ||| c == '\u{2004}' || c == '\u{2005}' || c == '\u{2006}' || c == '\u{2007}'
            ||| c == '\u{2008}' || c == '\u{2009}' || c == '\u{200a}'
            ||| c == '\u{2028}' || c == '\u{2029}' || c == '\u{202f}'
            ||| c == '\u{205f}' || c == '\u{3000}'
        },
{
}

/// The codes of the ASCII letters and digits; a character beyond ASCII is a letter or a number
/// if the standard library says so, an ASCII one if it is a letter or a digit.
pub proof fn law_letters_and_digits(c: char)
    ensures
        chars::ascii_letter(c) <==> 0x61 <= c as u32 <= 0x7a || 0x41 <= c as u32 <= 0x5a,
        chars::ascii_digit(c) <==> 0x30 <= c as u32 <= 0x39,
        c as u32 <= 0x7f ==> (chars::alphanumeric(c) <==> 0x61 <= c as u32 <= 0x7a || 0x41
            <= c as u32 <= 0x5a || 0x30 <= c as u32 <= 0x39),
        c as u32 > 0x7f ==> chars::alphanumeric(c) == chars::unicode_alphanumeric(c),
{
}

/// White space at the start is cut, up to the first ink.
pub proof fn law_trim_start_cuts_blank(pre: Seq<char>, rest: Seq<char>)
    requires
        all_blank(pre),
        rest.len() > 0 ==> !chars::white_space(rest[0]),
    ensures
        text::trim_start(pre + rest) == rest,
{
    let s = pre + rest;
    assert forall|j: int| 0 <= j < pre.len() implies text::blank()(#[trigger] s[j]) by {
        assert(s[j] == pre[j]);
    }
    if rest.len() > 0 {
        assert(s[pre.len() as int] == rest[0]);
    }
    text::lemma_leading_is(s, text::blank(), pre.len() as int);
    assert(text::trim_start(s) =~= rest);
}

/// White space at the end is cut, down to the last ink.
pub proof fn law_trim_end_cuts_blank(rest: Seq<char>, post: Seq<char>)
    requires
        all_blank(post),
        rest.len() > 0 ==> !chars::white_space(rest.last()),
    ensures
        text::trim_end(rest + post) == rest,
{
    let s = rest + post;
    assert forall|j: int| s.len() - post.len() <= j < s.len() implies text::blank()(
        #[trigger] s[j],
    ) by {
        assert(s[j] == post[j - rest.len()]);
    }
    if rest.len() > 0 {
        assert(s[s.len() - post.len() - 1] == rest.last());
    }
    text::lemma_trailing_is(s, text::blank(), post.len() as int);
    assert(text::trim_end(s) =~= rest);
}

/// Trimming cuts the white space at both ends, and nothing else.
pub proof fn law_trim_cuts_blank_ends(pre: Seq<char>, core: Seq<char>, post: Seq<char>)
    requires
        all_blank(pre),
        ink_ends(core),
        all_blank(post),
    ensures
        text::trim(pre + core + post) == core,
{
    if core.len() == 0 {
        let s = pre + core + post;
        let none = Seq::<char>::empty();
        assert(all_blank(s)) by {
            assert forall|i: int| 0 <= i < s.len() implies chars::white_space(#[trigger] s[i]) by {
                if i < pre.len() {
                    assert(s[i] == pre[i]);
                } else {
                    assert(s[i] == post[i - pre.len()]);
                }
            }
        }
        assert(s =~= s + none);
        law_trim_start_cuts_blank(s, none);
        assert(none =~= none + none);
        law_trim_end_cuts_blank(none, none);
        assert(core =~= none);
    } else {
        assert(pre + core + post =~= pre + (core + post));
        assert((core + post)[0] == core[0]);
        law_trim_start_cuts_blank(pre, core + post);
        law_trim_end_cuts_blank(core, post);
    }
}

/// Every text is what trimming leaves, between two pieces of white space.
pub proof fn law_text_is_trimmed_text_between_blanks(s: Seq<char>) -> (ends: (
    Seq<char>,
    Seq<char>,
))
    ensures
        all_blank(ends.0),
        all_blank(ends.1),
        ink_ends(text::trim(s)),
        s == ends.0 + text::trim(s) + ends.1,
{
    let k = text::leading(s, text::blank()) as int;
    text::lemma_leading(s, text::blank());
    let u = s.skip(k);
    let n = text::trailing(u, text::blank()) as int;
    text::lemma_trailing(u, text::blank());
    let pre = s.take(k);
    let post = u.skip(u.len() - n);
    assert forall|i: int| 0 <= i < pre.len() implies chars::white_space(#[trigger] pre[i]) by {
        assert(text::blank()(s[i]));
    }
    assert forall|i: int| 0 <= i < post.len() implies chars::white_space(#[trigger] post[i]) by {
        assert(text::blank()(u[i + u.len() - n]));
    }
    text::law_trimmed_ends_in_ink(s);
    assert(s =~= pre + text::trim(s) + post);
    (pre, post)
}

/// What stands before a character is what precedes its first occurrence; all, if there is none.
pub proof fn law_before_ends_at_first(a: Seq<char>, c: char, b: Seq<char>)
    requires
        lacks(a, c),
    ensures
        text::before(a + seq![c] + b, c) == a,
        text::before(a, c) == a,
{
    let s = a + seq![c] + b;
    assert forall|j: int| 0 <= j < a.len() implies text::other_than(c)(#[trigger] s[j]) by {
        assert(s[j] == a[j]);
    }
    assert(s[a.len() as int] == c);
    text::lemma_leading_is(s, text::other_than(c), a.len() as int);
    text::lemma_leading_is(a, text::other_than(c), a.len() as int);
    assert(s.take(a.len() as int) =~= a);
    assert(a.take(a.len() as int) =~= a);
}

/// What stands after the last occurrence of a character is what follows it; all, if there is
/// none.
pub proof fn law_after_last_starts_behind_last(a: Seq<char>, c: char, b: Seq<char>)
    requires
        lacks(b, c),
    ensures
        text::after_last(a + seq![c] + b, c) == b,
        text::after_last(b, c) == b,
{
    let s = a + seq![c] + b;
    assert forall|j: int| s.len() - b.len() <= j < s.len() implies text::other_than(c)(
        #[trigger] s[j],
    ) by {
        assert(s[j] == b[j - a.len() - 1]);
    }
    assert(s[s.len() - b.len() - 1] == c);
    text::lemma_trailing_is(s, text::other_than(c), b.len() as int);
    text::lemma_trailing_is(b, text::other_than(c), b.len() as int);
    assert(s.skip(s.len() - b.len()) =~= b);
    assert(b.skip(0) =~= b);
}

/// A line feed ends a line, and takes a carriage return before it along. What no line feed ends
/// is a line as it is, unless it is empty.
pub proof fn law_lines_end_at_feeds(line: Seq<char>, rest: Seq<char>)
    requires
        lacks(line, '\n'),
    ensures
        text::lines(line.push('\r').push('\n') + rest) == seq![line] + text::lines(rest),
        (line.len() == 0 || line.last() != '\r') ==> text::lines(line.push('\n') + rest)
            == seq![line] + text::lines(rest),
        line.len() > 0 ==> text::lines(line) == seq![line],
        text::lines(Seq::<char>::empty()) == Seq::<Seq<char>>::empty(),
{
    lemma_lines_first(line, rest);
    let long = line.push('\r');
    assert(lacks(long, '\n'));
    lemma_lines_first(long, rest);
    assert(long.drop_last() =~= line);
    text::lemma_leading_is(line, text::other_than('\n'), line.len() as int);
}

/// The line up to a line feed comes first.
proof fn lemma_lines_first(line: Seq<char>, rest: Seq<char>)
    requires
        lacks(line, '\n'),
    ensures
        text::lines(line.push('\n') + rest) == seq![text::without_return(line)]
            + text::lines(rest),
{
    let s = line.push('\n') + rest;
    assert forall|j: int| 0 <= j < line.len() implies text::other_than('\n')(#[trigger] s[j]) by {
        assert(s[j] == line[j]);
    }
    assert(s[line.len() as int] == '\n');
    text::lemma_leading_is(s, text::other_than('\n'), line.len() as int);
    assert(s.take(line.len() as int) =~= line);
    assert(s.skip(line.len() as int + 1) =~= rest);
}

/// The lines of two texts, the first of which ends with a line, are those of the one and of the
/// other.
pub proof fn law_lines_of_two_texts(a: Seq<char>, b: Seq<char>)
    requires
        a.len() > 0 ==> a.last() == '\n',
    ensures
        text::lines(a + b) == text::lines(a) + text::lines(b),
    decreases a.len(),
{
    if a.len() == 0 {
        assert(a + b =~= b);
        assert(text::lines(a) + text::lines(b) =~= text::lines(b));
    } else {
        let n = text::leading(a, text::other_than('\n')) as int;
        text::lemma_leading(a, text::other_than('\n'));
        if n == a.len() {
            assert(text::other_than('\n')(a[a.len() - 1]));
        }
        let line = a.take(n);
        let rest = a.skip(n + 1);
        assert forall|i: int| 0 <= i < line.len() implies #[trigger] line[i] != '\n' by {
            assert(text::other_than('\n')(a[i]));
        }
        assert(a =~= line.push('\n') + rest);
        assert(a + b =~= line.push('\n') + (rest + b));
        lemma_lines_first(line, rest);
        lemma_lines_first(line, rest + b);
        if rest.len() > 0 {
            assert(rest.last() == a.last());
        }
        law_lines_of_two_texts(rest, b);
        assert(text::lines(a + b) =~= text::lines(a) + text::lines(b));
    }
}

/// A word is ink that white space, or an end of the text, stands before and behind. White space
/// alone holds no word.
pub proof fn law_words_are_runs_of_ink(pre: Seq<char>, w: Seq<char>, rest: Seq<char>)
    requires
        all_blank(pre),
        all_ink(w),
        w.len() > 0,
        rest.len() > 0 ==> chars::white_space(rest[0]),
    ensures
        text::words(pre + w + rest) == seq![w] + text::words(rest),
        text::words(pre) == Seq::<Seq<char>>::empty(),
{
    let s = pre + w + rest;
    let t = w + rest;
    assert(s =~= pre + t);
    assert(t[0] == w[0]);
    law_trim_start_cuts_blank(pre, t);
    assert forall|j: int| 0 <= j < w.len() implies text::inked()(#[trigger] t[j]) by {
        assert(t[j] == w[j]);
    }
    if rest.len() > 0 {
        assert(t[w.len() as int] == rest[0]);
    }
    text::lemma_leading_is(t, text::inked(), w.len() as int);
    assert(t.take(w.len() as int) =~= w);
    assert(t.skip(w.len() as int) =~= rest);
    let none = Seq::<char>::empty();
    assert(pre =~= pre + none);
    law_trim_start_cuts_blank(pre, none);
}

/// A pattern stands in a text where the text is what precedes it, the pattern and what follows.
pub proof fn law_stands_where_text_holds_it(
    a: Seq<char>,
    pat: Seq<char>,
    b: Seq<char>,
    s: Seq<char>,
    i: int,
)
    ensures
        text::stands_at(a + pat + b, pat, a.len() as int),
        text::stands_at(s, pat, i) ==> 0 <= i && i + pat.len() <= s.len() && s == s.take(i) + pat
            + s.skip(i + pat.len()),
{
    assert((a + pat + b).subrange(a.len() as int, a.len() as int + pat.len()) =~= pat);
    if text::stands_at(s, pat, i) {
        let sub = s.subrange(i, i + pat.len());
        assert(s =~= s.take(i) + sub + s.skip(i + pat.len()));
    }
}

/// A pattern is found where it stands first, and nowhere if it stands nowhere.
pub proof fn law_found_where_it_stands_first(s: Seq<char>, pat: Seq<char>, i: nat)
    ensures
        text::find(s, pat) == Some(i) <==> {
            &&& i + pat.len() <= s.len()
            &&& s == s.take(i as int) + pat + s.skip(i as int + pat.len())
            &&& forall|j: int| 0 <= j < i ==> !#[trigger] text::stands_at(s, pat, j)
        },
        text::find(s, pat) is None <==> forall|j: int| !#[trigger] text::stands_at(s, pat, j),
{
    text::lemma_find(s, pat);
    law_stands_where_text_holds_it(s.take(i as int), pat, s.skip(i as int + pat.len()), s, i as int);
    if i + pat.len() <= s.len() && s == s.take(i as int) + pat + s.skip(i as int + pat.len()) {
        assert(text::stands_at(s, pat, i as int));
        if forall|j: int| 0 <= j < i ==> !#[trigger] text::stands_at(s, pat, j) {
            text::lemma_find_is(s, pat, i as int);
        }
    }
}

/// Vectors of characters and of strings hold the texts of their items, in their order.
pub proof fn law_vectors_hold_their_texts(v: Seq<Vec<char>>, w: Seq<String>, i: int)
    ensures
        text::texts(v).len() == v.len(),
        text::strings(w).len() == w.len(),
        0 <= i < v.len() ==> text::texts(v)[i] == v[i]@,
        0 <= i < w.len() ==> text::strings(w)[i] == w[i]@,
{
}

/// Plain text stays, up to the first escape character (code 27).
pub proof fn law_plain_text_stays(plain: Seq<char>, rest: Seq<char>)
    requires
        lacks(plain, '\x1b'),
    ensures
        ansi::stripped(plain + rest) == plain + ansi::stripped(rest),
        ansi::stripped(plain) == plain,
{
    ansi::law_stripping_keeps_plain_start(plain, rest);
    ansi::law_stripping_keeps_plain_text(plain);
}

/// From an escape character (code 27) on everything goes, up to and with the next ASCII letter;
/// everything, if no letter follows.
pub proof fn law_escape_sequence_goes(params: Seq<char>, letter: char, rest: Seq<char>)
    requires
        forall|i: int| 0 <= i < params.len() ==> !chars::ascii_letter(#[trigger] params[i]),
        chars::ascii_letter(letter),
    ensures
        ansi::stripped(seq!['\x1b'] + params + seq![letter] + rest) == ansi::stripped(rest),
        ansi::stripped(seq!['\x1b'] + params) == Seq::<char>::empty(),
{
    let none = Seq::<char>::empty();
    let open = seq!['\x1b'] + params;
    ansi::law_stripping_drops_a_sequence(none, params, letter, rest);
    assert(none + seq!['\x1b'] + params + seq![letter] + rest =~= open + seq![letter] + rest);
    assert(none + ansi::stripped(rest) =~= ansi::stripped(rest));
    assert(open.drop_first() =~= params);
    assert forall|j: int| 0 <= j < params.len() implies ansi::not_letter()(
        #[trigger] params[j],
    ) by {}
    text::lemma_leading_is(params, ansi::not_letter(), params.len() as int);
}

/// The digits of a number count by tens.
pub proof fn law_digits_count_by_tens(ds: Seq<char>, c: char)
    requires
        0x30 <= c as u32 <= 0x39,
    ensures
        decimal::value(Seq::<char>::empty()) == 0,
        decimal::value(ds.push(c)) == decimal::value(ds) * 10 + (c as u32 - 0x30),
{
    assert(ds.push(c).drop_last() =~= ds);
}

/// Decimal notation has no zeros in front, unless the number is zero, which is one zero.
pub proof fn law_decimal_has_no_zeros_in_front(n: nat)
    ensures
        n == 0 ==> decimal::decimal(n) == seq!['0'],
        n > 0 ==> decimal::decimal(n)[0] != '0',
    decreases n,
{
    if n >= 10 {
        law_decimal_has_no_zeros_in_front(n / 10);
        decimal::law_decimal_is_digits(n / 10);
        assert(decimal::decimal(n)[0] == decimal::decimal(n / 10)[0]);
    } else {
        assert(decimal::decimal(n) =~= seq![decimal::digit(n)]);
        assert(decimal::digit(0) == '0');
    }
}

/// Digits, at least one, are read as the number that they stand for, if it has 64 bits.
pub proof fn law_digits_are_read(ds: Seq<char>, n: u64)
    ensures
        decimal::parsed(ds) == Some(n) <==> ds.len() > 0 && decimal::value(ds) == n,
        decimal::parsed(ds) is None <==> ds.len() == 0 || decimal::value(ds)
            > 18_446_744_073_709_551_615,
{
}

/// Names are ordered by the first character in which they differ; a name that goes on stands
/// behind the one that ends.
pub proof fn law_names_are_ordered_by_first_difference(
    p: Seq<char>,
    x: char,
    a: Seq<char>,
    y: char,
    b: Seq<char>,
)
    requires
        x != y,
    ensures
        order::name_before(p + seq![x] + a, p + seq![y] + b) == ((x as u32) < (y as u32)),
        order::name_before(p, p + seq![y] + b),
        !order::name_before(p + seq![x] + a, p),
        !order::name_before(p, p),
    decreases p.len(),
{
    let s = p + seq![x] + a;
    let t = p + seq![y] + b;
    if p.len() == 0 {
        assert(s[0] == x && t[0] == y);
    } else {
        let q = p.drop_first();
        law_names_are_ordered_by_first_difference(q, x, a, y, b);
        assert(s.drop_first() =~= q + seq![x] + a);
        assert(t.drop_first() =~= q + seq![y] + b);
        assert(s[0] == p[0] && t[0] == p[0]);
    }
}

/// In small letters, an ASCII text has each capital replaced by its small letter and everything
/// else as it was; any other text is what the standard library makes of it.
pub proof fn law_small_letters(s: Seq<char>, i: int)
    ensures
        vstd::utf8::is_ascii_chars(s) ==> lang::lowercase(s).len() == s.len(),
        vstd::utf8::is_ascii_chars(s) && 0 <= i < s.len() ==> {
            let small = lang::lowercase(s)[i];
            &&& 0x41 <= s[i] as u32 <= 0x5a ==> small as u32 == s[i] as u32 + 0x20
            &&& !(0x41 <= s[i] as u32 <= 0x5a) ==> small == s[i]
        },
        !vstd::utf8::is_ascii_chars(s) ==> lang::lowercase(s) == lang::unicode_lowercase(s),
{
}

} // verus!
