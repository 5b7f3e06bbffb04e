//! What `sv status` says about a service.

use vstd::prelude::*;
use vstd::slice::*;

use crate::ansi;
use crate::chars;
use crate::decimal;
use crate::text;

verus! {

/// The output of `sv status` without escape sequences and surrounding white space.
pub open spec fn clean(raw: Seq<char>) -> Seq<char> {
    text::trim(ansi::stripped(raw))
}

/// The state that a cleaned status names: `run` or `down` if it starts so, else what
/// stands before the first colon.
pub open spec fn state_of(status: Seq<char>) -> Seq<char> {
    if "run"@.is_prefix_of(status) {
        "run"@
    } else if "down"@.is_prefix_of(status) {
        "down"@
    } else {
        text::trim(text::before(status, ':'))
    }
}

/// The process number that a cleaned status names: what stands between the first `(pid `
/// and the next closing bracket, or a dash where either is missing.
pub open spec fn pid_of(status: Seq<char>) -> Seq<char> {
    match text::find(status, "(pid "@) {
        Some(start) => {
            let rest = status.skip(start as int + 5);
            let end = text::leading(rest, text::other_than(')'));
            if end < rest.len() {
                text::trim(rest.take(end as int))
            } else {
                "-"@
            }
        },
        None => "-"@,
    }
}

/// Neither a letter nor a number, as a predicate.
pub open spec fn punctuation() -> spec_fn(char) -> bool {
    |c: char| !chars::alphanumeric(c)
}

/// A word without the punctuation at its end.
pub open spec fn kept(word: Seq<char>) -> Seq<char> {
    word.take(word.len() - text::trailing(word, punctuation()))
}

/// Whether a word without its punctuation gives a number of seconds: digits, perhaps none,
/// and an `s`.
pub open spec fn gives_seconds(k: Seq<char>) -> bool {
    k.len() > 0 && k.last() == 's' && decimal::all_digits(k.drop_last())
}

/// The seconds of the first word that gives a number of seconds. They are missing if no
/// word does, and also if the digits of that word make no number of 64 bits.
pub open spec fn seconds(ws: Seq<Seq<char>>) -> Option<u64>
    decreases ws.len(),
{
    if ws.len() == 0 {
        None
    } else if gives_seconds(kept(ws[0])) {
        decimal::parsed(kept(ws[0]).drop_last())
    } else {
        seconds(ws.drop_first())
    }
}

/// An amount of a unit and, where it is not zero, one of a smaller unit.
pub open spec fn amounts(a: nat, unit_a: char, b: nat, unit_b: char) -> Seq<char> {
    let first = decimal::decimal(a).push(unit_a);
    if b == 0 {
        first
    } else {
        first + decimal::decimal(b).push(unit_b)
    }
}

/// A time span as it is shown: its two largest units, rounded down.
pub open spec fn uptime_text(secs: nat) -> Seq<char> {
    if secs < 60 {
        decimal::decimal(secs).push('s')
    } else if secs < 3600 {
        amounts(secs / 60, 'm', secs % 60, 's')
    } else if secs < 86400 {
        amounts(secs / 3600, 'h', (secs % 3600) / 60, 'm')
    } else {
        amounts(secs / 86400, 'd', (secs % 86400) / 3600, 'h')
    }
}

/// The time that a cleaned status names, as it is shown; empty if it names none.
pub open spec fn time_of(status: Seq<char>) -> Seq<char> {
    match seconds(text::words(status)) {
        Some(secs) => uptime_text(secs as nat),
        None => Seq::empty(),
    }
}

/// The output of `sv status` without escape sequences and surrounding white space.
pub fn clean_status(raw: &str) -> (r: Vec<char>)
    ensures
        r@ == clean(raw@),
{
    let plain = ansi::strip_ansi(raw);
    let cs = text::chars_of(plain.as_str());
    slice_to_vec(text::trimmed(cs.as_slice()))
}

/// The state that a cleaned status names.
pub fn status_state(status: &[char]) -> (r: String)
    ensures
        r@ == state_of(status@),
{
    let run = text::chars_of("run");
    let down = text::chars_of("down");
    if text::starts_with(status, run.as_slice()) {
        "run".to_owned()
    } else if text::starts_with(status, down.as_slice()) {
        "down".to_owned()
    } else {
        text::string_of(text::trimmed(text::part_before(status, ':')))
    }
}

/// The process number that a cleaned status names, or a dash.
pub fn status_pid(status: &[char]) -> (r: String)
    ensures
        r@ == pid_of(status@),
{
    let open = text::chars_of("(pid ");
    proof {
        reveal_strlit("(pid ");
    }
    let len: usize = status.len();
    match text::position(status, open.as_slice()) {
        Some(start) => {
            let rest = slice_subrange(status, start + 5, len);
            assert(rest@ =~= status@.skip(start + 5));
            let end: usize = text::skip_to(rest, ')');
            if end < rest.len() {
                let inner = slice_subrange(rest, 0, end);
                assert(inner@ =~= rest@.take(end as int));
                text::string_of(text::trimmed(inner))
            } else {
                "-".to_owned()
            }
        },
        None => "-".to_owned(),
    }
}

/// How many characters of a word are left without the punctuation at its end.
pub fn kept_len(word: &[char]) -> (n: usize)
    ensures
        n <= word@.len(),
        kept(word@) == word@.take(n as int),
{
    let mut n: usize = word.len();
    while n > 0 && !chars::is_alphanumeric(word[n - 1])
        invariant
            n <= word@.len(),
            forall|j: int| n <= j < word@.len() ==> punctuation()(#[trigger] word@[j]),
        decreases n,
    {
        n -= 1;
    }
    proof {
        text::lemma_trailing_is(word@, punctuation(), word@.len() - n);
    }
    n
}

/// Whether the first `n` characters of a word give a number of seconds, and if so the
/// number, if it is one of 64 bits.
pub fn word_seconds(word: &[char], n: usize) -> (r: Option<Option<u64>>)
    requires
        n <= word@.len(),
    ensures
        r == (if gives_seconds(word@.take(n as int)) {
            Some(decimal::parsed(word@.take(n as int).drop_last()))
        } else {
            None::<Option<u64>>
        }),
{
    if n == 0 || word[n - 1] != 's' {
        return None;
    }
    let digits = slice_subrange(word, 0, n - 1);
    assert(digits@ =~= word@.take(n as int).drop_last());
    for i in 0..digits.len()
        invariant
            digits@ == word@.take(n as int).drop_last(),
            forall|j: int| 0 <= j < i ==> chars::ascii_digit(#[trigger] digits@[j]),
    {
        if !chars::is_ascii_digit(digits[i]) {
            return None;
        }
    }
    Some(decimal::parse(digits))
}

/// A time span as it is shown.
pub fn format_uptime(secs: u64) -> (r: String)
    ensures
        r@ == uptime_text(secs as nat),
{
    let mut r = String::new();
    if secs < 60 {
        decimal::push_decimal(&mut r, secs);
        r.push('s');
    } else if secs < 3600 {
        push_amounts(&mut r, secs / 60, 'm', secs % 60, 's');
    } else if secs < 86400 {
        push_amounts(&mut r, secs / 3600, 'h', (secs % 3600) / 60, 'm');
    } else {
        push_amounts(&mut r, secs / 86400, 'd', (secs % 86400) / 3600, 'h');
    }
    assert(r@ =~= uptime_text(secs as nat));
    r
}

/// Appends an amount of a unit and, where it is not zero, one of a smaller unit.
fn push_amounts(out: &mut String, a: u64, unit_a: char, b: u64, unit_b: char)
    ensures
        final(out)@ == old(out)@ + amounts(a as nat, unit_a, b as nat, unit_b),
{
    decimal::push_decimal(out, a);
    out.push(unit_a);
    if b != 0 {
        decimal::push_decimal(out, b);
        out.push(unit_b);
    }
    assert(out@ =~= old(out)@ + amounts(a as nat, unit_a, b as nat, unit_b));
}

/// The time that a cleaned status names, as it is shown; empty if it names none.
pub fn status_time(status: &[char]) -> (r: String)
    ensures
        r@ == time_of(status@),
{
    let ws = text::split_words(status);
    let mut secs: Option<u64> = None;
    assert(text::texts(ws@).skip(0) =~= text::texts(ws@));
    let mut i: usize = 0;
    let mut found = false;
    while i < ws.len() && !found
        invariant
            i <= ws@.len(),
            found ==> secs == seconds(text::texts(ws@)),
            !found ==> secs is None && seconds(text::texts(ws@)) == seconds(
                text::texts(ws@).skip(i as int),
            ),
        decreases ws@.len() - i,
    {
        let ghost rest = text::texts(ws@).skip(i as int);
        let word = ws[i].as_slice();
        let n: usize = kept_len(word);
        assert(rest[0] == word@);
        match word_seconds(word, n) {
            Some(number) => {
                secs = number;
                found = true;
            },
            None => {},
        }
        i += 1;
        assert(rest.drop_first() =~= text::texts(ws@).skip(i as int));
    }
    match secs {
        Some(s) => format_uptime(s),
        None => String::new(),
    }
}

/// What is left of a time span when it is rounded down to the smaller unit that its text
/// shows.
pub open spec fn rounded(secs: nat) -> nat {
    if secs < 3600 {
        secs
    } else if secs < 86400 {
        secs / 60 * 60
    } else {
        secs / 3600 * 3600
    }
}

/// The larger amount of a shown time span and its unit.
spec fn larger(secs: nat) -> (nat, char) {
    if secs < 60 {
        (secs, 's')
    } else if secs < 3600 {
        (secs / 60, 'm')
    } else if secs < 86400 {
        (secs / 3600, 'h')
    } else {
        (secs / 86400, 'd')
    }
}

/// The smaller amount of a shown time span and its unit.
spec fn smaller(secs: nat) -> (nat, char) {
    if secs < 60 {
        (0, 's')
    } else if secs < 3600 {
        (secs % 60, 's')
    } else if secs < 86400 {
        ((secs % 3600) / 60, 'm')
    } else {
        ((secs % 86400) / 3600, 'h')
    }
}

/// An amount, its unit and what follows can be told from the text that they make.
proof fn lemma_amount_is_told(
    a: nat,
    unit_a: char,
    rest_a: Seq<char>,
    b: nat,
    unit_b: char,
    rest_b: Seq<char>,
)
    requires
        !chars::ascii_digit(unit_a),
        !chars::ascii_digit(unit_b),
        decimal::decimal(a).push(unit_a) + rest_a == decimal::decimal(b).push(unit_b) + rest_b,
    ensures
        a == b,
        unit_a == unit_b,
        rest_a == rest_b,
{
    let x = decimal::decimal(a);
    let y = decimal::decimal(b);
    let s = x.push(unit_a) + rest_a;
    let t = y.push(unit_b) + rest_b;
    decimal::law_decimal_is_digits(a);
    decimal::law_decimal_is_digits(b);
    assert(s[x.len() as int] == unit_a);
    assert(t[y.len() as int] == unit_b);
    if x.len() < y.len() {
        assert(t[x.len() as int] == y[x.len() as int]);
    } else if y.len() < x.len() {
        assert(s[y.len() as int] == x[y.len() as int]);
    }
    assert(x =~= s.take(x.len() as int));
    assert(y =~= t.take(y.len() as int));
    assert(rest_a =~= s.skip(x.len() as int + 1));
    assert(rest_b =~= t.skip(y.len() as int + 1));
    decimal::law_decimal_reads_back(a);
    decimal::law_decimal_reads_back(b);
}

/// What follows the larger amount of a shown time span.
spec fn second_part(secs: nat) -> Seq<char> {
    if smaller(secs).0 == 0 {
        Seq::empty()
    } else {
        decimal::decimal(smaller(secs).0).push(smaller(secs).1)
    }
}

/// A shown time span consists of its larger amount and what follows.
proof fn lemma_uptime_parts(secs: nat)
    ensures
        uptime_text(secs) == decimal::decimal(larger(secs).0).push(larger(secs).1)
            + second_part(secs),
{
    assert(uptime_text(secs) =~= decimal::decimal(larger(secs).0).push(larger(secs).1)
        + second_part(secs));
}

/// The two amounts of a shown time span make the rounded time span.
proof fn lemma_rounded_parts(secs: nat)
    ensures
        secs < 60 ==> rounded(secs) == secs,
        60 <= secs < 3600 ==> rounded(secs) == (secs / 60) * 60 + secs % 60,
        3600 <= secs < 86400 ==> rounded(secs) == (secs / 3600) * 3600 + (secs % 3600) / 60 * 60,
        86400 <= secs ==> rounded(secs) == (secs / 86400) * 86400 + (secs % 86400) / 3600 * 3600,
{
}

/// Rounding does not lead into another range of units.
proof fn lemma_rounded_range(secs: nat)
    ensures
        rounded(secs) <= secs,
        secs < 60 <==> rounded(secs) < 60,
        secs < 3600 <==> rounded(secs) < 3600,
        secs < 86400 <==> rounded(secs) < 86400,
{
}

/// The amounts of a shown time span are those of the rounded time span.
proof fn lemma_amounts_of_rounded(secs: nat)
    ensures
        larger(rounded(secs)) == larger(secs),
        smaller(rounded(secs)) == smaller(secs),
{
    lemma_rounded_range(secs);
    lemma_rounded_parts(secs);
    if 3600 <= secs < 86400 {
        let r = (secs / 60 * 60) as int;
        assert(r / 3600 == secs / 3600);
        assert((r % 3600) / 60 == (secs % 3600) / 60);
    } else if 86400 <= secs {
        let r = (secs / 3600 * 3600) as int;
        assert(r / 86400 == secs / 86400);
        assert((r % 86400) / 3600 == (secs % 86400) / 3600);
    }
}

/// The amounts of two time spans that are shown alike are the same.
proof fn lemma_shown_alike(a: nat, b: nat)
    requires
        uptime_text(a) == uptime_text(b),
    ensures
        larger(a) == larger(b),
        smaller(a).0 == smaller(b).0,
{
    lemma_uptime_parts(a);
    lemma_uptime_parts(b);
    let (x, u) = larger(a);
    let (y, v) = larger(b);
    lemma_amount_is_told(x, u, second_part(a), y, v, second_part(b));
    let none = Seq::<char>::empty();
    let (p, s) = smaller(a);
    let (q, t) = smaller(b);
    decimal::law_decimal_is_digits(p);
    decimal::law_decimal_is_digits(q);
    if p != 0 && q != 0 {
        assert(second_part(a) =~= decimal::decimal(p).push(s) + none);
        assert(second_part(b) =~= decimal::decimal(q).push(t) + none);
        lemma_amount_is_told(p, s, none, q, t, none);
    }
}

/// A shown time span tells the time down to its smaller unit, and no more: two time spans
/// are shown alike if and only if they are the same when rounded to it.
pub proof fn law_uptime_text_tells_rounded_time(a: nat, b: nat)
    ensures
        uptime_text(a) == uptime_text(b) <==> rounded(a) == rounded(b),
{
    if uptime_text(a) == uptime_text(b) {
        lemma_shown_alike(a, b);
        lemma_rounded_parts(a);
        lemma_rounded_parts(b);
    }
    if rounded(a) == rounded(b) {
        lemma_amounts_of_rounded(a);
        lemma_amounts_of_rounded(b);
        lemma_uptime_parts(a);
        lemma_uptime_parts(b);
    }
}

} // verus!
