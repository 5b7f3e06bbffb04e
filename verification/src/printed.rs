//! What `sv status` prints, and that it is read as it is meant.

use vstd::prelude::*;

use crate::ansi;
use crate::chars;
use crate::decimal;
use crate::runit;
use crate::status;
use crate::text;

verus! {

/// What is printed about a running service: `tail` follows the seconds.
pub open spec fn run_line(name: Seq<char>, pid: nat, secs: u64, tail: Seq<char>) -> Seq<char> {
    "run: "@ + runit::link_path(name) + ": (pid "@ + decimal::decimal(pid) + ") "@
        + decimal::decimal(secs as nat) + "s"@ + tail
}

/// What is printed about a service that is down: `tail` follows the seconds.
pub open spec fn down_line(name: Seq<char>, secs: u64, tail: Seq<char>) -> Seq<char> {
    "down: "@ + runit::link_path(name) + ": "@ + decimal::decimal(secs as nat) + "s"@ + tail
}

/// A name without white space.
pub open spec fn one_word(name: Seq<char>) -> bool {
    forall|i: int| 0 <= i < name.len() ==> !chars::white_space(#[trigger] name[i])
}

/// A name that is not mistaken for something else in what is printed: its link holds no
/// process number in brackets and no word that gives a number of seconds.
pub open spec fn harmless(name: Seq<char>) -> bool {
    let link = runit::link_path(name);
    &&& text::find(link + ": "@, "(pid "@) is None
    &&& no_seconds(text::words(link + ":"@))
}

/// Whether none of these words gives a number of seconds.
pub open spec fn no_seconds(ws: Seq<Seq<char>>) -> bool {
    forall|i: int| 0 <= i < ws.len() ==> !status::gives_seconds(status::kept(#[trigger] ws[i]))
}

/// A text that does not go on with the word before it: what stands in it before its first
/// white space is punctuation.
pub open spec fn ends_word(tail: Seq<char>) -> bool {
    forall|i: int|
        0 <= i < text::leading(tail, text::inked()) ==> !chars::alphanumeric(#[trigger] tail[i])
}

/// A word at the start of a text is its first word.
proof fn lemma_words_first(w: Seq<char>, rest: Seq<char>)
    requires
        w.len() > 0,
        forall|i: int| 0 <= i < w.len() ==> !chars::white_space(#[trigger] w[i]),
        rest.len() > 0 ==> chars::white_space(rest[0]),
    ensures
        text::words(w + rest) == seq![w] + text::words(rest),
{
    let s = w + rest;
    assert(s[0] == w[0]);
    text::lemma_leading_is(s, text::blank(), 0);
    assert(text::trim_start(s) =~= s);
    assert forall|j: int| 0 <= j < w.len() implies text::inked()(#[trigger] s[j]) by {
        assert(s[j] == w[j]);
    }
    if rest.len() > 0 {
        assert(s[w.len() as int] == rest[0]);
    }
    text::lemma_leading_is(s, text::inked(), w.len() as int);
    assert(s.take(w.len() as int) =~= w);
    assert(s.skip(w.len() as int) =~= rest);
}

/// White space at the start of a text adds no word.
proof fn lemma_words_after_space(s: Seq<char>)
    requires
        s.len() > 0,
        chars::white_space(s[0]),
    ensures
        text::words(s) == text::words(s.drop_first()),
{
    let t = s.drop_first();
    assert(text::blank()(s[0]));
    assert(text::leading(s, text::blank()) == 1 + text::leading(t, text::blank()));
    text::lemma_leading(t, text::blank());
    assert(text::trim_start(s) =~= text::trim_start(t));
}

/// A word, a space and more: the word comes first.
proof fn lemma_words_next(w: Seq<char>, rest: Seq<char>)
    requires
        w.len() > 0,
        forall|i: int| 0 <= i < w.len() ==> !chars::white_space(#[trigger] w[i]),
    ensures
        text::words(w + seq![' '] + rest) == seq![w] + text::words(rest),
{
    let more = seq![' '] + rest;
    assert(w + seq![' '] + rest =~= w + more);
    lemma_words_first(w, more);
    lemma_words_after_space(more);
    assert(more.drop_first() =~= rest);
}

/// The words of two texts with a space between them are those of the one and of the other.
proof fn lemma_words_split(a: Seq<char>, rest: Seq<char>)
    ensures
        text::words(a + seq![' '] + rest) == text::words(a) + text::words(rest),
    decreases a.len(),
{
    let s = a + seq![' '] + rest;
    if a.len() == 0 {
        lemma_words_after_space(s);
        assert(s.drop_first() =~= rest);
        assert(text::trim_start(a).len() == 0) by {
            text::lemma_leading(a, text::blank());
        }
        assert(text::words(a) + text::words(rest) =~= text::words(rest));
    } else if chars::white_space(a[0]) {
        assert(s[0] == a[0]);
        lemma_words_after_space(s);
        lemma_words_after_space(a);
        assert(s.drop_first() =~= a.drop_first() + seq![' '] + rest);
        lemma_words_split(a.drop_first(), rest);
    } else {
        let n = text::leading(a, text::inked()) as int;
        text::lemma_leading(a, text::inked());
        assert(text::inked()(a[0]));
        let w = a.take(n);
        let more = a.skip(n);
        assert forall|i: int| 0 <= i < w.len() implies !chars::white_space(#[trigger] w[i]) by {
            assert(text::inked()(a[i]));
        }
        assert(a =~= w + more);
        lemma_words_first(w, more);
        assert(s =~= w + (more + seq![' '] + rest));
        lemma_words_first(w, more + seq![' '] + rest);
        lemma_words_split(more, rest);
        assert(seq![w] + (text::words(more) + text::words(rest)) =~= text::words(a)
            + text::words(rest));
    }
}

/// A word that starts neither with a digit nor with an `s` gives no seconds.
proof fn lemma_no_seconds(w: Seq<char>)
    requires
        w.len() > 0,
        !chars::ascii_digit(w[0]),
        w[0] != 's',
    ensures
        !status::gives_seconds(status::kept(w)),
{
    text::lemma_trailing(w, status::punctuation());
    let k = status::kept(w);
    if status::gives_seconds(k) {
        assert(k[0] == w[0]);
        if k.len() > 1 {
            assert(k.drop_last()[0] == w[0]);
        }
    }
}

/// Words that give no seconds are passed over.
proof fn lemma_seconds_pass(w: Seq<char>, ws: Seq<Seq<char>>)
    requires
        !status::gives_seconds(status::kept(w)),
    ensures
        status::seconds(seq![w] + ws) == status::seconds(ws),
{
    assert((seq![w] + ws).drop_first() =~= ws);
}

/// Any number of words that give no seconds are passed over.
pub proof fn lemma_seconds_pass_all(before: Seq<Seq<char>>, ws: Seq<Seq<char>>)
    requires
        no_seconds(before),
    ensures
        status::seconds(before + ws) == status::seconds(ws),
    decreases before.len(),
{
    if before.len() == 0 {
        assert(before + ws =~= ws);
    } else {
        let less = before.drop_first();
        assert forall|i: int| 0 <= i < less.len() implies !status::gives_seconds(
            status::kept(#[trigger] less[i]),
        ) by {
            assert(less[i] == before[i + 1]);
        }
        lemma_seconds_pass_all(less, ws);
        assert((before + ws).drop_first() =~= less + ws);
        assert((before + ws)[0] == before[0]);
    }
}

/// A name of one word is harmless.
pub proof fn law_one_word_is_harmless(name: Seq<char>)
    requires
        one_word(name),
    ensures
        harmless(name),
{
    reveal_strlit("/var/service/");
    reveal_strlit(": ");
    reveal_strlit(":");
    reveal_strlit("(pid ");
    let link = runit::link_path(name);
    let s = link + ": "@;
    let w = link + ":"@;
    let open = "(pid "@;
    assert forall|i: int| 0 <= i < w.len() implies !chars::white_space(#[trigger] w[i]) by {
        if 13 <= i < link.len() {
            assert(w[i] == name[i - 13]);
        }
    }
    text::lemma_find(s, open);
    if let Some(i) = text::find(s, open) {
        let sub = s.subrange(i as int, i as int + 5);
        assert(s[i as int + 3] == sub[3]);
        assert(s[i as int + 4] == sub[4]);
        assert(chars::white_space(s[i as int + 4]));
        if i + 4 < w.len() {
            assert(s[i as int + 4] == w[i as int + 4]);
        }
    }
    lemma_words_first(w, Seq::empty());
    assert(w + Seq::<char>::empty() =~= w);
    assert(text::words(Seq::<char>::empty()).len() == 0) by {
        text::lemma_leading(Seq::<char>::empty(), text::blank());
    }
    assert(text::words(w) =~= seq![w]);
    lemma_no_seconds(w);
}

/// Digits and an `s` with punctuation behind them give the seconds.
proof fn lemma_seconds_found(secs: u64, tail: Seq<char>)
    requires
        ends_word(tail),
    ensures
        status::seconds(text::words(decimal::decimal(secs as nat) + "s"@ + tail)) == Some(secs),
{
    reveal_strlit("s");
    let d = decimal::decimal(secs as nat);
    let e = d + "s"@;
    decimal::law_decimal_is_digits(secs as nat);
    decimal::law_parse_undoes_decimal(secs);
    let n = text::leading(tail, text::inked()) as int;
    text::lemma_leading(tail, text::inked());
    let junk = tail.take(n);
    let rest = tail.skip(n);
    let w = e + junk;
    assert(e + tail =~= w + rest);
    assert forall|i: int| 0 <= i < w.len() implies !chars::white_space(#[trigger] w[i]) by {
        if i < d.len() {
            assert(w[i] == d[i]);
        } else if i >= e.len() {
            assert(w[i] == tail[i - e.len()]);
            assert(text::inked()(tail[i - e.len()]));
        }
    }
    lemma_words_first(w, rest);
    assert forall|j: int| w.len() - n <= j < w.len() implies status::punctuation()(
        #[trigger] w[j],
    ) by {
        assert(w[j] == tail[j - e.len()]);
    }
    assert(w[e.len() - 1] == 's');
    text::lemma_trailing_is(w, status::punctuation(), n);
    assert(status::kept(w) =~= e);
    assert(e.drop_last() =~= d);
    assert((seq![w] + text::words(rest))[0] == w);
}

/// Trimming leaves what ends in ink and cuts only what follows it.
proof fn lemma_trim_cuts_tail(head: Seq<char>, tail: Seq<char>) -> (cut: Seq<char>)
    requires
        head.len() > 0,
        !chars::white_space(head[0]),
        !chars::white_space(head.last()),
        ends_word(tail),
    ensures
        text::trim(head + tail) == head + cut,
        ends_word(cut),
        cut == tail.take(cut.len() as int),
        cut.len() <= tail.len(),
{
    let s = head + tail;
    assert(s[0] == head[0]);
    text::lemma_leading_is(s, text::blank(), 0);
    assert(text::trim_start(s) =~= s);
    text::lemma_trailing(s, text::blank());
    let gone = text::trailing(s, text::blank()) as int;
    if gone > tail.len() {
        assert(text::blank()(s[head.len() - 1]));
        assert(s[head.len() - 1] == head.last());
    }
    let cut = tail.take(tail.len() - gone);
    assert(text::trim(s) =~= head + cut);
    text::lemma_leading(cut, text::inked());
    text::lemma_leading(tail, text::inked());
    let n = text::leading(cut, text::inked()) as int;
    if n > text::leading(tail, text::inked()) {
        let k = text::leading(tail, text::inked()) as int;
        assert(text::inked()(cut[k]));
        assert(cut[k] == tail[k]);
    }
    assert forall|i: int| 0 <= i < n implies !chars::alphanumeric(#[trigger] cut[i]) by {
        assert(cut[i] == tail[i]);
    }
    cut
}

/// What is printed about a running service, in colour or not, is read as it is meant: the
/// state is `run`, the process number and the time are those that were printed.
pub proof fn law_run_line_is_read(
    raw: Seq<char>,
    name: Seq<char>,
    pid: nat,
    secs: u64,
    tail: Seq<char>,
)
    requires
        ansi::stripped(raw) == run_line(name, pid, secs, tail),
        harmless(name),
        ends_word(tail),
    ensures
        status::state_of(status::clean(raw)) == "run"@,
        status::pid_of(status::clean(raw)) == decimal::decimal(pid),
        status::time_of(status::clean(raw)) == status::uptime_text(secs as nat),
{
    reveal_strlit("run");
    reveal_strlit("run: ");
    reveal_strlit("/var/service/");
    reveal_strlit(": (pid ");
    reveal_strlit("(pid ");
    reveal_strlit(") ");
    reveal_strlit("s");
    reveal_strlit(": ");
    let p = decimal::decimal(pid);
    let d = decimal::decimal(secs as nat);
    decimal::law_decimal_is_digits(pid);
    decimal::law_decimal_is_digits(secs as nat);
    let link = runit::link_path(name);
    let before_pid = "run: "@ + link + ": "@;
    let after_pid = ") "@ + d + "s"@;
    let head = before_pid + "(pid "@ + p + after_pid;
    assert(run_line(name, pid, secs, tail) =~= head + tail);
    let cut = lemma_trim_cuts_tail(head, tail);
    let st = status::clean(raw);
    assert(st == head + cut);
    assert("run"@ =~= st.take(3));
    lemma_pid_is_read(name, p, after_pid + cut);
    assert(st =~= before_pid + "(pid "@ + p + (after_pid + cut));
    lemma_run_words(name, p, secs, cut);
    assert(st =~= "run:"@ + seq![' '] + (link + ":"@ + seq![' '] + ("(pid"@ + seq![' '] + (p + ")"@
        + seq![' '] + (d + "s"@ + cut))))) by {
        reveal_strlit("run:");
        reveal_strlit(":");
        reveal_strlit("(pid");
        reveal_strlit(")");
    }
}

/// The seconds of a running service are found behind its other words.
proof fn lemma_run_words(name: Seq<char>, p: Seq<char>, secs: u64, cut: Seq<char>)
    requires
        harmless(name),
        p.len() > 0,
        decimal::all_digits(p),
        ends_word(cut),
    ensures
        status::seconds(
            text::words(
                "run:"@ + seq![' '] + (runit::link_path(name) + ":"@ + seq![' '] + ("(pid"@
                    + seq![' '] + (p + ")"@ + seq![' '] + (decimal::decimal(secs as nat) + "s"@
                    + cut)))),
            ),
        ) == Some(secs),
{
    reveal_strlit("run:");
    reveal_strlit("(pid");
    reveal_strlit(")");
    let last = decimal::decimal(secs as nat) + "s"@ + cut;
    let wb = runit::link_path(name) + ":"@;
    let wd = p + ")"@;
    let r3 = wd + seq![' '] + last;
    let r2 = "(pid"@ + seq![' '] + r3;
    let r1 = wb + seq![' '] + r2;
    lemma_seconds_found(secs, cut);
    assert forall|i: int| 0 <= i < wd.len() implies !chars::white_space(#[trigger] wd[i]) by {
        if i < p.len() {
            assert(wd[i] == p[i]);
        }
    }
    lemma_words_next(wd, last);
    lemma_words_next("(pid"@, r3);
    lemma_words_split(wb, r2);
    lemma_words_next("run:"@, r1);
    assert(!status::gives_seconds(status::kept(wd))) by {
        assert(wd[p.len() - 1] == p.last());
        text::lemma_trailing_is(wd, status::punctuation(), 1);
        assert(status::kept(wd) =~= p);
    }
    lemma_no_seconds("(pid"@);
    lemma_no_seconds("run:"@);
    lemma_seconds_pass(wd, text::words(last));
    lemma_seconds_pass("(pid"@, text::words(r3));
    lemma_seconds_pass_all(text::words(wb), text::words(r2));
    lemma_seconds_pass("run:"@, text::words(r1));
}

/// The seconds of a service that is down are found behind its other words.
proof fn lemma_down_words(name: Seq<char>, secs: u64, cut: Seq<char>)
    requires
        harmless(name),
        ends_word(cut),
    ensures
        status::seconds(
            text::words(
                "down:"@ + seq![' '] + (runit::link_path(name) + ":"@ + seq![' '] + (
                decimal::decimal(secs as nat) + "s"@ + cut)),
            ),
        ) == Some(secs),
{
    reveal_strlit("down:");
    let last = decimal::decimal(secs as nat) + "s"@ + cut;
    let wb = runit::link_path(name) + ":"@;
    let r1 = wb + seq![' '] + last;
    lemma_seconds_found(secs, cut);
    lemma_words_split(wb, last);
    lemma_words_next("down:"@, r1);
    lemma_no_seconds("down:"@);
    lemma_seconds_pass_all(text::words(wb), text::words(last));
    lemma_seconds_pass("down:"@, text::words(r1));
}

/// Where a link with a colon and a space behind it holds no bracket before a process number,
/// such a bracket stands only behind these three.
proof fn lemma_no_bracket_in_link(st: Seq<char>, link: Seq<char>, at: int, i: int)
    requires
        0 <= at <= 6,
        forall|j: int| 0 <= j < at ==> #[trigger] st[j] != '(',
        at + link.len() + 2 <= st.len(),
        st.subrange(at, at + link.len() + 2) == link + ": "@,
        text::find(link + ": "@, "(pid "@) is None,
        text::stands_at(st, "(pid "@, i),
    ensures
        i >= at + link.len() + 2,
{
    reveal_strlit("(pid ");
    reveal_strlit(": ");
    let open = "(pid "@;
    let part = link + ": "@;
    let h = at + link.len() + 2;
    let sub = st.subrange(i, i + 5);
    assert(sub == open);
    assert(st[i] == sub[0]);
    assert(st[i + 1] == sub[1]);
    assert(st[i + 2] == sub[2]);
    assert(st[h - 2] == st.subrange(at, h)[link.len() as int]);
    assert(st[h - 1] == st.subrange(at, h)[link.len() as int + 1]);
    if at <= i && i + 5 <= h {
        assert(part.subrange(i - at, i - at + 5) =~= sub);
        text::lemma_find(part, open);
        assert(text::stands_at(part, open, i - at));
    }
}

/// The process number of a running service is found.
proof fn lemma_pid_is_read(name: Seq<char>, p: Seq<char>, rest: Seq<char>)
    requires
        harmless(name),
        p.len() > 0,
        decimal::all_digits(p),
        rest.len() > 0,
        rest[0] == ')',
    ensures
        status::pid_of("run: "@ + runit::link_path(name) + ": "@ + "(pid "@ + p + rest) == p,
{
    let link = runit::link_path(name);
    let open = "(pid "@;
    let st = "run: "@ + link + ": "@ + open + p + rest;
    let h = 5 + link.len() as int + 2;
    assert(text::find(st, open) == Some(h as nat) && st.skip(h + 5) == p + rest) by {
        reveal_strlit("run: ");
        reveal_strlit(": ");
        reveal_strlit("(pid ");
        assert(st.subrange(5, h) =~= link + ": "@);
        assert(st.subrange(h, h + 5) =~= open);
        assert forall|j: int| 0 <= j < h implies !#[trigger] text::stands_at(st, open, j) by {
            if text::stands_at(st, open, j) {
                lemma_no_bracket_in_link(st, link, 5, j);
            }
        }
        text::lemma_find_is(st, open, h);
        assert(st.skip(h + 5) =~= p + rest);
    }
    let tail = p + rest;
    assert forall|j: int| 0 <= j < p.len() implies text::other_than(')')(#[trigger] tail[j]) by {
        assert(tail[j] == p[j]);
    }
    assert(tail[p.len() as int] == ')');
    text::lemma_leading_is(tail, text::other_than(')'), p.len() as int);
    assert(tail.take(p.len() as int) =~= p);
    text::lemma_leading_is(p, text::blank(), 0);
    assert(text::trim_start(p) =~= p);
    text::lemma_trailing_is(p, text::blank(), 0);
    assert(text::trim(p) =~= p);
}

/// What is printed about a service that is down, in colour or not, is read as it is meant:
/// the state is `down`, the time is the one that was printed, and there is no process number
/// unless one is named further on.
pub proof fn law_down_line_is_read(
    raw: Seq<char>,
    name: Seq<char>,
    secs: u64,
    tail: Seq<char>,
)
    requires
        ansi::stripped(raw) == down_line(name, secs, tail),
        harmless(name),
        ends_word(tail),
    ensures
        status::state_of(status::clean(raw)) == "down"@,
        text::find(tail, "(pid "@) is None ==> status::pid_of(status::clean(raw)) == "-"@,
        status::time_of(status::clean(raw)) == status::uptime_text(secs as nat),
{
    reveal_strlit("run");
    reveal_strlit("down");
    reveal_strlit("down: ");
    reveal_strlit("/var/service/");
    reveal_strlit(": ");
    reveal_strlit("(pid ");
    reveal_strlit("s");
    let d = decimal::decimal(secs as nat);
    decimal::law_decimal_is_digits(secs as nat);
    let link = runit::link_path(name);
    let head = "down: "@ + link + ": "@ + d + "s"@;
    assert(down_line(name, secs, tail) =~= head + tail);
    let cut = lemma_trim_cuts_tail(head, tail);
    let st = status::clean(raw);
    assert(st == head + cut);
    assert("down"@ =~= st.take(4));
    assert(st[0] == 'd');
    assert(!"run"@.is_prefix_of(st)) by {
        if "run"@.is_prefix_of(st) {
            assert(st.take(3)[0] == "run"@[0]);
        }
    }
    assert(text::find(tail, "(pid "@) is None ==> text::find(st, "(pid "@) is None) by {
        text::lemma_find(st, "(pid "@);
        text::lemma_find(tail, "(pid "@);
        let h = 6 + link.len() as int + 2;
        if let Some(i) = text::find(st, "(pid "@) {
            assert(st.subrange(6, h) =~= link + ": "@);
            lemma_no_bracket_in_link(st, link, 6, i as int);
            assert(st[i as int] == st.subrange(i as int, i as int + 5)[0]);
            if i < h + d.len() {
                assert(st[i as int] == d[i - h]);
            }
            let k = i - head.len();
            assert(tail.subrange(k, k + 5) =~= st.subrange(i as int, i as int + 5));
            assert(text::stands_at(tail, "(pid "@, k));
        }
    }
    lemma_down_words(name, secs, cut);
    assert(st =~= "down:"@ + seq![' '] + (link + ":"@ + seq![' '] + (d + "s"@ + cut))) by {
        reveal_strlit("down:");
        reveal_strlit(":");
    }
}

} // verus!
