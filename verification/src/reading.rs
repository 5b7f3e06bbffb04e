//! What is read from the texts that the system gives: listings, statuses and scripts.

use vstd::prelude::*;

use crate::ansi;
use crate::chars;
use crate::decimal;
use crate::order;
use crate::pieces;
use crate::printed;
use crate::services;
use crate::status;
use crate::text;

verus! {

/// A status is cleaned of its escape sequences and of the white space at its ends.
pub proof fn law_status_is_cleaned(
    raw: Seq<char>,
    pre: Seq<char>,
    core: Seq<char>,
    post: Seq<char>,
)
    requires
        ansi::stripped(raw) == pre + core + post,
        pieces::all_blank(pre),
        pieces::ink_ends(core),
        pieces::all_blank(post),
    ensures
        status::clean(raw) == core,
{
    pieces::law_trim_cuts_blank_ends(pre, core, post);
}

/// A status that starts with `run` or with `down` names that state, whatever follows.
pub proof fn law_run_and_down_are_states(rest: Seq<char>)
    ensures
        status::state_of("run"@ + rest) == "run"@,
        status::state_of("down"@ + rest) == "down"@,
{
    reveal_strlit("run");
    reveal_strlit("down");
    let run = "run"@ + rest;
    let down = "down"@ + rest;
    assert(run.take(3) =~= "run"@);
    assert(down.take(4) =~= "down"@);
    assert(down[0] == 'd');
    if "run"@.is_prefix_of(down) {
        assert(down.take(3)[0] == "run"@[0]);
    }
}

/// A status that starts neither with `run` nor with `down` names what stands before its first
/// colon, or all of it if it has none, without the white space around it.
pub proof fn law_other_state_stands_before_colon(
    pre: Seq<char>,
    core: Seq<char>,
    post: Seq<char>,
    tail: Seq<char>,
)
    requires
        pieces::all_blank(pre),
        pieces::ink_ends(core),
        pieces::lacks(core, ':'),
        pieces::all_blank(post),
        tail.len() > 0 ==> tail[0] == ':',
        !"run"@.is_prefix_of(pre + core + post + tail),
        !"down"@.is_prefix_of(pre + core + post + tail),
    ensures
        status::state_of(pre + core + post + tail) == core,
{
    let head = pre + core + post;
    let s = head + tail;
    assert(pieces::lacks(head, ':')) by {
        assert forall|i: int| 0 <= i < head.len() implies #[trigger] head[i] != ':' by {
            if i < pre.len() {
                assert(head[i] == pre[i]);
            } else if i < pre.len() + core.len() {
                assert(head[i] == core[i - pre.len()]);
            } else {
                assert(head[i] == post[i - pre.len() - core.len()]);
            }
        }
    }
    pieces::law_before_ends_at_first(head, ':', tail.skip(1));
    if tail.len() > 0 {
        assert(s =~= head + seq![':'] + tail.skip(1));
    } else {
        assert(s =~= head);
    }
    pieces::law_trim_cuts_blank_ends(pre, core, post);
}

/// A service has the state `run` if and only if its status, once cleaned, starts with `run`, and
/// the state `down` if and only if it starts with `down`. Any other state is what the status
/// starts with.
pub proof fn law_state_is_how_status_starts(name: Seq<char>, report: services::ReportView)
    ensures
        ({
            let st = status::clean(report.status);
            let state = services::described(name, report).state;
            &&& state == "run"@ <==> "run"@.is_prefix_of(st)
            &&& state == "down"@ <==> "down"@.is_prefix_of(st)
            &&& state.is_prefix_of(st)
        }),
{
    reveal_strlit("run");
    reveal_strlit("down");
    let st = status::clean(report.status);
    let state = services::described(name, report).state;
    pieces::law_text_is_trimmed_text_between_blanks(ansi::stripped(report.status));
    if "run"@.is_prefix_of(st) {
        assert(st =~= "run"@ + st.skip(3));
        law_run_and_down_are_states(st.skip(3));
    } else if "down"@.is_prefix_of(st) {
        assert(st =~= "down"@ + st.skip(4));
        law_run_and_down_are_states(st.skip(4));
    } else {
        let head = text::before(st, ':');
        text::lemma_leading(st, text::other_than(':'));
        let (pre, post) = pieces::law_text_is_trimmed_text_between_blanks(head);
        if pre.len() > 0 {
            assert(pre[0] == head[0] && head[0] == st[0]);
            assert(chars::white_space(pre[0]));
        }
        assert(state =~= head.take(state.len() as int));
        assert(state =~= st.take(state.len() as int));
    }
    assert("run"@ != "down"@) by {
        assert("run"@.len() != "down"@.len());
    }
}

/// The process number stands between the first `(pid ` of a status and the next closing bracket,
/// with or without white space around it.
pub proof fn law_pid_stands_in_brackets(
    before: Seq<char>,
    pre: Seq<char>,
    core: Seq<char>,
    post: Seq<char>,
    after: Seq<char>,
)
    requires
        pieces::all_blank(pre),
        pieces::ink_ends(core),
        pieces::lacks(core, ')'),
        pieces::all_blank(post),
        forall|j: int|
            0 <= j < before.len() ==> !#[trigger] text::stands_at(
                before + "(pid "@ + (pre + core + post) + seq![')'] + after,
                "(pid "@,
                j,
            ),
    ensures
        status::pid_of(before + "(pid "@ + (pre + core + post) + seq![')'] + after) == core,
{
    reveal_strlit("(pid ");
    let open = "(pid "@;
    let inner = pre + core + post;
    let s = before + open + inner + seq![')'] + after;
    assert(s =~= before + open + (inner + seq![')'] + after));
    pieces::law_stands_where_text_holds_it(
        before,
        open,
        inner + seq![')'] + after,
        s,
        before.len() as int,
    );
    text::lemma_find_is(s, open, before.len() as int);
    let rest = s.skip(before.len() as int + 5);
    assert(rest =~= inner + seq![')'] + after);
    assert forall|j: int| 0 <= j < inner.len() implies text::other_than(')')(
        #[trigger] rest[j],
    ) by {
        if j < pre.len() {
            assert(rest[j] == pre[j]);
        } else if j < pre.len() + core.len() {
            assert(rest[j] == core[j - pre.len()]);
        } else {
            assert(rest[j] == post[j - pre.len() - core.len()]);
        }
    }
    assert(rest[inner.len() as int] == ')');
    text::lemma_leading_is(rest, text::other_than(')'), inner.len() as int);
    assert(rest.take(inner.len() as int) =~= inner);
    pieces::law_trim_cuts_blank_ends(pre, core, post);
}

/// Without `(pid ` there is a dash in place of a process number.
pub proof fn law_no_pid_is_a_dash(st: Seq<char>)
    requires
        forall|j: int| !#[trigger] text::stands_at(st, "(pid "@, j),
    ensures
        status::pid_of(st) == "-"@,
{
    text::lemma_find(st, "(pid "@);
}

/// Without a closing bracket behind the first `(pid ` there is a dash in place of a process
/// number.
pub proof fn law_open_pid_is_a_dash(before: Seq<char>, rest: Seq<char>)
    requires
        forall|j: int|
            0 <= j < before.len() ==> !#[trigger] text::stands_at(
                before + "(pid "@ + rest,
                "(pid "@,
                j,
            ),
        pieces::lacks(rest, ')'),
    ensures
        status::pid_of(before + "(pid "@ + rest) == "-"@,
{
    reveal_strlit("(pid ");
    let open = "(pid "@;
    let s = before + open + rest;
    pieces::law_stands_where_text_holds_it(before, open, rest, s, 0);
    text::lemma_find_is(s, open, before.len() as int);
    assert(s.skip(before.len() as int + 5) =~= rest);
    text::lemma_leading_is(rest, text::other_than(')'), rest.len() as int);
}

/// Whether a word tells seconds: `d` digits, an `s`, and then neither letters nor numbers.
pub open spec fn tells_seconds(w: Seq<char>, d: int) -> bool {
    &&& 0 <= d < w.len()
    &&& forall|i: int| 0 <= i < d ==> chars::ascii_digit(#[trigger] w[i])
    &&& w[d] == 's'
    &&& forall|i: int| d < i < w.len() ==> !chars::alphanumeric(#[trigger] w[i])
}

/// A word without its punctuation ends where its last letter or number does.
pub proof fn law_punctuation_is_cut(core: Seq<char>, junk: Seq<char>)
    requires
        core.len() > 0 ==> chars::alphanumeric(core.last()),
        forall|i: int| 0 <= i < junk.len() ==> !chars::alphanumeric(#[trigger] junk[i]),
    ensures
        status::kept(core + junk) == core,
{
    let w = core + junk;
    assert forall|j: int| w.len() - junk.len() <= j < w.len() implies status::punctuation()(
        #[trigger] w[j],
    ) by {
        assert(w[j] == junk[j - core.len()]);
    }
    if core.len() > 0 {
        assert(w[core.len() - 1] == core.last());
    }
    text::lemma_trailing_is(w, status::punctuation(), junk.len() as int);
    assert(w.take(core.len() as int) =~= core);
}

/// What is left of a word gives a number of seconds if and only if it is digits, perhaps none,
/// and an `s` behind them.
pub proof fn law_seconds_are_digits_and_an_s(ds: Seq<char>, c: char)
    ensures
        status::gives_seconds(ds.push(c)) <==> c == 's' && forall|i: int|
            0 <= i < ds.len() ==> chars::ascii_digit(#[trigger] ds[i]),
        !status::gives_seconds(Seq::<char>::empty()),
{
    assert(ds.push(c).drop_last() =~= ds);
}

/// A word is taken for a number of seconds if and only if it tells seconds.
pub proof fn law_word_is_taken_for_seconds(w: Seq<char>)
    ensures
        status::gives_seconds(status::kept(w)) <==> exists|d: int| tells_seconds(w, d),
        forall|d: int|
            #[trigger] tells_seconds(w, d) ==> status::kept(w).drop_last() == w.take(d),
{
    let k = status::kept(w);
    text::lemma_trailing(w, status::punctuation());
    if status::gives_seconds(k) {
        let d = k.len() - 1;
        assert(k.last() == w[d]);
        assert forall|i: int| 0 <= i < d implies chars::ascii_digit(#[trigger] w[i]) by {
            assert(k.drop_last()[i] == w[i]);
        }
        assert forall|i: int| d < i < w.len() implies !chars::alphanumeric(#[trigger] w[i]) by {
            assert(status::punctuation()(w[i]));
        }
        assert(tells_seconds(w, d));
    }
    assert forall|d: int| #[trigger] tells_seconds(w, d) implies status::kept(w).drop_last()
        == w.take(d) && status::gives_seconds(status::kept(w)) by {
        let core = w.take(d + 1);
        let junk = w.skip(d + 1);
        assert(w =~= core + junk);
        law_punctuation_is_cut(core, junk);
        assert(core.drop_last() =~= w.take(d));
        assert forall|i: int| 0 <= i < d implies chars::ascii_digit(#[trigger] w.take(d)[i]) by {
            assert(w.take(d)[i] == w[i]);
        }
    }
}

/// The time that is shown is that of the first word of a status that tells seconds. If its
/// digits are none, or make no number of 64 bits, no time is shown, whatever follows.
pub proof fn law_first_seconds_are_shown(
    st: Seq<char>,
    before: Seq<Seq<char>>,
    w: Seq<char>,
    d: int,
    after: Seq<Seq<char>>,
)
    requires
        text::words(st) == before + seq![w] + after,
        forall|i: int, e: int| 0 <= i < before.len() ==> !#[trigger] tells_seconds(before[i], e),
        tells_seconds(w, d),
    ensures
        ({
            let n = decimal::value(w.take(d));
            &&& d > 0 && n <= u64::MAX ==> status::time_of(st) == status::uptime_text(n)
            &&& d == 0 || n > u64::MAX ==> status::time_of(st) == Seq::<char>::empty()
        }),
{
    assert(printed::no_seconds(before)) by {
        assert forall|i: int| 0 <= i < before.len() implies !status::gives_seconds(
            status::kept(#[trigger] before[i]),
        ) by {
            law_word_is_taken_for_seconds(before[i]);
        }
    }
    let rest = seq![w] + after;
    assert(before + seq![w] + after =~= before + rest);
    printed::lemma_seconds_pass_all(before, rest);
    law_word_is_taken_for_seconds(w);
    assert(rest[0] == w);
    assert(w.take(d).len() == d);
    if d > 0 && decimal::value(w.take(d)) <= u64::MAX {
        pieces::law_digits_are_read(w.take(d), decimal::value(w.take(d)) as u64);
    } else {
        pieces::law_digits_are_read(w.take(d), 0);
    }
}

/// If no word of a status tells seconds, no time is shown.
pub proof fn law_no_seconds_no_time(st: Seq<char>)
    requires
        forall|i: int, e: int|
            0 <= i < text::words(st).len() ==> !#[trigger] tells_seconds(text::words(st)[i], e),
    ensures
        status::time_of(st) == Seq::<char>::empty(),
{
    let ws = text::words(st);
    assert(printed::no_seconds(ws)) by {
        assert forall|i: int| 0 <= i < ws.len() implies !status::gives_seconds(
            status::kept(#[trigger] ws[i]),
        ) by {
            law_word_is_taken_for_seconds(ws[i]);
        }
    }
    let none = Seq::<Seq<char>>::empty();
    assert(ws =~= ws + none);
    printed::lemma_seconds_pass_all(ws, none);
}

/// The text of a unit with an amount before it, or nothing if the amount is zero.
pub open spec fn unless_zero(n: nat, unit: char) -> Seq<char> {
    if n == 0 {
        Seq::empty()
    } else {
        decimal::decimal(n) + seq![unit]
    }
}

/// A time of days, hours, minutes and seconds is shown by its largest unit and the next one,
/// which is left out if there is nothing of it.
pub proof fn law_time_is_shown_in_two_units(d: nat, h: nat, m: nat, s: nat)
    requires
        h < 24,
        m < 60,
        s < 60,
    ensures
        status::uptime_text(s) == decimal::decimal(s) + seq!['s'],
        m > 0 ==> status::uptime_text(60 * m + s) == decimal::decimal(m) + seq!['m']
            + unless_zero(s, 's'),
        h > 0 ==> status::uptime_text(3600 * h + 60 * m + s) == decimal::decimal(h) + seq!['h']
            + unless_zero(m, 'm'),
        d > 0 ==> status::uptime_text(86400 * d + 3600 * h + 60 * m + s) == decimal::decimal(d)
            + seq!['d'] + unless_zero(h, 'h'),
{
    assert(status::uptime_text(s) =~= decimal::decimal(s) + seq!['s']);
    if m > 0 {
        let t = 60 * m + s;
        assert(t / 60 == m && t % 60 == s);
        assert(status::uptime_text(t) =~= decimal::decimal(m) + seq!['m'] + unless_zero(s, 's'));
    }
    if h > 0 {
        let t = 3600 * h + 60 * m + s;
        assert(t / 3600 == h && (t % 3600) / 60 == m);
        assert(status::uptime_text(t) =~= decimal::decimal(h) + seq!['h'] + unless_zero(m, 'm'));
    }
    if d > 0 {
        let t = 86400 * d + 3600 * h + 60 * m + s;
        assert(t / 86400 == d && (t % 86400) / 3600 == h);
        assert(status::uptime_text(t) =~= decimal::decimal(d) + seq!['d'] + unless_zero(h, 'h'));
    }
}

/// A line of a script that is passed over: all of it is white space, or its first ink is `#`.
pub open spec fn passed_over(line: Seq<char>) -> bool {
    pieces::all_blank(line) || exists|k: int| starts_comment(line, k)
}

/// Whether the first ink of a line is a `#`, at the index `k`.
pub open spec fn starts_comment(line: Seq<char>, k: int) -> bool {
    0 <= k < line.len() && line[k] == '#' && pieces::all_blank(line.take(k))
}

/// A line holds a command if and only if it is not passed over.
pub proof fn law_line_holds_command_unless_passed_over(line: Seq<char>)
    ensures
        services::holds_command(line) <==> !passed_over(line),
{
    reveal_strlit("#");
    let k = text::leading(line, text::blank()) as int;
    text::lemma_leading(line, text::blank());
    let t = text::trim_start(line);
    let (pre, post) = pieces::law_text_is_trimmed_text_between_blanks(line);
    assert(pieces::all_blank(line.take(k))) by {
        assert forall|i: int| 0 <= i < k implies chars::white_space(#[trigger] line.take(k)[i]) by {
            assert(text::blank()(line[i]));
        }
    }
    if text::trim(line).len() == 0 {
        assert forall|i: int| 0 <= i < line.len() implies chars::white_space(
            #[trigger] line[i],
        ) by {
            if i < pre.len() {
                assert(line[i] == pre[i]);
            } else {
                assert(line[i] == post[i - pre.len()]);
            }
        }
    } else {
        let core = text::trim(line);
        assert(line[pre.len() as int] == core[0]);
        assert(!pieces::all_blank(line));
        assert(k < line.len()) by {
            if k >= line.len() {
                assert(text::blank()(line[pre.len() as int]));
            }
        }
        assert(t[0] == line[k]);
        assert("#"@.is_prefix_of(t) <==> line[k] == '#') by {
            if line[k] == '#' {
                assert(t.take(1) =~= "#"@);
            }
            if "#"@.is_prefix_of(t) {
                assert(t.take(1)[0] == "#"@[0]);
            }
        }
        assert(line[k] == '#' ==> starts_comment(line, k));
        assert forall|j: int| #[trigger] starts_comment(line, j) implies j == k by {
            if k < j {
                assert(line.take(j)[k] == line[k]);
            } else if j < k {
                assert(text::blank()(line[j]));
            }
        }
    }
}

/// The program of a line is what follows the last slash of its first word: neither the white
/// space before that word nor anything behind it counts.
pub proof fn law_program_is_end_of_first_word(
    pre: Seq<char>,
    dirs: Seq<char>,
    program: Seq<char>,
    rest: Seq<char>,
)
    requires
        pieces::all_blank(pre),
        pieces::all_ink(dirs),
        dirs.len() > 0 ==> dirs.last() == '/',
        pieces::all_ink(program),
        pieces::lacks(program, '/'),
        rest.len() > 0 ==> chars::white_space(rest[0]),
    ensures
        (dirs + program).len() > 0 ==> services::program_of(pre + (dirs + program) + rest)
            == program,
{
    let w = dirs + program;
    if w.len() > 0 {
        assert(pieces::all_ink(w)) by {
            assert forall|i: int| 0 <= i < w.len() implies !chars::white_space(#[trigger] w[i]) by {
                if i < dirs.len() {
                    assert(w[i] == dirs[i]);
                } else {
                    assert(w[i] == program[i - dirs.len()]);
                }
            }
        }
        pieces::law_words_are_runs_of_ink(pre, w, rest);
        assert((seq![w] + text::words(rest))[0] == w);
        if dirs.len() > 0 {
            pieces::law_after_last_starts_behind_last(dirs.drop_last(), '/', program);
            assert(w =~= dirs.drop_last() + seq!['/'] + program);
        } else {
            pieces::law_after_last_starts_behind_last(dirs, '/', program);
            assert(w =~= program);
        }
    }
}

/// What stands behind the first word of a line never changes its program.
pub proof fn law_arguments_do_not_change_program(w: Seq<char>, a: Seq<char>, b: Seq<char>)
    requires
        w.len() > 0,
        pieces::all_ink(w),
        a.len() > 0 ==> chars::white_space(a[0]),
        b.len() > 0 ==> chars::white_space(b[0]),
    ensures
        services::program_of(w + a) == services::program_of(w + b),
{
    let none = Seq::<char>::empty();
    pieces::law_words_are_runs_of_ink(none, w, a);
    pieces::law_words_are_runs_of_ink(none, w, b);
    assert(none + w + a =~= w + a);
    assert(none + w + b =~= w + b);
    assert((seq![w] + text::words(a))[0] == w);
    assert((seq![w] + text::words(b))[0] == w);
}

/// The command of a script is the program of the last of its lines that is not passed over:
/// neither the lines before that one, nor those behind it, nor its arguments count.
pub proof fn law_last_command_counts(
    script: Seq<char>,
    before: Seq<Seq<char>>,
    pre: Seq<char>,
    dirs: Seq<char>,
    program: Seq<char>,
    rest: Seq<char>,
    after: Seq<Seq<char>>,
)
    requires
        text::lines(script) == before + seq![pre + (dirs + program) + rest] + after,
        forall|i: int| 0 <= i < after.len() ==> passed_over(#[trigger] after[i]),
        (dirs + program).len() > 0,
        (dirs + program)[0] != '#',
        pieces::all_blank(pre),
        pieces::all_ink(dirs),
        dirs.len() > 0 ==> dirs.last() == '/',
        pieces::all_ink(program),
        pieces::lacks(program, '/'),
        rest.len() > 0 ==> chars::white_space(rest[0]),
    ensures
        services::command_of(script) == program,
{
    let w = dirs + program;
    let line = pre + w + rest;
    law_program_is_end_of_first_word(pre, dirs, program, rest);
    assert(!chars::white_space(w[0])) by {
        if dirs.len() > 0 {
            assert(w[0] == dirs[0]);
        } else {
            assert(w[0] == program[0]);
        }
    }
    assert(line[pre.len() as int] == w[0]);
    assert(!passed_over(line)) by {
        assert forall|k: int| !#[trigger] starts_comment(line, k) by {
            if starts_comment(line, k) {
                if k > pre.len() {
                    assert(line.take(k)[pre.len() as int] == w[0]);
                } else if k < pre.len() {
                    assert(line[k] == pre[k]);
                    assert(chars::white_space(pre[k]));
                }
            }
        }
    }
    law_line_holds_command_unless_passed_over(line);
    lemma_last_command_line(before, line, after);
}

/// The last line that is not passed over is the one that counts.
proof fn lemma_last_command_line(before: Seq<Seq<char>>, line: Seq<char>, after: Seq<Seq<char>>)
    requires
        services::holds_command(line),
        forall|i: int| 0 <= i < after.len() ==> passed_over(#[trigger] after[i]),
    ensures
        services::last_command_line(before + seq![line] + after) == Some(line),
    decreases after.len(),
{
    let all = before + seq![line] + after;
    if after.len() == 0 {
        assert(all.last() == line);
    } else {
        law_line_holds_command_unless_passed_over(after.last());
        assert(all.last() == after.last());
        assert(passed_over(after[after.len() - 1]));
        assert(all.drop_last() =~= before + seq![line] + after.drop_last());
        assert forall|i: int| 0 <= i < after.drop_last().len() implies passed_over(
            #[trigger] after.drop_last()[i],
        ) by {
            assert(after.drop_last()[i] == after[i]);
        }
        lemma_last_command_line(before, line, after.drop_last());
    }
}

/// A script of which every line is passed over has no command.
pub proof fn law_no_command_line_no_command(script: Seq<char>)
    requires
        forall|i: int|
            0 <= i < text::lines(script).len() ==> passed_over(#[trigger] text::lines(script)[i]),
    ensures
        services::command_of(script) == Seq::<char>::empty(),
{
    lemma_no_command_line(text::lines(script));
}

/// Of lines that are all passed over none holds a command.
proof fn lemma_no_command_line(ls: Seq<Seq<char>>)
    requires
        forall|i: int| 0 <= i < ls.len() ==> passed_over(#[trigger] ls[i]),
    ensures
        services::last_command_line(ls) is None,
    decreases ls.len(),
{
    if ls.len() > 0 {
        assert(passed_over(ls[ls.len() - 1]));
        law_line_holds_command_unless_passed_over(ls.last());
        assert forall|i: int| 0 <= i < ls.drop_last().len() implies passed_over(
            #[trigger] ls.drop_last()[i],
        ) by {
            assert(ls.drop_last()[i] == ls[i]);
        }
        lemma_no_command_line(ls.drop_last());
    }
}

/// The first line of a listing gives the first name, without the white space around it; if it is
/// blank, it gives none. The rest of the listing gives the other names, in its order.
pub proof fn law_each_line_gives_its_name(
    pre: Seq<char>,
    name: Seq<char>,
    post: Seq<char>,
    rest: Seq<char>,
)
    requires
        pieces::all_blank(pre),
        pieces::ink_ends(name),
        pieces::all_blank(post),
        pieces::lacks(pre + name + post, '\n'),
    ensures
        services::listed_names((pre + name + post).push('\n') + rest) == (if name.len() > 0 {
            seq![name]
        } else {
            Seq::empty()
        }) + services::listed_names(rest),
        services::listed_names(pre + name + post) == (if name.len() > 0 {
            seq![name]
        } else {
            Seq::empty()
        }),
{
    let line = pre + name + post;
    let none = Seq::<char>::empty();
    lemma_first_line_gives_its_name(pre, name, post, rest);
    pieces::law_trim_cuts_blank_ends(pre, name, post);
    reveal(Seq::filter);
    if line.len() > 0 {
        pieces::law_lines_end_at_feeds(line, none);
        let trims = text::lines(line).map_values(services::trimming());
        assert(trims =~= seq![name]);
        assert(trims =~= Seq::<Seq<char>>::empty().push(name));
        Seq::<Seq<char>>::empty().lemma_filter_push(name, services::not_empty());
        assert(Seq::<Seq<char>>::empty().push(name) =~= seq![name]);
    } else {
        pieces::law_lines_end_at_feeds(none, none);
        assert(line =~= none);
        assert(text::lines(line).map_values(services::trimming()) =~= Seq::<Seq<char>>::empty());
    }
}

/// The name of the line up to the first line feed comes first.
proof fn lemma_first_line_gives_its_name(
    pre: Seq<char>,
    name: Seq<char>,
    post: Seq<char>,
    rest: Seq<char>,
)
    requires
        pieces::all_blank(pre),
        pieces::ink_ends(name),
        pieces::all_blank(post),
        pieces::lacks(pre + name + post, '\n'),
    ensures
        services::listed_names((pre + name + post).push('\n') + rest) == (if name.len() > 0 {
            seq![name]
        } else {
            Seq::empty()
        }) + services::listed_names(rest),
{
    let line = pre + name + post;
    let all = line.push('\n') + rest;
    let kept = if line.len() > 0 && line.last() == '\r' {
        line.drop_last()
    } else {
        line
    };
    assert(text::lines(all) == seq![kept] + text::lines(rest)) by {
        if line.len() > 0 && line.last() == '\r' {
            assert(pieces::lacks(kept, '\n')) by {
                assert forall|i: int| 0 <= i < kept.len() implies #[trigger] kept[i] != '\n' by {
                    assert(kept[i] == line[i]);
                }
            }
            assert(line =~= kept.push('\r'));
            pieces::law_lines_end_at_feeds(kept, rest);
        } else {
            pieces::law_lines_end_at_feeds(line, rest);
        }
    }
    assert(text::trim(kept) == name) by {
        if line.len() > 0 && line.last() == '\r' {
            if post.len() > 0 {
                let less = post.drop_last();
                assert(kept =~= pre + name + less);
                assert forall|i: int| 0 <= i < less.len() implies chars::white_space(
                    #[trigger] less[i],
                ) by {
                    assert(less[i] == post[i]);
                }
                pieces::law_trim_cuts_blank_ends(pre, name, less);
            } else if name.len() > 0 {
                assert(line.last() == name.last());
            } else {
                let less = pre.drop_last();
                assert(kept =~= less + name + post);
                assert forall|i: int| 0 <= i < less.len() implies chars::white_space(
                    #[trigger] less[i],
                ) by {
                    assert(less[i] == pre[i]);
                }
                pieces::law_trim_cuts_blank_ends(less, name, post);
            }
        } else {
            pieces::law_trim_cuts_blank_ends(pre, name, post);
        }
    }
    let trims = text::lines(rest).map_values(services::trimming());
    let none = Seq::<Seq<char>>::empty();
    assert(text::lines(all).map_values(services::trimming()) =~= seq![name] + trims);
    lemma_filter_first(name, trims);
    assert(none + trims.filter(services::not_empty()) =~= trims.filter(services::not_empty()));
}

/// The first of some texts is left out if and only if it is empty.
proof fn lemma_filter_first(first: Seq<char>, more: Seq<Seq<char>>)
    ensures
        (seq![first] + more).filter(services::not_empty()) == (if first.len() > 0 {
            seq![first]
        } else {
            Seq::<Seq<char>>::empty()
        }) + more.filter(services::not_empty()),
    decreases more.len(),
{
    reveal(Seq::filter);
    let all = seq![first] + more;
    let none = Seq::<Seq<char>>::empty();
    if more.len() == 0 {
        assert(all =~= none.push(first));
        none.lemma_filter_push(first, services::not_empty());
        assert(all.filter(services::not_empty()) =~= (if first.len() > 0 {
            seq![first]
        } else {
            none
        }) + more.filter(services::not_empty()));
    } else {
        let less = more.drop_last();
        lemma_filter_first(first, less);
        assert(all =~= (seq![first] + less).push(more.last()));
        assert(more =~= less.push(more.last()));
        (seq![first] + less).lemma_filter_push(more.last(), services::not_empty());
        less.lemma_filter_push(more.last(), services::not_empty());
        assert(all.filter(services::not_empty()) =~= (if first.len() > 0 {
            seq![first]
        } else {
            none
        }) + more.filter(services::not_empty()));
    }
}

/// A service has the name under which it was asked about. Its state, its process number and its
/// time are those of its cleaned status, its command is that of its script, and it is enabled
/// unless the file that keeps it from being started exists.
pub proof fn law_service_is_as_reported(name: Seq<char>, report: services::ReportView)
    ensures
        ({
            let svc = services::described(name, report);
            let st = status::clean(report.status);
            &&& svc.name == name
            &&& svc.enabled <==> !report.down_file_exists
            &&& svc.state == status::state_of(st)
            &&& svc.pid == status::pid_of(st)
            &&& svc.time == status::time_of(st)
            &&& svc.command == services::command_of(report.script)
        }),
{
}

/// The services that are found are those of the names, each as its own report describes it.
pub proof fn law_each_name_has_its_report(
    names: Seq<Seq<char>>,
    reports: Seq<services::ReportView>,
    i: int,
)
    ensures
        services::all_described(names, reports).len() == names.len(),
        0 <= i < names.len() ==> services::all_described(names, reports)[i]
            == services::described(names[i], reports[i]),
{
}

/// Services of the same name stand in the list in the order in which they were found.
pub proof fn law_same_names_keep_their_order(
    found: Seq<services::SvcView>,
    list: Seq<services::SvcView>,
    i: int,
    j: int,
) -> (at: (int, int))
    requires
        services::sorted_by_name(found, list),
        0 <= i < j < found.len(),
        found[i].name == found[j].name,
    ensures
        0 <= at.0 < at.1 < list.len(),
        list[at.0] == found[i],
        list[at.1] == found[j],
{
    let names = services::names_of(found);
    let order = choose|order: Seq<int>| services::sorted_as(found, list, order);
    order::lemma_order_covers(names, order, i);
    order::lemma_order_covers(names, order, j);
    let p = choose|p: int| 0 <= p < order.len() && order[p] == i;
    let q = choose|q: int| 0 <= q < order.len() && order[q] == j;
    if q < p {
        assert(order::belongs_before(names, order[q], order[p]));
        order::lemma_name_before_irreflexive(names[i]);
    }
    (p, q)
}

} // verus!
