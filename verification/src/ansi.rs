//! Terminal escape sequences.

use vstd::prelude::*;

use crate::chars;
use crate::text;

verus! {

/// The character that starts an escape sequence.
pub const ESCAPE: char = '\x1b';

/// Anything but an ASCII letter, as a predicate.
pub open spec fn not_letter() -> spec_fn(char) -> bool {
    |c: char| !chars::ascii_letter(c)
}

/// The text `s` without its escape sequences. A sequence starts with the escape character
/// and ends with the next ASCII letter, or with the text if no letter follows.
pub open spec fn stripped(s: Seq<char>) -> Seq<char>
    decreases s.len(),
{
    if s.len() == 0 {
        Seq::empty()
    } else if s[0] != ESCAPE {
        seq![s[0]] + stripped(s.drop_first())
    } else {
        let n = sequence_len(s);
        if n >= s.len() {
            Seq::empty()
        } else {
            stripped(s.skip(n as int))
        }
    }
}

/// The length of the escape sequence that starts `s`, its letter counted.
pub open spec fn sequence_len(s: Seq<char>) -> nat {
    text::leading(s.drop_first(), not_letter()) + 2
}

/// Whether `s` holds no escape character.
pub open spec fn escape_free(s: Seq<char>) -> bool {
    forall|i: int| 0 <= i < s.len() ==> #[trigger] s[i] != ESCAPE
}

/// The text `s` without its escape sequences.
pub fn strip_ansi(s: &str) -> (out: String)
    ensures
        out@ == stripped(s@),
{
    let cs = text::chars_of(s);
    let mut out = String::new();
    let mut i: usize = 0;
    assert(cs@.skip(0) =~= cs@);
    while i < cs.len()
        invariant
            i <= cs@.len(),
            out@ + stripped(cs@.skip(i as int)) == stripped(cs@),
        decreases cs@.len() - i,
    {
        let ghost rest = cs@.skip(i as int);
        let ghost start = i as int;
        let c = cs[i];
        i += 1;
        assert(rest.drop_first() =~= cs@.skip(i as int));
        if c == ESCAPE {
            while i < cs.len() && !chars::is_ascii_letter(cs[i])
                invariant
                    start + 1 <= i <= cs@.len(),
                    forall|j: int| start + 1 <= j < i ==> not_letter()(#[trigger] cs@[j]),
                decreases cs@.len() - i,
            {
                i += 1;
            }
            proof {
                assert forall|j: int| 0 <= j < i - start - 1 implies not_letter()(
                    #[trigger] rest.drop_first()[j],
                ) by {
                    assert(not_letter()(cs@[start + 1 + j]));
                }
                text::lemma_leading_is(rest.drop_first(), not_letter(), i - start - 1);
            }
            if i < cs.len() {
                i += 1;
                assert(rest.skip(i - start) =~= cs@.skip(i as int));
                if i == cs.len() {
                    assert(cs@.skip(i as int) =~= Seq::<char>::empty());
                }
            } else {
                assert(cs@.skip(i as int) =~= Seq::<char>::empty());
            }
        } else {
            let ghost was = out@;
            out.push(c);
            assert(out@ + stripped(cs@.skip(i as int)) =~= was + stripped(rest));
        }
    }
    assert(cs@.skip(i as int) =~= Seq::<char>::empty());
    assert(out@ + Seq::<char>::empty() =~= out@);
    out
}

/// No escape character is left in a stripped text.
pub proof fn law_stripped_is_escape_free(s: Seq<char>)
    ensures
        escape_free(stripped(s)),
    decreases s.len(),
{
    if s.len() > 0 {
        if s[0] != ESCAPE {
            law_stripped_is_escape_free(s.drop_first());
        } else if sequence_len(s) < s.len() {
            law_stripped_is_escape_free(s.skip(sequence_len(s) as int));
        }
    }
}

/// What stands before the first escape character stays as it is.
pub proof fn law_stripping_keeps_plain_start(plain: Seq<char>, rest: Seq<char>)
    requires
        escape_free(plain),
    ensures
        stripped(plain + rest) == plain + stripped(rest),
    decreases plain.len(),
{
    if plain.len() == 0 {
        assert(plain + rest =~= rest);
        assert(plain + stripped(rest) =~= stripped(rest));
    } else {
        let tail = plain.drop_first();
        assert((plain + rest).drop_first() =~= tail + rest);
        assert(plain[0] == (plain + rest)[0]);
        assert(escape_free(tail)) by {
            assert forall|i: int| 0 <= i < tail.len() implies #[trigger] tail[i] != ESCAPE by {
                assert(tail[i] == plain[i + 1]);
            }
        }
        law_stripping_keeps_plain_start(tail, rest);
        assert(seq![plain[0]] + (tail + stripped(rest)) =~= plain + stripped(rest));
    }
}

/// A text without escape characters is its own stripped text.
pub proof fn law_stripping_keeps_plain_text(s: Seq<char>)
    requires
        escape_free(s),
    ensures
        stripped(s) == s,
{
    law_stripping_keeps_plain_start(s, Seq::empty());
    assert(s + Seq::<char>::empty() =~= s);
}

/// Stripping a stripped text changes nothing.
pub proof fn law_stripping_is_idempotent(s: Seq<char>)
    ensures
        stripped(stripped(s)) == stripped(s),
{
    law_stripped_is_escape_free(s);
    law_stripping_keeps_plain_text(stripped(s));
}

/// An escape sequence, from the escape character to its letter, disappears.
pub proof fn law_stripping_drops_a_sequence(
    plain: Seq<char>,
    params: Seq<char>,
    letter: char,
    rest: Seq<char>,
)
    requires
        escape_free(plain),
        forall|i: int| 0 <= i < params.len() ==> !chars::ascii_letter(#[trigger] params[i]),
        chars::ascii_letter(letter),
    ensures
        stripped(plain + seq![ESCAPE] + params + seq![letter] + rest) == plain + stripped(rest),
{
    let tail = seq![ESCAPE] + params + seq![letter] + rest;
    let inner = params + seq![letter] + rest;
    assert(plain + seq![ESCAPE] + params + seq![letter] + rest =~= plain + tail);
    law_stripping_keeps_plain_start(plain, tail);
    assert(tail.drop_first() =~= inner);
    assert forall|j: int| 0 <= j < params.len() implies not_letter()(#[trigger] inner[j]) by {
        assert(inner[j] == params[j]);
    }
    assert(inner[params.len() as int] == letter);
    text::lemma_leading_is(inner, not_letter(), params.len() as int);
    if rest.len() == 0 {
        assert(stripped(tail) =~= stripped(rest));
    } else {
        assert(tail.skip(params.len() as int + 2) =~= rest);
    }
}

} // verus!
