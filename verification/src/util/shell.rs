//! Quoting words for a POSIX shell.

use vstd::prelude::*;

use crate::util::text::{chars_of, push_char};

verus! {

/// Characters that a shell reads literally outside of quotes.
pub open spec fn is_shell_safe(c: char) -> bool {
    ||| ('a' <= c && c <= 'z')
    ||| ('A' <= c && c <= 'Z')
    ||| ('0' <= c && c <= '9')
    ||| c == '-' || c == '_' || c == '.' || c == '/' || c == ':'
    ||| c == ',' || c == '+' || c == '=' || c == '@' || c == '%'
}

/// Whether every character of `s` is read literally outside of quotes.
pub open spec fn all_shell_safe(s: Seq<char>) -> bool {
    forall|i: int| 0 <= i < s.len() ==> is_shell_safe(#[trigger] s[i])
}

/// The text of `s` for use between single quotes: each `'` becomes `'\''`.
pub open spec fn escape_single_quotes(s: Seq<char>) -> Seq<char>
    decreases s.len(),
{
    if s.len() == 0 {
        seq![]
    } else if s.last() == '\'' {
        escape_single_quotes(s.drop_last()) + seq!['\'', '\\', '\'', '\'']
    } else {
        escape_single_quotes(s.drop_last()).push(s.last())
    }
}

/// How `s` is written as one shell word: bare when it is non-empty and all
/// safe, otherwise in single quotes.
pub open spec fn quoted(s: Seq<char>) -> Seq<char> {
    if s.len() > 0 && all_shell_safe(s) {
        s
    } else {
        seq!['\''] + escape_single_quotes(s) + seq!['\'']
    }
}

fn is_shell_safe_char(c: char) -> (r: bool)
    ensures
        r == is_shell_safe(c),
{
    ('a' <= c && c <= 'z') || ('A' <= c && c <= 'Z') || ('0' <= c && c <= '9') || c == '-' || c
        == '_' || c == '.' || c == '/' || c == ':' || c == ',' || c == '+' || c == '=' || c
        == '@' || c == '%'
}

/// Quote `s` so that a POSIX shell reads it back as one word equal to `s`.
pub fn quote(s: &str) -> (r: String)
    ensures
        r@ == quoted(s@),
{
    let cs = chars_of(s);
    let n = cs.len();
    let mut safe = n > 0;
    let mut i: usize = 0;
    while i < n
        invariant
            n == cs@.len(),
            i <= n,
            safe == (n > 0 && forall|j: int| 0 <= j < i ==> is_shell_safe(#[trigger] cs@[j])),
        decreases n - i,
    {
        safe = safe && is_shell_safe_char(cs[i]);
        i = i + 1;
    }
    if safe {
        return s.to_owned();
    }
    let mut r = String::new();
    push_char(&mut r, '\'');
    let mut k: usize = 0;
    while k < n
        invariant
            n == cs@.len(),
            k <= n,
            r@ == seq!['\''] + escape_single_quotes(cs@.subrange(0, k as int)),
        decreases n - k,
    {
        let c = cs[k];
        let ghost before = cs@.subrange(0, k as int);
        assert(cs@.subrange(0, k + 1).drop_last() =~= before);
        if c == '\'' {
            push_char(&mut r, '\'');
            push_char(&mut r, '\\');
            push_char(&mut r, '\'');
            push_char(&mut r, '\'');
        } else {
            push_char(&mut r, c);
        }
        k = k + 1;
        assert(r@ =~= seq!['\''] + escape_single_quotes(cs@.subrange(0, k as int)));
    }
    push_char(&mut r, '\'');
    assert(cs@.subrange(0, n as int) =~= cs@);
    assert(r@ =~= quoted(s@));
    r
}


/// `s` put in front of what a read gave, if it gave anything.
pub open spec fn prepend(s: Seq<char>, read: Option<Seq<char>>) -> Option<Seq<char>> {
    match read {
        Some(r) => Some(s + r),
        None => None,
    }
}

/// How a POSIX shell reads `w` as a single word, inside single quotes or not:
/// within quotes every character but `'` stands for itself; outside, `'`
/// opens quotes, `\` takes the next character literally, and the safe
/// characters stand for themselves. Anything else (white space, an
/// operator, an unclosed quote) does not read as one literal word.
pub open spec fn shell_read(w: Seq<char>, in_quotes: bool) -> Option<Seq<char>>
    decreases w.len(),
{
    if w.len() == 0 {
        if in_quotes {
            None
        } else {
            Some(seq![])
        }
    } else if in_quotes {
        if w[0] == '\'' {
            shell_read(w.drop_first(), false)
        } else {
            prepend(seq![w[0]], shell_read(w.drop_first(), true))
        }
    } else if w[0] == '\'' {
        shell_read(w.drop_first(), true)
    } else if w[0] == '\\' {
        if w.len() >= 2 {
            prepend(seq![w[1]], shell_read(w.subrange(2, w.len() as int), false))
        } else {
            None
        }
    } else if is_shell_safe(w[0]) {
        prepend(seq![w[0]], shell_read(w.drop_first(), false))
    } else {
        None
    }
}

proof fn lemma_read_safe(s: Seq<char>)
    requires
        all_shell_safe(s),
    ensures
        shell_read(s, false) == Some(s),
    decreases s.len(),
{
    if s.len() > 0 {
        assert(is_shell_safe(s[0]));
        assert(all_shell_safe(s.drop_first())) by {
            assert forall|i: int| 0 <= i < s.drop_first().len() implies is_shell_safe(
                #[trigger] s.drop_first()[i],
            ) by {
                assert(s.drop_first()[i] == s[i + 1]);
            }
        }
        lemma_read_safe(s.drop_first());
        assert(seq![s[0]] + s.drop_first() =~= s);
    }
}

proof fn lemma_read_escaped(s: Seq<char>, rest: Seq<char>)
    ensures
        shell_read(escape_single_quotes(s) + rest, true) == prepend(s, shell_read(rest, true)),
    decreases s.len(),
{
    if s.len() == 0 {
        assert(escape_single_quotes(s) + rest =~= rest);
        match shell_read(rest, true) {
            Some(r) => {
                assert(s + r =~= r);
            },
            None => {},
        }
    } else {
        let c = s.last();
        let init = s.drop_last();
        let piece: Seq<char> = if c == '\'' {
            seq!['\'', '\\', '\'', '\'']
        } else {
            seq![c]
        };
        assert(escape_single_quotes(s) == escape_single_quotes(init) + piece);
        assert(escape_single_quotes(s) + rest =~= escape_single_quotes(init) + (piece + rest));
        lemma_read_escaped(init, piece + rest);
        if c == '\'' {
            let w = piece + rest;
            assert(w[0] == '\'');
            assert(w.drop_first() =~= seq!['\\', '\'', '\''] + rest);
            let w1 = w.drop_first();
            assert(w1[0] == '\\' && w1[1] == '\'');
            assert(w1.subrange(2, w1.len() as int) =~= seq!['\''] + rest);
            let w2 = w1.subrange(2, w1.len() as int);
            assert(w2.drop_first() =~= rest);
            assert(shell_read(w2, false) == shell_read(rest, true));
            assert(shell_read(w1, false) == prepend(seq!['\''], shell_read(rest, true)));
            assert(shell_read(w, true) == prepend(seq![c], shell_read(rest, true)));
        } else {
            let w = piece + rest;
            assert(w.drop_first() =~= rest);
            assert(shell_read(w, true) == prepend(seq![c], shell_read(rest, true)));
        }
        match shell_read(rest, true) {
            Some(r) => {
                assert(init + (seq![c] + r) =~= s + r);
            },
            None => {},
        }
    }
}

/// Quoting is safe: a POSIX shell reads the quoted text back as one word
/// equal to the text that was quoted.
pub proof fn lemma_quote_reads_back(s: Seq<char>)
    ensures
        shell_read(quoted(s), false) == Some(s),
{
    if s.len() > 0 && all_shell_safe(s) {
        lemma_read_safe(s);
    } else {
        let w = seq!['\''] + escape_single_quotes(s) + seq!['\''];
        assert(w.drop_first() =~= escape_single_quotes(s) + seq!['\'']);
        lemma_read_escaped(s, seq!['\'']);
        let q = seq!['\''];
        assert(q.drop_first() =~= Seq::<char>::empty());
        assert(q[0] == '\'');
        assert(shell_read(Seq::<char>::empty(), false) == Some(Seq::<char>::empty()));
        assert(shell_read(q, true) == Some(Seq::<char>::empty()));
        assert(s + Seq::<char>::empty() =~= s);
    }
}

} // verus!
