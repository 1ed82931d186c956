//! Splitting one command line into a program and its arguments.
use vstd::prelude::*;
use crate::error::{ExecutionError, error_detail};
use crate::text::{is_ws, is_whitespace};
use vstd::string::StringExecFns;

verus! {

/// The character sequences of a sequence of strings.
pub open spec fn views(v: Seq<String>) -> Seq<Seq<char>> {
    v.map_values(|s: String| s@)
}

/// `s` without its leading whitespace.
pub open spec fn trim_front(s: Seq<char>) -> Seq<char>
    decreases s.len(),
{
    if s.len() > 0 && is_ws(s[0]) {
        trim_front(s.drop_first())
    } else {
        s
    }
}

/// `s` without its trailing whitespace.
pub open spec fn trim_back(s: Seq<char>) -> Seq<char>
    decreases s.len(),
{
    if s.len() > 0 && is_ws(s.last()) {
        trim_back(s.drop_last())
    } else {
        s
    }
}

/// `s` without leading and trailing whitespace.
pub open spec fn trimmed(s: Seq<char>) -> Seq<char> {
    trim_back(trim_front(s))
}

/// A blank or a tab: what separates words outside double quotes.
pub open spec fn is_separator(c: char) -> bool {
    c == ' ' || c == '\t'
}

/// The words of `s`, appended to `acc`, scanning with the quoting state
/// `quoted` and the partial word `cur`. A double quote toggles quoting and is
/// dropped; a separator outside quotes ends a non-empty word; every other
/// character joins the current word.
pub open spec fn words_from(s: Seq<char>, quoted: bool, cur: Seq<char>, acc: Seq<Seq<char>>) -> Seq<
    Seq<char>,
>
    decreases s.len(),
{
    if s.len() == 0 {
        if cur.len() > 0 {
            acc.push(cur)
        } else {
            acc
        }
    } else {
        let c = s[0];
        let rest = s.drop_first();
        if c == '"' {
            words_from(rest, !quoted, cur, acc)
        } else if is_separator(c) && !quoted {
            if cur.len() > 0 {
                words_from(rest, quoted, seq![], acc.push(cur))
            } else {
                words_from(rest, quoted, cur, acc)
            }
        } else {
            words_from(rest, quoted, cur.push(c), acc)
        }
    }
}

/// The words of a command line: its trimmed text split as `words_from` says,
/// starting outside quotes.
pub open spec fn command_words(line: Seq<char>) -> Seq<Seq<char>> {
    words_from(trimmed(line), false, seq![], seq![])
}

proof fn lemma_trim_front(s: Seq<char>, a: int)
    requires
        0 <= a <= s.len(),
        forall|k: int| 0 <= k < a ==> is_ws(s[k]),
        a == s.len() || !is_ws(s[a]),
    ensures
        trim_front(s) == s.subrange(a, s.len() as int),
    decreases a,
{
    if a == 0 {
        assert(s.subrange(0, s.len() as int) =~= s);
    } else {
        let t = s.drop_first();
        assert forall|k: int| 0 <= k < a - 1 implies is_ws(t[k]) by {
            assert(t[k] == s[k + 1]);
        }
        lemma_trim_front(t, a - 1);
        assert(t.subrange(a - 1, t.len() as int) =~= s.subrange(a, s.len() as int));
    }
}

proof fn lemma_trim_back(s: Seq<char>, b: int)
    requires
        0 <= b <= s.len(),
        forall|k: int| b <= k < s.len() ==> is_ws(s[k]),
        b == 0 || !is_ws(s[b - 1]),
    ensures
        trim_back(s) == s.subrange(0, b),
    decreases s.len() - b,
{
    if b == s.len() {
        assert(s.subrange(0, b) =~= s);
    } else {
        let t = s.drop_last();
        lemma_trim_back(t, b);
        assert(t.subrange(0, b) =~= s.subrange(0, b));
    }
}

/// The bounds `(a, b)` of `line` with leading and trailing whitespace cut off.
pub fn trim_bounds(line: &str) -> (r: (usize, usize))
    ensures
        r.0 <= r.1 <= line@.len(),
        line@.subrange(r.0 as int, r.1 as int) == trimmed(line@),
{
    let n = line.unicode_len();
    let mut a: usize = 0;
    while a < n && is_whitespace(line.get_char(a))
        invariant
            n == line@.len(),
            a <= n,
            forall|k: int| 0 <= k < a ==> is_ws(line@[k]),
        decreases n - a,
    {
        a = a + 1;
    }
    proof {
        lemma_trim_front(line@, a as int);
    }
    let ghost f = line@.subrange(a as int, n as int);
    let mut b: usize = n;
    while b > a && is_whitespace(line.get_char(b - 1))
        invariant
            n == line@.len(),
            a <= b <= n,
            forall|k: int| b <= k < n ==> is_ws(line@[k]),
        decreases b,
    {
        b = b - 1;
    }
    proof {
        assert forall|k: int| b - a <= k < f.len() implies is_ws(f[k]) by {
            assert(f[k] == line@[k + a]);
        }
        if b > a {
            assert(f[b - a - 1] == line@[b - 1]);
        }
        lemma_trim_back(f, b - a);
        assert(f.subrange(0, b - a) =~= line@.subrange(a as int, b as int));
    }
    (a, b)
}

/// Splits a command line into its program and its arguments. Words are
/// separated by blanks and tabs outside double quotes; a double quote toggles
/// quoting and is dropped, and an unterminated quote runs to the end of the
/// line. A line without any word is refused.
pub fn parse_command_line(line: &str) -> (r: Result<(String, Vec<String>), ExecutionError>)
    ensures
        match r {
            Ok((cmd, args)) => {
                &&& command_words(line@).len() > 0
                &&& cmd@ == command_words(line@)[0]
                &&& views(args@) == command_words(line@).drop_first()
            },
            Err(e) => {
                &&& command_words(line@).len() == 0
                &&& e is CommandParsingError
                &&& error_detail(e) == "No command found"@
            },
        },
{
    let (a, b) = trim_bounds(line);
    let ghost t = line@.subrange(a as int, b as int);
    let mut words: Vec<String> = Vec::new();
    let mut cur = String::new();
    let mut quoted = false;
    let mut i: usize = a;
    proof {
        assert(views(words@) =~= Seq::<Seq<char>>::empty());
        assert(cur@ =~= Seq::<char>::empty());
    }
    while i < b
        invariant
            a <= i <= b <= line@.len(),
            t == line@.subrange(a as int, b as int),
            words_from(t, false, seq![], seq![]) == words_from(
                line@.subrange(i as int, b as int),
                quoted,
                cur@,
                views(words@),
            ),
        decreases b - i,
    {
        let ghost rest = line@.subrange(i as int, b as int);
        assert(rest.drop_first() =~= line@.subrange(i + 1, b as int));
        let c = line.get_char(i);
        assert(rest[0] == c);
        if c == '"' {
            quoted = !quoted;
        } else if (c == ' ' || c == '\t') && !quoted {
            if cur.unicode_len() > 0 {
                proof {
                    assert(views(words@.push(cur)) =~= views(words@).push(cur@));
                }
                words.push(cur);
                cur = String::new();
                assert(cur@ =~= seq![]);
            }
        } else {
            cur.push(c);
        }
        i = i + 1;
    }
    if cur.unicode_len() > 0 {
        proof {
            assert(views(words@.push(cur)) =~= views(words@).push(cur@));
        }
        words.push(cur);
    }
    assert(line@.subrange(b as int, b as int).len() == 0);
    proof {
        assert(views(Seq::<String>::empty()) =~= Seq::<Seq<char>>::empty());
    }
    if words.len() == 0 {
        return Err(ExecutionError::CommandParsingError(String::from_str("No command found")));
    }
    let cmd = words.remove(0);
    proof {
        assert(views(words@) =~= command_words(line@).drop_first());
    }
    Ok((cmd, words))
}

} // verus!
