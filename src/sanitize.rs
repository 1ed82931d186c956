//! Reducing a command's executable to its bare name.
use vstd::prelude::*;
use crate::text::{is_ws, is_whitespace, str_eq};
use crate::tokenize::views;
use vstd::string::StringExecFns;

verus! {

/// The words of `s` split at whitespace, appended to `acc`, with `cur` the
/// word being read.
pub open spec fn ws_words_from(s: Seq<char>, cur: Seq<char>, acc: Seq<Seq<char>>) -> Seq<Seq<char>>
    decreases s.len(),
{
    if s.len() == 0 {
        if cur.len() > 0 {
            acc.push(cur)
        } else {
            acc
        }
    } else if is_ws(s[0]) {
        if cur.len() > 0 {
            ws_words_from(s.drop_first(), seq![], acc.push(cur))
        } else {
            ws_words_from(s.drop_first(), cur, acc)
        }
    } else {
        ws_words_from(s.drop_first(), cur.push(s[0]), acc)
    }
}

/// The maximal runs of non-whitespace characters of `s`, in order.
pub open spec fn ws_words(s: Seq<char>) -> Seq<Seq<char>> {
    ws_words_from(s, seq![], seq![])
}

/// The words joined with one blank between neighbours.
pub open spec fn join_words(w: Seq<Seq<char>>) -> Seq<char>
    decreases w.len(),
{
    if w.len() == 0 {
        seq![]
    } else if w.len() == 1 {
        w[0]
    } else {
        w[0] + seq![' '] + join_words(w.drop_first())
    }
}

/// A path separator, of either platform family.
pub open spec fn is_path_sep(c: char) -> bool {
    c == '/' || c == '\\'
}

pub open spec fn has_path_sep(t: Seq<char>) -> bool {
    exists|i: int| 0 <= i < t.len() && is_path_sep(t[i])
}

/// Whether `t` ends in a separator or in a `.` component (a final `.` that
/// begins the path or follows a separator): the parts of a path that do not
/// name its final component.
pub open spec fn has_removable_tail(t: Seq<char>) -> bool {
    t.len() > 0 && (is_path_sep(t.last()) || (t.last() == '.' && (t.len() == 1 || is_path_sep(
        t[t.len() - 2],
    ))))
}

/// `t` without trailing separators and trailing `.` components.
pub open spec fn strip_tail(t: Seq<char>) -> Seq<char>
    decreases t.len(),
{
    if has_removable_tail(t) {
        strip_tail(t.drop_last())
    } else {
        t
    }
}

/// What follows the last path separator of `t` (all of `t` if it has none).
pub open spec fn after_last_sep(t: Seq<char>) -> Seq<char>
    decreases t.len(),
{
    if t.len() == 0 || is_path_sep(t.last()) {
        seq![]
    } else {
        after_last_sep(t.drop_last()).push(t.last())
    }
}

/// The final component of path `t`, trailing separators and `.` components
/// ignored. Where there is none (the path is only a root, a leading `.`, or
/// nothing), or it is the parent marker `..`, the path is kept whole.
pub open spec fn base_name(t: Seq<char>) -> Seq<char> {
    let c = after_last_sep(strip_tail(t));
    if c.len() == 0 || c == seq!['.', '.'] {
        t
    } else {
        c
    }
}

/// The command with its first word reduced to its final path component, the
/// words rejoined with single blanks; unchanged where the first word holds no
/// path separator, or where there is no word.
pub open spec fn sanitized(s: Seq<char>) -> Seq<char> {
    let w = ws_words(s);
    if w.len() > 0 && has_path_sep(w[0]) {
        join_words(w.update(0, base_name(w[0])))
    } else {
        s
    }
}

/// The tool that a command runs: the final path component of its first word.
pub open spec fn tool_of(s: Seq<char>) -> Option<Seq<char>> {
    let w = ws_words(s);
    if w.len() == 0 {
        None
    } else {
        Some(base_name(w[0]))
    }
}

/// A non-empty word without whitespace.
pub open spec fn plain_word(t: Seq<char>) -> bool {
    t.len() > 0 && forall|k: int| 0 <= k < t.len() ==> !is_ws(#[trigger] t[k])
}

proof fn lemma_ws_words_plain(s: Seq<char>, cur: Seq<char>, acc: Seq<Seq<char>>)
    requires
        forall|k: int| 0 <= k < cur.len() ==> !is_ws(#[trigger] cur[k]),
        forall|i: int| 0 <= i < acc.len() ==> plain_word(#[trigger] acc[i]),
    ensures
        forall|i: int|
            0 <= i < ws_words_from(s, cur, acc).len() ==> plain_word(
                #[trigger] ws_words_from(s, cur, acc)[i],
            ),
    decreases s.len(),
{
    if cur.len() > 0 {
        assert(plain_word(cur));
        assert forall|i: int| 0 <= i < acc.push(cur).len() implies plain_word(
            #[trigger] acc.push(cur)[i],
        ) by {
            if i < acc.len() {
                assert(acc.push(cur)[i] == acc[i]);
            }
        }
    }
    if s.len() == 0 {
        if cur.len() > 0 {
            assert(ws_words_from(s, cur, acc) == acc.push(cur));
        } else {
            assert(ws_words_from(s, cur, acc) == acc);
        }
    } else if is_ws(s[0]) {
        if cur.len() > 0 {
            lemma_ws_words_plain(s.drop_first(), seq![], acc.push(cur));
            assert(ws_words_from(s, cur, acc) == ws_words_from(s.drop_first(), seq![], acc.push(cur)));
        } else {
            lemma_ws_words_plain(s.drop_first(), cur, acc);
            assert(ws_words_from(s, cur, acc) == ws_words_from(s.drop_first(), cur, acc));
        }
    } else {
        assert forall|k: int| 0 <= k < cur.push(s[0]).len() implies !is_ws(
            #[trigger] cur.push(s[0])[k],
        ) by {
            if k < cur.len() {
                assert(cur.push(s[0])[k] == cur[k]);
            }
        }
        lemma_ws_words_plain(s.drop_first(), cur.push(s[0]), acc);
        assert(ws_words_from(s, cur, acc) == ws_words_from(s.drop_first(), cur.push(s[0]), acc));
    }
}

proof fn lemma_ws_words_append(x: Seq<char>, y: Seq<char>, cur: Seq<char>, acc: Seq<Seq<char>>)
    requires
        forall|k: int| 0 <= k < x.len() ==> !is_ws(#[trigger] x[k]),
    ensures
        ws_words_from(x + y, cur, acc) == ws_words_from(y, cur + x, acc),
    decreases x.len(),
{
    if x.len() == 0 {
        assert(x + y =~= y);
        assert(cur + x =~= cur);
    } else {
        assert((x + y)[0] == x[0]);
        assert((x + y).drop_first() =~= x.drop_first() + y);
        lemma_ws_words_append(x.drop_first(), y, cur.push(x[0]), acc);
        assert(cur.push(x[0]) + x.drop_first() =~= cur + x);
    }
}

proof fn lemma_ws_words_join(w: Seq<Seq<char>>, acc: Seq<Seq<char>>)
    requires
        forall|i: int| 0 <= i < w.len() ==> plain_word(#[trigger] w[i]),
    ensures
        ws_words_from(join_words(w), seq![], acc) == acc + w,
    decreases w.len(),
{
    if w.len() == 0 {
        assert(acc + w =~= acc);
    } else if w.len() == 1 {
        assert(plain_word(w[0]));
        lemma_ws_words_append(w[0], seq![], seq![], acc);
        assert(w[0] + Seq::<char>::empty() =~= w[0]);
        assert(Seq::<char>::empty() + w[0] =~= w[0]);
        assert(acc.push(w[0]) =~= acc + w);
    } else {
        let rest = join_words(w.drop_first());
        assert(plain_word(w[0]));
        assert(join_words(w) == w[0] + seq![' '] + rest);
        assert(w[0] + seq![' '] + rest =~= w[0] + (seq![' '] + rest));
        lemma_ws_words_append(w[0], seq![' '] + rest, seq![], acc);
        assert(Seq::<char>::empty() + w[0] =~= w[0]);
        assert((seq![' '] + rest).drop_first() =~= rest);
        assert(is_ws((seq![' '] + rest)[0]));
        assert forall|i: int| 0 <= i < w.drop_first().len() implies plain_word(
            #[trigger] w.drop_first()[i],
        ) by {
            assert(w.drop_first()[i] == w[i + 1]);
        }
        lemma_ws_words_join(w.drop_first(), acc.push(w[0]));
        assert(acc.push(w[0]) + w.drop_first() =~= acc + w);
    }
}

proof fn lemma_strip_keeps_plain(t: Seq<char>)
    requires
        forall|k: int| 0 <= k < t.len() ==> !is_ws(#[trigger] t[k]),
    ensures
        forall|k: int|
            0 <= k < strip_tail(t).len() ==> !is_ws(#[trigger] strip_tail(t)[k]),
    decreases t.len(),
{
    if has_removable_tail(t) {
        let u = t.drop_last();
        assert forall|k: int| 0 <= k < u.len() implies !is_ws(#[trigger] u[k]) by {
            assert(u[k] == t[k]);
        }
        lemma_strip_keeps_plain(u);
        assert(strip_tail(t) == strip_tail(u));
    } else {
        assert(strip_tail(t) == t);
    }
}

proof fn lemma_after_sep_plain(t: Seq<char>)
    requires
        forall|k: int| 0 <= k < t.len() ==> !is_ws(#[trigger] t[k]),
    ensures
        forall|k: int| 0 <= k < after_last_sep(t).len() ==> !is_ws(#[trigger] after_last_sep(t)[k]),
        !has_path_sep(after_last_sep(t)),
    decreases t.len(),
{
    if t.len() == 0 || is_path_sep(t.last()) {
    } else {
        let u = t.drop_last();
        assert forall|k: int| 0 <= k < u.len() implies !is_ws(#[trigger] u[k]) by {
            assert(u[k] == t[k]);
        }
        lemma_after_sep_plain(u);
        let a = after_last_sep(u);
        assert(after_last_sep(t) == a.push(t.last()));
        assert forall|k: int| 0 <= k < a.push(t.last()).len() implies !is_ws(
            #[trigger] a.push(t.last())[k],
        ) by {
            if k < a.len() {
                assert(a.push(t.last())[k] == a[k]);
            }
        }
        assert(!has_path_sep(a.push(t.last()))) by {
            assert forall|i: int| 0 <= i < a.push(t.last()).len() implies !is_path_sep(
                a.push(t.last())[i],
            ) by {
                if i < a.len() {
                    assert(a.push(t.last())[i] == a[i]);
                }
            }
        }
    }
}

proof fn lemma_base_name_plain(t: Seq<char>)
    requires
        plain_word(t),
    ensures
        plain_word(base_name(t)),
        has_path_sep(base_name(t)) ==> base_name(t) == t,
{
    lemma_strip_keeps_plain(t);
    lemma_after_sep_plain(strip_tail(t));
}

/// Sanitizing is idempotent: a sanitized command comes back unchanged.
pub proof fn lemma_sanitize_idempotent(s: Seq<char>)
    ensures
        sanitized(sanitized(s)) == sanitized(s),
{
    let w = ws_words(s);
    if w.len() > 0 && has_path_sep(w[0]) {
        lemma_ws_words_plain(s, seq![], seq![]);
        assert(plain_word(w[0]));
        lemma_base_name_plain(w[0]);
        let b = base_name(w[0]);
        let w2 = w.update(0, b);
        assert forall|i: int| 0 <= i < w2.len() implies plain_word(#[trigger] w2[i]) by {
            if i != 0 {
                assert(w2[i] == w[i]);
            }
        }
        lemma_ws_words_join(w2, seq![]);
        assert(Seq::<Seq<char>>::empty() + w2 =~= w2);
        assert(ws_words(sanitized(s)) == w2);
        if has_path_sep(b) {
            assert(base_name(b) == b);
            assert(w2.update(0, base_name(w2[0])) =~= w2);
        }
    }
}

/// Splits `s` at whitespace into its words.
pub fn split_whitespace_words(s: &str) -> (r: Vec<String>)
    ensures
        views(r@) == ws_words(s@),
{
    let n = s.unicode_len();
    let mut words: Vec<String> = Vec::new();
    let mut cur = String::new();
    let mut i: usize = 0;
    proof {
        assert(views(words@) =~= Seq::<Seq<char>>::empty());
        assert(cur@ =~= Seq::<char>::empty());
        assert(s@.subrange(0, n as int) =~= s@);
    }
    while i < n
        invariant
            n == s@.len(),
            i <= n,
            ws_words(s@) == ws_words_from(s@.subrange(i as int, n as int), cur@, views(words@)),
        decreases n - i,
    {
        let ghost rest = s@.subrange(i as int, n as int);
        assert(rest.drop_first() =~= s@.subrange(i + 1, n as int));
        let c = s.get_char(i);
        assert(rest[0] == c);
        if is_whitespace(c) {
            if cur.unicode_len() > 0 {
                proof {
                    assert(views(words@.push(cur)) =~= views(words@).push(cur@));
                }
                words.push(cur);
                cur = String::new();
                assert(cur@ =~= seq![]);
            }
        } else {
            cur.push(c);
        }
        i = i + 1;
    }
    if cur.unicode_len() > 0 {
        proof {
            assert(views(words@.push(cur)) =~= views(words@).push(cur@));
        }
        words.push(cur);
    }
    assert(s@.subrange(n as int, n as int).len() == 0);
    words
}

/// Joins words with one blank between neighbours.
pub fn join_with_blanks(w: &Vec<String>) -> (r: String)
    ensures
        r@ == join_words(views(w@)),
{
    let mut r = String::new();
    let n = w.len();
    if n == 0 {
        assert(views(w@) =~= Seq::<Seq<char>>::empty());
        return r;
    }
    let mut i: usize = n;
    // built from the back: r holds the join of the words from i on
    r.append(w[n - 1].as_str());
    i = n - 1;
    proof {
        assert(views(w@).subrange(n - 1, n as int) =~= seq![w@[n - 1]@]);
    }
    while i > 0
        invariant
            n == w@.len(),
            0 <= i < n,
            r@ == join_words(views(w@).subrange(i as int, n as int)),
        decreases i,
    {
        let ghost tail = views(w@).subrange(i as int, n as int);
        let mut next = String::new();
        next.append(w[i - 1].as_str());
        next.push(' ');
        next.append(r.as_str());
        proof {
            let longer = views(w@).subrange(i - 1, n as int);
            assert(longer.drop_first() =~= tail);
            assert(longer[0] == w@[i - 1]@);
            assert(next@ =~= longer[0] + seq![' '] + join_words(tail));
        }
        r = next;
        i = i - 1;
    }
    assert(views(w@).subrange(0, n as int) =~= views(w@));
    r
}

proof fn lemma_after_last_sep(t: Seq<char>, st: int)
    requires
        0 <= st <= t.len(),
        forall|k: int| st <= k < t.len() ==> !is_path_sep(t[k]),
        st == 0 || is_path_sep(t[st - 1]),
    ensures
        after_last_sep(t) == t.subrange(st, t.len() as int),
    decreases t.len() - st,
{
    if st == t.len() {
        assert(t.subrange(st, st) =~= Seq::<char>::empty());
    } else {
        lemma_after_last_sep(t.drop_last(), st);
        assert(t.drop_last().subrange(st, t.len() - 1).push(t.last()) =~= t.subrange(
            st,
            t.len() as int,
        ));
    }
}

/// Whether the first `e` characters of `t` end in a separator or a `.`
/// component.
fn removable_tail_at(t: &str, e: usize) -> (r: bool)
    requires
        e <= t@.len(),
    ensures
        r == has_removable_tail(t@.subrange(0, e as int)),
{
    if e == 0 {
        return false;
    }
    let c = t.get_char(e - 1);
    if c == '/' || c == '\\' {
        return true;
    }
    if c != '.' {
        return false;
    }
    if e == 1 {
        return true;
    }
    let b = t.get_char(e - 2);
    b == '/' || b == '\\'
}

/// The final path component of `t`, as `base_name` says.
pub fn base_name_of(t: &str) -> (r: String)
    ensures
        r@ == base_name(t@),
{
    let n = t.unicode_len();
    let mut e: usize = n;
    proof {
        assert(t@.subrange(0, n as int) =~= t@);
    }
    while removable_tail_at(t, e)
        invariant
            n == t@.len(),
            e <= n,
            strip_tail(t@) == strip_tail(t@.subrange(0, e as int)),
        decreases e,
    {
        assert(t@.subrange(0, e as int).drop_last() =~= t@.subrange(0, e - 1));
        e = e - 1;
    }
    let ghost p = t@.subrange(0, e as int);
    let mut st: usize = e;
    while st > 0 && !(t.get_char(st - 1) == '/' || t.get_char(st - 1) == '\\')
        invariant
            n == t@.len(),
            st <= e <= n,
            forall|k: int| st <= k < e ==> !is_path_sep(t@[k]),
        decreases st,
    {
        st = st - 1;
    }
    proof {
        assert forall|k: int| st <= k < p.len() implies !is_path_sep(p[k]) by {
            assert(p[k] == t@[k]);
        }
        if st > 0 {
            assert(p[st - 1] == t@[st - 1]);
        }
        lemma_after_last_sep(p, st as int);
        assert(p.subrange(st as int, e as int) =~= t@.subrange(st as int, e as int));
    }
    let c = t.substring_char(st, e);
    let is_parent = str_eq(c, "..");
    proof {
        reveal_strlit("..");
        assert(".."@ =~= seq!['.', '.']);
    }
    if st == e || is_parent {
        String::from_str(t)
    } else {
        String::from_str(c)
    }
}

/// Whether `t` holds a path separator.
pub fn holds_path_sep(t: &str) -> (r: bool)
    ensures
        r == has_path_sep(t@),
{
    let n = t.unicode_len();
    let mut i: usize = 0;
    while i < n
        invariant
            n == t@.len(),
            i <= n,
            forall|k: int| 0 <= k < i ==> !is_path_sep(t@[k]),
        decreases n - i,
    {
        let c = t.get_char(i);
        if c == '/' || c == '\\' {
            return true;
        }
        i = i + 1;
    }
    false
}

/// Reduces the command's first word to its final path component when it
/// holds a path separator, rejoining the words with single blanks; any other
/// command comes back unchanged. Arguments, quoting and shell characters are
/// left as they are.
pub fn sanitize_command(raw_command: &str) -> (r: String)
    ensures
        r@ == sanitized(raw_command@),
{
    let mut parts = split_whitespace_words(raw_command);
    if parts.len() == 0 {
        return String::from_str(raw_command);
    }
    if !holds_path_sep(parts[0].as_str()) {
        return String::from_str(raw_command);
    }
    let base = base_name_of(parts[0].as_str());
    let ghost before = views(parts@);
    parts.set(0, base);
    proof {
        assert(views(parts@) =~= before.update(0, base_name(before[0])));
    }
    join_with_blanks(&parts)
}

/// The tool a command runs: the final path component of its first word, or
/// nothing for a command without words.
pub fn get_tool_from_command(command: &str) -> (r: Option<String>)
    ensures
        match r {
            Some(t) => tool_of(command@) == Some(t@),
            None => tool_of(command@) is None,
        },
{
    let parts = split_whitespace_words(command);
    if parts.len() == 0 {
        return None;
    }
    Some(base_name_of(parts[0].as_str()))
}

} // verus!
