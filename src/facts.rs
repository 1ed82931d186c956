//! The table of discovered facts and `{name}` placeholder resolution.
use vstd::prelude::*;
use crate::text::str_eq;
use vstd::string::StringExecFns;

verus! {

/// The value most recently written under `k` in a log of writes.
pub open spec fn latest(e: Seq<(String, String)>, k: Seq<char>) -> Option<Seq<char>>
    decreases e.len(),
{
    if e.len() == 0 {
        None
    } else if e.last().0@ == k {
        Some(e.last().1@)
    } else {
        latest(e.drop_last(), k)
    }
}

/// Named string values discovered while a query runs. Keys are unique and the
/// last write under a key wins.
pub struct FactTable {
    entries: Vec<(String, String)>,
}

impl View for FactTable {
    type V = Map<Seq<char>, Seq<char>>;

    closed spec fn view(&self) -> Map<Seq<char>, Seq<char>> {
        Map::new(|k: Seq<char>| latest(self.entries@, k) is Some, |k: Seq<char>| latest(self.entries@, k)->0)
    }
}

impl FactTable {
    /// An empty table.
    pub fn new() -> (r: FactTable)
        ensures
            r@ == Map::<Seq<char>, Seq<char>>::empty(),
    {
        let r = FactTable { entries: Vec::new() };
        assert(r@ =~= Map::<Seq<char>, Seq<char>>::empty());
        r
    }

    /// Forgets every fact.
    pub fn clear(&mut self)
        ensures
            final(self)@ == Map::<Seq<char>, Seq<char>>::empty(),
    {
        self.entries.clear();
        assert(self@ =~= Map::<Seq<char>, Seq<char>>::empty());
    }

    /// Writes `value` under `key`, replacing what was there.
    pub fn insert(&mut self, key: String, value: String)
        ensures
            final(self)@ == old(self)@.insert(key@, value@),
    {
        let ghost before = self.entries@;
        let ghost (k, v) = (key@, value@);
        self.entries.push((key, value));
        proof {
            assert(self.entries@.drop_last() =~= before);
            assert(self@ =~= old(self)@.insert(k, v));
        }
    }

    /// The value written under `key`, if any.
    pub fn get(&self, key: &str) -> (r: Option<&String>)
        ensures
            match r {
                Some(v) => self@.contains_key(key@) && self@[key@] == v@,
                None => !self@.contains_key(key@),
            },
    {
        let n = self.entries.len();
        let mut i: usize = n;
        proof {
            assert(self.entries@.subrange(0, n as int) =~= self.entries@);
        }
        while i > 0
            invariant
                n == self.entries@.len(),
                i <= n,
                latest(self.entries@, key@) == latest(self.entries@.subrange(0, i as int), key@),
            decreases i,
        {
            let ghost pre = self.entries@.subrange(0, i as int);
            assert(pre.drop_last() =~= self.entries@.subrange(0, i - 1));
            if str_eq(self.entries[i - 1].0.as_str(), key) {
                return Some(&self.entries[i - 1].1);
            }
            i = i - 1;
        }
        None
    }

    /// Whether a value is written under `key`.
    pub fn contains(&self, key: &str) -> (r: bool)
        ensures
            r == self@.contains_key(key@),
    {
        match self.get(key) {
            Some(_) => true,
            None => false,
        }
    }
}

/// A character allowed in a placeholder name: an ASCII letter or digit, or `_`.
pub open spec fn is_name_char(c: char) -> bool {
    ('a' <= c <= 'z') || ('A' <= c <= 'Z') || ('0' <= c <= '9') || c == '_'
}

/// The first index from `i` on whose character is not a name character.
pub open spec fn name_end(t: Seq<char>, i: int) -> int
    decreases t.len() - i,
{
    if i < 0 || i >= t.len() || !is_name_char(t[i]) {
        i
    } else {
        name_end(t, i + 1)
    }
}

/// Whether a placeholder `{name}` starts at `i`; its closing brace is then at
/// `name_end(t, i + 1)`.
pub open spec fn placeholder_at(t: Seq<char>, i: int) -> bool {
    let e = name_end(t, i + 1);
    0 <= i < t.len() && t[i] == '{' && e > i + 1 && e < t.len() && t[e] == '}'
}

/// Resolution of the template `t` from index `i` on: each placeholder is
/// replaced by its fact, every other character kept; `Err` names the first
/// placeholder, from the left, that has no fact.
pub open spec fn resolve_from(t: Seq<char>, i: int, facts: Map<Seq<char>, Seq<char>>) -> Result<
    Seq<char>,
    Seq<char>,
>
    decreases t.len() - i, 1int,
{
    if i < 0 || i >= t.len() {
        Ok(seq![])
    } else if placeholder_at(t, i) {
        let e = name_end(t, i + 1);
        let name = t.subrange(i + 1, e);
        if facts.contains_key(name) {
            match resolve_from(t, e + 1, facts) {
                Ok(r) => Ok(facts[name] + r),
                Err(n) => Err(n),
            }
        } else {
            Err(name)
        }
    } else {
        match resolve_from(t, i + 1, facts) {
            Ok(r) => Ok(seq![t[i]] + r),
            Err(n) => Err(n),
        }
    }
}

/// The template with every placeholder resolved, or the first missing name.
pub open spec fn resolve(t: Seq<char>, facts: Map<Seq<char>, Seq<char>>) -> Result<
    Seq<char>,
    Seq<char>,
> {
    resolve_from(t, 0, facts)
}

proof fn lemma_name_end(t: Seq<char>, a: int, j: int)
    requires
        0 <= a <= j <= t.len(),
        forall|k: int| a <= k < j ==> is_name_char(t[k]),
        j == t.len() || !is_name_char(t[j]),
    ensures
        name_end(t, a) == j,
    decreases j - a,
{
    if a < j {
        lemma_name_end(t, a + 1, j);
    }
}

proof fn lemma_name_end_bounds(t: Seq<char>, a: int)
    requires
        0 <= a,
    ensures
        a <= name_end(t, a),
    decreases t.len() - a,
{
    if a < t.len() && is_name_char(t[a]) {
        lemma_name_end_bounds(t, a + 1);
    }
}

/// A placeholder whose name has no fact makes resolution fail with that
/// name, whatever the table holds, when no brace comes before it.
pub proof fn lemma_missing_fact_fails(
    prefix: Seq<char>,
    name: Seq<char>,
    rest: Seq<char>,
    facts: Map<Seq<char>, Seq<char>>,
)
    requires
        name.len() > 0,
        forall|k: int| 0 <= k < name.len() ==> is_name_char(#[trigger] name[k]),
        forall|k: int| 0 <= k < prefix.len() ==> prefix[k] != '{',
        !facts.contains_key(name),
    ensures
        resolve(prefix + seq!['{'] + name + seq!['}'] + rest, facts) == Err::<Seq<char>, Seq<char>>(
            name,
        ),
{
    let t = prefix + seq!['{'] + name + seq!['}'] + rest;
    let p = prefix.len() as int;
    let e = p + 1 + name.len();
    assert(t[p] == '{');
    assert forall|k: int| p + 1 <= k < e implies is_name_char(t[k]) by {
        assert(t[k] == name[k - p - 1]);
    }
    assert(t[e] == '}');
    lemma_name_end(t, p + 1, e);
    assert(t.subrange(p + 1, e) =~= name);
    assert(placeholder_at(t, p));
    assert(resolve_from(t, p, facts) == Err::<Seq<char>, Seq<char>>(name));
    lemma_resolve_to_missing(t, p, 0, name, facts);
}

proof fn lemma_resolve_to_missing(
    t: Seq<char>,
    p: int,
    i: int,
    name: Seq<char>,
    facts: Map<Seq<char>, Seq<char>>,
)
    requires
        0 <= i <= p < t.len(),
        forall|k: int| 0 <= k < p ==> t[k] != '{',
        resolve_from(t, p, facts) == Err::<Seq<char>, Seq<char>>(name),
    ensures
        resolve_from(t, i, facts) == Err::<Seq<char>, Seq<char>>(name),
    decreases p - i,
{
    if i < p {
        lemma_resolve_to_missing(t, p, i + 1, name, facts);
        assert(!placeholder_at(t, i));
    }
}

fn is_name_char_exec(c: char) -> (r: bool)
    ensures
        r == is_name_char(c),
{
    ('a' <= c && c <= 'z') || ('A' <= c && c <= 'Z') || ('0' <= c && c <= '9') || c == '_'
}

/// Replaces every `{name}` placeholder of the template by the fact written
/// under `name`. Values are inserted as they are and not scanned again. Fails
/// with the first name, from the left, that has no fact; a template without
/// placeholders comes back unchanged.
pub fn substitute_placeholders(facts: &FactTable, command_template: &str) -> (r: Result<String, String>)
    ensures
        match r {
            Ok(s) => resolve(command_template@, facts@) == Ok::<Seq<char>, Seq<char>>(s@),
            Err(n) => resolve(command_template@, facts@) == Err::<Seq<char>, Seq<char>>(n@),
        },
{
    let ghost t = command_template@;
    let n = command_template.unicode_len();
    let mut out = String::new();
    let mut i: usize = 0;
    proof {
        assert(out@ =~= Seq::<char>::empty());
        assert(resolve(t, facts@) == match resolve_from(t, 0, facts@) {
            Ok(r) => Ok(out@ + r),
            Err(m) => Err::<Seq<char>, Seq<char>>(m),
        }) by {
            match resolve_from(t, 0, facts@) {
                Ok(r) => { assert(out@ + r =~= r); },
                Err(m) => {},
            }
        }
    }
    while i < n
        invariant
            n == t.len(),
            t == command_template@,
            i <= n,
            resolve(t, facts@) == match resolve_from(t, i as int, facts@) {
                Ok(r) => Ok(out@ + r),
                Err(m) => Err::<Seq<char>, Seq<char>>(m),
            },
        decreases n - i,
    {
        let c = command_template.get_char(i);
        let mut handled = false;
        if c == '{' {
            let mut j: usize = i + 1;
            while j < n && is_name_char_exec(command_template.get_char(j))
                invariant
                    n == t.len(),
                    t == command_template@,
                    i < j <= n,
                    forall|k: int| i + 1 <= k < j ==> is_name_char(t[k]),
                decreases n - j,
            {
                j = j + 1;
            }
            proof {
                lemma_name_end(t, i + 1, j as int);
            }
            if j > i + 1 && j < n && command_template.get_char(j) == '}' {
                assert(placeholder_at(t, i as int));
                let name = command_template.substring_char(i + 1, j);
                match facts.get(name) {
                    Some(v) => {
                        let ghost prev = out@;
                        out.append(v.as_str());
                        proof {
                            match resolve_from(t, j + 1, facts@) {
                                Ok(r) => {
                                    assert(prev + (v@ + r) =~= out@ + r);
                                },
                                Err(m) => {},
                            }
                        }
                        i = j + 1;
                        handled = true;
                    },
                    None => {
                        return Err(String::from_str(name));
                    },
                }
            } else {
                assert(!placeholder_at(t, i as int));
            }
        } else {
            assert(!placeholder_at(t, i as int));
        }
        if !handled {
            let ghost prev = out@;
            out.push(c);
            proof {
                match resolve_from(t, i + 1, facts@) {
                    Ok(r) => {
                        assert(prev + (seq![c] + r) =~= out@ + r);
                    },
                    Err(m) => {},
                }
            }
            i = i + 1;
        }
    }
    proof {
        assert(out@ + Seq::<char>::empty() =~= out@);
    }
    Ok(out)
}

} // verus!
