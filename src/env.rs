//! Environment variables as the job sees them, and the expansion of `$NAME`
//! and `${NAME}` references inside configuration values.

use vstd::prelude::*;

use crate::text::concat3;

verus! {

/// The most references that one expansion substitutes before it gives up:
/// a value that keeps reintroducing references would otherwise never settle.
pub const EXPANSION_LIMIT: usize = 1024;

/// The value of `name` in an environment given as assignments in the order
/// they were made: the last assignment wins, and an unset name reads empty.
pub open spec fn env_value(env: Seq<(Seq<char>, Seq<char>)>, name: Seq<char>) -> Seq<char>
    decreases env.len(),
{
    if env.len() == 0 {
        Seq::empty()
    } else if env.last().0 == name {
        env.last().1
    } else {
        env_value(env.drop_last(), name)
    }
}

/// A character that may start a variable name.
pub open spec fn is_name_start(c: char) -> bool {
    c == '_' || ('a' <= c && c <= 'z') || ('A' <= c && c <= 'Z')
}

/// A character that may continue a variable name.
pub open spec fn is_name_char(c: char) -> bool {
    is_name_start(c) || ('0' <= c && c <= '9')
}

/// The end of the run of name characters that starts at `j`.
pub open spec fn name_end(s: Seq<char>, j: int) -> int
    decreases s.len() - j,
{
    if 0 <= j < s.len() && is_name_char(s[j]) {
        name_end(s, j + 1)
    } else {
        j
    }
}

/// The end of the reference that starts at `i`, if one does: `$NAME` takes
/// every name character that follows, `${NAME}` ends after its brace.
pub open spec fn reference_end(s: Seq<char>, i: int) -> Option<int> {
    if 0 <= i && i + 1 < s.len() && s[i] == '$' && is_name_start(s[i + 1]) {
        Some(name_end(s, i + 2))
    } else if 0 <= i && i + 2 < s.len() && s[i] == '$' && s[i + 1] == '{' && is_name_start(s[i + 2])
        && name_end(s, i + 3) < s.len() && s[name_end(s, i + 3)] == '}' {
        Some(name_end(s, i + 3) + 1)
    } else {
        None
    }
}

/// The leftmost reference that starts at `j` or later, as its start and end.
pub open spec fn first_reference_from(s: Seq<char>, j: int) -> Option<(int, int)>
    decreases s.len() - j,
{
    if j < 0 || j >= s.len() {
        None
    } else {
        match reference_end(s, j) {
            Some(e) => Some((j, e)),
            None => first_reference_from(s, j + 1),
        }
    }
}

/// The leftmost reference in `s`, as its start and end.
pub open spec fn first_reference(s: Seq<char>) -> Option<(int, int)> {
    first_reference_from(s, 0)
}

/// The variable name of the reference from `i` to `e`.
pub open spec fn reference_name(s: Seq<char>, i: int, e: int) -> Seq<char> {
    if s[i + 1] == '{' {
        s.subrange(i + 2, e - 1)
    } else {
        s.subrange(i + 1, e)
    }
}

/// `s` with its leftmost reference replaced by the variable's value, if it
/// has a reference.
pub open spec fn substitute_first(s: Seq<char>, env: Seq<(Seq<char>, Seq<char>)>) -> Option<
    Seq<char>,
> {
    match first_reference(s) {
        None => None,
        Some((i, e)) => Some(
            s.subrange(0, i) + env_value(env, reference_name(s, i, e)) + s.subrange(e, s.len() as int),
        ),
    }
}

/// Substitutes leftmost references one at a time until none is left; `None`
/// when more than `limit` substitutions would be needed.
pub open spec fn expand_within(s: Seq<char>, env: Seq<(Seq<char>, Seq<char>)>, limit: nat) -> Option<
    Seq<char>,
>
    decreases limit,
{
    match substitute_first(s, env) {
        None => Some(s),
        Some(t) => if limit == 0 {
            None
        } else {
            expand_within(t, env, (limit - 1) as nat)
        },
    }
}

/// The expansion of `s` in `env`, as `expand` computes it.
pub open spec fn expansion(s: Seq<char>, env: Seq<(Seq<char>, Seq<char>)>) -> Option<Seq<char>> {
    expand_within(s, env, EXPANSION_LIMIT as nat)
}

proof fn lemma_name_end(s: Seq<char>, j: int)
    requires
        0 <= j <= s.len(),
    ensures
        j <= name_end(s, j) <= s.len(),
    decreases s.len() - j,
{
    if j < s.len() && is_name_char(s[j]) {
        lemma_name_end(s, j + 1);
    }
}

proof fn lemma_first_reference_from(s: Seq<char>, j: int)
    requires
        0 <= j,
    ensures
        match first_reference_from(s, j) {
            Some((i, e)) => j <= i && reference_end(s, i) == Some(e) && i + 2 <= e <= s.len() && (
            s[i + 1] == '{' ==> i + 4 <= e),
            None => true,
        },
    decreases s.len() - j,
{
    if j < s.len() {
        match reference_end(s, j) {
            Some(e) => {
                if s[j + 1] == '{' {
                    lemma_name_end(s, j + 3);
                } else {
                    lemma_name_end(s, j + 2);
                }
            },
            None => lemma_first_reference_from(s, j + 1),
        }
    }
}

/// A value without any `$` holds no variable reference.
pub proof fn lemma_no_dollar_no_reference(s: Seq<char>, j: int)
    requires
        0 <= j,
        forall|k: int| 0 <= k < s.len() ==> s[k] != '$',
    ensures
        first_reference_from(s, j) is None,
    decreases s.len() - j,
{
    if j < s.len() {
        lemma_no_dollar_no_reference(s, j + 1);
    }
}

/// A value that holds no variable reference expands to itself, and
/// expanding the result again changes nothing; a value without any `$` is
/// one such value.
pub proof fn law_expansion_fixes_plain_values(s: Seq<char>, env: Seq<(Seq<char>, Seq<char>)>)
    requires
        first_reference(s) is None,
    ensures
        expansion(s, env) == Some(s),
        expansion(s, env) matches Some(t) && expansion(t, env) == Some(t),
{
}

/// Finds the leftmost variable reference in `s`.
///
/// Relies on `regex::Regex::new` accepting the pattern below, and on
/// `regex::Regex::find` returning the leftmost match, where alternatives are
/// tried in order and `*` takes as many characters as it can.
#[verifier::external_body]
fn find_reference(s: &str) -> (r: Option<(String, String, String)>)
    ensures
        match first_reference(s@) {
            None => r is None,
            Some((i, e)) => r matches Some((before, found, after)) && before@ == s@.subrange(0, i)
                && found@ == s@.subrange(i, e) && after@ == s@.subrange(e, s@.len() as int),
        },
{
    let pattern = regex::Regex::new(r"\$[_a-zA-Z][_0-9a-zA-Z]*|\$\{[_a-zA-Z][_0-9a-zA-Z]*\}").unwrap();
    match pattern.find(s) {
        Some(m) => Some((s[..m.start()].to_string(), m.as_str().to_string(), s[m.end()..].to_string())),
        None => None,
    }
}

/// Environment variables, kept as assignments in the order they were made.
pub struct Env {
    vars: Vec<(String, String)>,
}

impl View for Env {
    type V = Seq<(Seq<char>, Seq<char>)>;

    closed spec fn view(&self) -> Seq<(Seq<char>, Seq<char>)> {
        self.vars@.map_values(|p: (String, String)| (p.0@, p.1@))
    }
}

impl Env {
    /// An environment where no variable is set.
    pub fn new() -> (r: Env)
        ensures
            r@ == Seq::<(Seq<char>, Seq<char>)>::empty(),
    {
        let r = Env { vars: Vec::new() };
        assert(r@ =~= Seq::<(Seq<char>, Seq<char>)>::empty());
        r
    }

    /// Sets `name` to `value`, as given.
    pub fn set(&mut self, name: &str, value: &str)
        ensures
            final(self)@ == old(self)@.push((name@, value@)),
    {
        self.vars.push((String::from_str(name), String::from_str(value)));
        assert(final(self)@ =~= old(self)@.push((name@, value@)));
    }

    /// The value of `name`; empty when it is not set.
    pub fn get(&self, name: &str) -> (r: String)
        ensures
            r@ == env_value(self@, name@),
    {
        let key = String::from_str(name);
        let mut i: usize = self.vars.len();
        assert(self@.take(i as int) =~= self@);
        while i > 0
            invariant
                i <= self.vars.len(),
                key@ == name@,
                env_value(self@, name@) == env_value(self@.take(i as int), name@),
            decreases i,
        {
            assert(self@.take(i as int).drop_last() =~= self@.take(i - 1));
            if self.vars[i - 1].0 == key {
                return self.vars[i - 1].1.clone();
            }
            i = i - 1;
        }
        String::new()
    }
}

/// Sets `name` in `env` to the expansion of `value`; `false`, with nothing
/// set, when the expansion does not settle.
pub fn set_var(env: &mut Env, name: &str, value: &str) -> (ok: bool)
    ensures
        match expansion(value@, old(env)@) {
            Some(v) => ok && final(env)@ == old(env)@.push((name@, v)),
            None => !ok && final(env)@ == old(env)@,
        },
{
    match expand(value, env) {
        Some(v) => {
            env.set(name, v.as_str());
            true
        },
        None => false,
    }
}

/// The name inside a reference: `NAME` for `$NAME` and for `${NAME}`.
fn reference_name_of(found: &str) -> (r: String)
    requires
        found@.len() >= 2,
        found@[1] == '{' ==> found@.len() >= 3,
    ensures
        r@ == (if found@[1] == '{' {
            found@.subrange(2, found@.len() - 1)
        } else {
            found@.subrange(1, found@.len() as int)
        }),
{
    let n = found.unicode_len();
    if found.get_char(1) == '{' {
        String::from_str(found.substring_char(2, n - 1))
    } else {
        String::from_str(found.substring_char(1, n))
    }
}

/// Expands the variable references in `value` against `env`, leftmost first,
/// until none is left; a substituted value may bring in further references.
/// `None` when that takes more than `EXPANSION_LIMIT` substitutions.
pub fn expand(value: &str, env: &Env) -> (r: Option<String>)
    ensures
        match r {
            Some(v) => expansion(value@, env@) == Some(v@),
            None => expansion(value@, env@) is None,
        },
{
    let mut current = String::from_str(value);
    let mut left: usize = EXPANSION_LIMIT;
    loop
        invariant
            expand_within(current@, env@, left as nat) == expansion(value@, env@),
        decreases left,
    {
        match find_reference(current.as_str()) {
            None => {
                return Some(current);
            },
            Some((before, found, after)) => {
                if left == 0 {
                    return None;
                }
                let ghost s = current@;
                proof {
                    lemma_first_reference_from(s, 0);
                    let (i, e) = first_reference(s).unwrap();
                    assert(found@ =~= s.subrange(i, e));
                    assert(found@[1] == s[i + 1]);
                    if s[i + 1] == '{' {
                        assert(found@.subrange(2, found@.len() - 1) =~= s.subrange(i + 2, e - 1));
                    } else {
                        assert(found@.subrange(1, found@.len() as int) =~= s.subrange(i + 1, e));
                    }
                }
                let name = reference_name_of(found.as_str());
                let v = env.get(name.as_str());
                current = concat3(before.as_str(), v.as_str(), after.as_str());
                left = left - 1;
            },
        }
    }
}

} // verus!
