//! Replacement of `${NAME}` by the value of an environment variable.

use crate::text::{chars_of, views};
use vstd::prelude::*;

verus! {

/// A set of environment variables with their values.
#[derive(Debug, Clone)]
pub struct Environment {
    vars: Vec<(String, String)>,
}

/// The variables that a list of assignments sets, the last one of each name deciding.
spec fn assigned(vars: Seq<(String, String)>) -> Map<Seq<char>, Seq<char>>
    decreases vars.len(),
{
    if vars.len() == 0 {
        Map::empty()
    } else {
        assigned(vars.drop_last()).insert(vars.last().0@, vars.last().1@)
    }
}

impl View for Environment {
    type V = Map<Seq<char>, Seq<char>>;

    closed spec fn view(&self) -> Map<Seq<char>, Seq<char>> {
        assigned(self.vars@)
    }
}

/// The value of a variable; empty where it is not defined.
pub open spec fn value_of(env: Map<Seq<char>, Seq<char>>, name: Seq<char>) -> Seq<char> {
    if env.contains_key(name) {
        env[name]
    } else {
        Seq::empty()
    }
}

impl Environment {
    /// An environment without variables.
    pub fn new() -> (res: Self)
        ensures
            res@ == Map::<Seq<char>, Seq<char>>::empty(),
    {
        Environment { vars: Vec::new() }
    }

    /// Sets a variable.
    pub fn set(&mut self, name: String, value: String)
        ensures
            final(self)@ == old(self)@.insert(name@, value@),
    {
        let ghost before = self.vars@;
        self.vars.push((name, value));
        assert(self.vars@.drop_last() =~= before);
    }

    /// The value of a variable, where it is defined.
    pub fn get(&self, name: &str) -> (res: Option<String>)
        ensures
            match res {
                Some(value) => self@.contains_key(name@) && value@ == self@[name@],
                None => !self@.contains_key(name@),
            },
    {
        let wanted = name.to_owned();
        let mut k: usize = self.vars.len();
        assert(self.vars@.take(k as int) =~= self.vars@);
        while k > 0
            invariant
                k <= self.vars@.len(),
                wanted@ == name@,
                self@.contains_key(name@) == assigned(self.vars@.take(k as int)).contains_key(name@),
                self@.contains_key(name@) ==> self@[name@] == assigned(
                    self.vars@.take(k as int),
                )[name@],
            decreases k,
        {
            let ghost rest = self.vars@.take(k as int);
            assert(rest.last() == self.vars@[k - 1]);
            assert(rest.drop_last() =~= self.vars@.take(k - 1));
            k -= 1;
            if self.vars[k].0 == wanted {
                return Some(self.vars[k].1.clone());
            }
        }
        None
    }

    /// The value of a variable; empty where it is not defined.
    pub fn value(&self, name: &str) -> (res: String)
        ensures
            res@ == value_of(self@, name@),
            self@.contains_key(name@) ==> res@ == self@[name@],
            !self@.contains_key(name@) ==> res@.len() == 0,
    {
        match self.get(name) {
            Some(value) => value,
            None => String::new(),
        }
    }
}

/// A placeholder opens at `at`: the characters there are `${`.
pub open spec fn opens_at(s: Seq<char>, at: int) -> bool {
    0 <= at && at + 1 < s.len() && s[at] == '$' && s[at + 1] == '{'
}

/// The first position from `from` on at which a placeholder opens.
pub open spec fn next_open(s: Seq<char>, from: int) -> Option<int>
    decreases s.len() - from,
{
    if from + 1 >= s.len() {
        None
    } else if opens_at(s, from) {
        Some(from)
    } else {
        next_open(s, from + 1)
    }
}

/// The first position from `from` on that holds a closing brace.
pub open spec fn next_close(s: Seq<char>, from: int) -> Option<int>
    decreases s.len() - from,
{
    if from >= s.len() {
        None
    } else if s[from] == '}' {
        Some(from)
    } else {
        next_close(s, from + 1)
    }
}

/// The first placeholder from `from` on, by the positions of its `$` and of its closing
/// brace. Where the first `${` has no closing brace there is none.
pub open spec fn next_placeholder(s: Seq<char>, from: int) -> Option<(int, int)> {
    match next_open(s, from) {
        Some(open) => match next_close(s, open + 2) {
            Some(close) => Some((open, close)),
            None => None,
        },
        None => None,
    }
}

/// A placeholder lies within the text and holds its two opening characters.
pub proof fn lemma_placeholder_bounds(s: Seq<char>, from: int)
    ensures
        next_placeholder(s, from) matches Some((open, close)) ==> from <= open && opens_at(s, open)
            && open + 2 <= close < s.len() && s[close] == '}',
{
    lemma_next_open(s, from);
    if let Some(open) = next_open(s, from) {
        lemma_next_close(s, open + 2);
    }
}

/// The position found is the first one at which a placeholder opens, and none is missed.
pub proof fn lemma_next_open(s: Seq<char>, from: int)
    ensures
        match next_open(s, from) {
            Some(open) => from <= open && opens_at(s, open) && forall|j: int|
                from <= j < open ==> !#[trigger] opens_at(s, j),
            None => forall|j: int| from <= j ==> !#[trigger] opens_at(s, j),
        },
    decreases s.len() - from,
{
    if from + 1 < s.len() && !opens_at(s, from) {
        lemma_next_open(s, from + 1);
    }
}

/// The position found is the first one that holds a closing brace, and none is missed.
pub proof fn lemma_next_close(s: Seq<char>, from: int)
    ensures
        match next_close(s, from) {
            Some(close) => from <= close < s.len() && s[close] == '}' && forall|j: int|
                from <= j < close ==> s[j] != '}',
            None => forall|j: int| from <= j < s.len() ==> s[j] != '}',
        },
    decreases s.len() - from,
{
    if from < s.len() && s[from] != '}' {
        lemma_next_close(s, from + 1);
    }
}

/// The text from `from` on, with each placeholder replaced by the value of the variable
/// that it names. Values are not searched for further placeholders.
pub open spec fn resolved_from(s: Seq<char>, from: int, env: Map<Seq<char>, Seq<char>>) -> Seq<char>
    decreases s.len() - from,
{
    match next_placeholder(s, from) {
        Some((open, close)) => {
            proof {
                lemma_placeholder_bounds(s, from);
            }
            s.subrange(from, open) + value_of(env, s.subrange(open + 2, close)) + resolved_from(
                s,
                close + 1,
                env,
            )
        },
        None => s.skip(from),
    }
}

/// The text with each placeholder replaced by the value of the variable that it names.
pub open spec fn resolved(s: Seq<char>, env: Map<Seq<char>, Seq<char>>) -> Seq<char> {
    resolved_from(s, 0, env)
}

/// The names in the placeholders from `from` on, in order.
pub open spec fn names_from(s: Seq<char>, from: int) -> Seq<Seq<char>>
    decreases s.len() - from,
{
    match next_placeholder(s, from) {
        Some((open, close)) => {
            proof {
                lemma_placeholder_bounds(s, from);
            }
            seq![s.subrange(open + 2, close)] + names_from(s, close + 1)
        },
        None => Seq::empty(),
    }
}

/// The names in the placeholders of a text, in order.
pub open spec fn placeholder_names(s: Seq<char>) -> Seq<Seq<char>> {
    names_from(s, 0)
}

/// Finds the first placeholder from `from` on.
fn find_placeholder(chars: &[char], from: usize) -> (res: Option<(usize, usize)>)
    requires
        from <= chars@.len(),
    ensures
        match res {
            Some((open, close)) => {
                &&& next_placeholder(chars@, from as int) == Some((open as int, close as int))
                &&& from <= open
                &&& open + 2 <= close < chars@.len()
            },
            None => next_placeholder(chars@, from as int) is None,
        },
{
    let len: usize = chars.len();
    let mut open: usize = from;
    while open < len && len - open >= 2 && !(chars[open] == '$' && chars[open + 1] == '{')
        invariant
            len == chars@.len(),
            from <= open <= len,
            next_open(chars@, from as int) == next_open(chars@, open as int),
        decreases len - open,
    {
        open += 1;
    }
    if len - open < 2 {
        return None;
    }
    let mut close: usize = open + 2;
    while close < len && chars[close] != '}'
        invariant
            len == chars@.len(),
            open + 2 <= close <= len,
            next_close(chars@, open + 2) == next_close(chars@, close as int),
        decreases len - close,
    {
        close += 1;
    }
    if close < len {
        Some((open, close))
    } else {
        None
    }
}

/// Resolves `${NAME}` variables in a string by replacing them with the corresponding
/// values of the environment.
///
/// Undefined variables are replaced with an empty string.
pub fn resolve_env_vars(s: &str, env: &Environment) -> (res: String)
    ensures
        res@ == resolved(s@, env@),
{
    let chars = chars_of(s);
    let len: usize = chars.len();
    let mut res = String::new();
    let mut start: usize = 0;
    assert(res@ + resolved_from(s@, 0, env@) =~= resolved(s@, env@));
    loop
        invariant
            chars@ == s@,
            start <= len == chars@.len(),
            res@ + resolved_from(s@, start as int, env@) == resolved(s@, env@),
        decreases len - start,
    {
        match find_placeholder(chars.as_slice(), start) {
            Some((open, close)) => {
                let ghost before = res@;
                let name = s.substring_char(open + 2, close);
                let value = env.value(name);
                res.append(s.substring_char(start, open));
                res.append(value.as_str());
                assert(before + resolved_from(s@, start as int, env@) =~= res@ + resolved_from(
                    s@,
                    close + 1,
                    env@,
                ));
                start = close + 1;
            },
            None => {
                res.append(s.substring_char(start, len));
                assert(s@.subrange(start as int, s@.len() as int) =~= s@.skip(start as int));
                return res;
            },
        }
    }
}

/// The names of the variables that a string refers to, in order.
pub fn env_var_names(s: &str) -> (res: Vec<String>)
    ensures
        views(res@) == placeholder_names(s@),
{
    let chars = chars_of(s);
    let len: usize = chars.len();
    let mut res: Vec<String> = Vec::new();
    let mut start: usize = 0;
    assert(views(res@) + names_from(s@, 0) =~= placeholder_names(s@));
    loop
        invariant
            chars@ == s@,
            start <= len == chars@.len(),
            views(res@) + names_from(s@, start as int) == placeholder_names(s@),
        decreases len - start,
    {
        match find_placeholder(chars.as_slice(), start) {
            Some((open, close)) => {
                let ghost before = views(res@);
                let name = s.substring_char(open + 2, close);
                res.push(name.to_owned());
                assert(views(res@) =~= before.push(name@));
                assert(before + names_from(s@, start as int) =~= views(res@) + names_from(
                    s@,
                    close + 1,
                ));
                start = close + 1;
            },
            None => {
                assert(views(res@) + names_from(s@, start as int) =~= views(res@));
                return res;
            },
        }
    }
}

proof fn lemma_shift(a: Seq<char>, r: Seq<char>, from: int, env: Map<Seq<char>, Seq<char>>)
    requires
        0 <= from <= r.len(),
    ensures
        resolved_from(a + r, a.len() + from, env) == resolved_from(r, from, env),
    decreases r.len() - from,
{
    let s = a + r;
    let n = a.len() as int;
    lemma_next_open(s, n + from);
    lemma_next_open(r, from);
    assert forall|j: int| 0 <= j implies opens_at(s, n + j) == #[trigger] opens_at(r, j) by {}
    match (next_open(s, n + from), next_open(r, from)) {
        (Some(o), Some(p)) => {
            assert(opens_at(r, o - n));
            assert(opens_at(s, n + p));
            assert(o == n + p);
            lemma_next_close(s, o + 2);
            lemma_next_close(r, p + 2);
            match (next_close(s, o + 2), next_close(r, p + 2)) {
                (Some(c), Some(d)) => {
                    assert(s[n + d] == '}');
                    assert(r[c - n] == '}');
                    assert(c == n + d);
                    lemma_shift(a, r, d + 1, env);
                    assert(s.subrange(n + from, o) =~= r.subrange(from, p));
                    assert(s.subrange(o + 2, c) =~= r.subrange(p + 2, d));
                },
                (Some(c), None) => {
                    assert(r[c - n] == '}');
                },
                (None, Some(d)) => {
                    assert(s[n + d] == '}');
                },
                (None, None) => {
                    assert(s.skip(n + from) =~= r.skip(from));
                },
            }
        },
        (Some(o), None) => {
            assert(opens_at(r, o - n));
        },
        (None, Some(p)) => {
            assert(opens_at(s, n + p));
        },
        (None, None) => {
            assert(s.skip(n + from) =~= r.skip(from));
        },
    }
}

/// A text in which no `${` is closed stays as it is.
pub proof fn law_nothing_to_resolve(s: Seq<char>, env: Map<Seq<char>, Seq<char>>)
    requires
        forall|at: int, j: int| #[trigger]
            opens_at(s, at) && at + 2 <= j < s.len() ==> #[trigger] s[j] != '}',
    ensures
        resolved(s, env) == s,
{
    lemma_placeholder_bounds(s, 0);
    assert(next_placeholder(s, 0) is None);
    assert(s.skip(0) =~= s);
}

/// A placeholder is replaced by the value of its variable, or by nothing where the
/// variable is not defined. What stands before it stays, and the value itself is not
/// resolved again: resolution goes on behind the closing brace.
pub proof fn law_placeholder_replaced(
    before: Seq<char>,
    name: Seq<char>,
    after: Seq<char>,
    env: Map<Seq<char>, Seq<char>>,
)
    requires
        forall|at: int| !opens_at(before, at),
        !name.contains('}'),
    ensures
        resolved(before + seq!['$', '{'] + name + seq!['}'] + after, env) == before + value_of(
            env,
            name,
        ) + resolved(after, env),
{
    let head = before + seq!['$', '{'] + name + seq!['}'];
    let s = head + after;
    let open = before.len() as int;
    let close = open + 2 + name.len();
    assert(opens_at(s, open));
    assert forall|j: int| 0 <= j < open implies !opens_at(s, j) by {
        assert(!opens_at(before, j));
    }
    lemma_next_open(s, 0);
    assert(next_open(s, 0) == Some(open));
    assert(s[close] == '}');
    assert forall|j: int| open + 2 <= j < close implies s[j] != '}' by {
        assert(s[j] == name[j - open - 2]);
    }
    lemma_next_close(s, open + 2);
    assert(next_close(s, open + 2) == Some(close));
    assert(s.subrange(0, open) =~= before);
    assert(s.subrange(open + 2, close) =~= name);
    lemma_shift(head, after, 0, env);
}

/// The placeholder of a defined variable is replaced by the whole value, that of an
/// undefined one by nothing. What stands before it stays, what stands behind it is
/// resolved on its own, and its name comes first among the names of the text.
pub proof fn law_whole_value_is_taken(
    before: Seq<char>,
    name: Seq<char>,
    after: Seq<char>,
    env: Map<Seq<char>, Seq<char>>,
)
    requires
        forall|at: int|
            0 <= at && at + 1 < before.len() && #[trigger] before[at] == '$' ==> before[at + 1]
                != '{',
        !name.contains('}'),
    ensures
        env.contains_key(name) ==> resolved(
            before + seq!['$', '{'] + name + seq!['}'] + after,
            env,
        ) == before + env[name] + resolved(after, env),
        !env.contains_key(name) ==> resolved(
            before + seq!['$', '{'] + name + seq!['}'] + after,
            env,
        ) == before + resolved(after, env),
        placeholder_names(before + seq!['$', '{'] + name + seq!['}'] + after) == seq![name]
            + placeholder_names(after),
{
    assert forall|at: int| !opens_at(before, at) by {
        if opens_at(before, at) {
            assert(before[at] == '$');
        }
    }
    law_placeholder_replaced(before, name, after, env);
    assert(before + Seq::<char>::empty() =~= before);
    lemma_first_placeholder(before, name, after);
    let head = before + seq!['$', '{'] + name + seq!['}'];
    let s = head + after;
    let open = before.len() as int;
    assert(s.subrange(open + 2, open + 2 + name.len()) =~= name);
    lemma_shift_names(head, after, 0);
}

/// A text that is one placeholder resolves to the value of the variable, whole, or to the
/// empty text where the variable is not defined.
pub proof fn law_lone_placeholder(name: Seq<char>, env: Map<Seq<char>, Seq<char>>)
    requires
        !name.contains('}'),
    ensures
        env.contains_key(name) ==> resolved(seq!['$', '{'] + name + seq!['}'], env) == env[name],
        !env.contains_key(name) ==> resolved(seq!['$', '{'] + name + seq!['}'], env)
            == Seq::<char>::empty(),
        placeholder_names(seq!['$', '{'] + name + seq!['}']) == seq![name],
{
    let none = Seq::<char>::empty();
    law_whole_value_is_taken(none, name, none, env);
    law_text_without_placeholder(none, env);
    assert(none + seq!['$', '{'] + name + seq!['}'] + none =~= seq!['$', '{'] + name + seq!['}']);
    assert(seq![name] + Seq::<Seq<char>>::empty() =~= seq![name]);
}

/// A text without a `${` that a `}` closes stays as it is and names no variable.
pub proof fn law_text_without_placeholder(s: Seq<char>, env: Map<Seq<char>, Seq<char>>)
    requires
        forall|at: int, j: int|
            0 <= at && at + 2 <= j < s.len() && #[trigger] s[at] == '$' && s[at + 1] == '{'
                ==> #[trigger] s[j] != '}',
    ensures
        resolved(s, env) == s,
        placeholder_names(s) == Seq::<Seq<char>>::empty(),
{
    assert forall|at: int, j: int| #[trigger]
        opens_at(s, at) && at + 2 <= j < s.len() implies #[trigger] s[j] != '}' by {
        assert(s[at] == '$');
    }
    law_nothing_to_resolve(s, env);
    lemma_placeholder_bounds(s, 0);
}

/// The first placeholder of a text that opens no other before it.
proof fn lemma_first_placeholder(before: Seq<char>, name: Seq<char>, after: Seq<char>)
    requires
        forall|at: int| !opens_at(before, at),
        !name.contains('}'),
    ensures
        next_placeholder(before + seq!['$', '{'] + name + seq!['}'] + after, 0) == Some(
            (before.len() as int, (before.len() + 2 + name.len()) as int),
        ),
{
    let s = before + seq!['$', '{'] + name + seq!['}'] + after;
    let open = before.len() as int;
    let close = open + 2 + name.len();
    assert(opens_at(s, open));
    assert forall|j: int| 0 <= j < open implies !opens_at(s, j) by {
        assert(!opens_at(before, j));
    }
    lemma_next_open(s, 0);
    assert(s[close] == '}');
    assert forall|j: int| open + 2 <= j < close implies s[j] != '}' by {
        assert(s[j] == name[j - open - 2]);
    }
    lemma_next_close(s, open + 2);
}

proof fn lemma_shift_names(a: Seq<char>, r: Seq<char>, from: int)
    requires
        0 <= from <= r.len(),
    ensures
        names_from(a + r, a.len() + from) == names_from(r, from),
    decreases r.len() - from,
{
    let s = a + r;
    let n = a.len() as int;
    lemma_next_open(s, n + from);
    lemma_next_open(r, from);
    assert forall|j: int| 0 <= j implies opens_at(s, n + j) == #[trigger] opens_at(r, j) by {}
    match (next_open(s, n + from), next_open(r, from)) {
        (Some(o), Some(p)) => {
            assert(opens_at(r, o - n));
            assert(opens_at(s, n + p));
            lemma_next_close(s, o + 2);
            lemma_next_close(r, p + 2);
            match (next_close(s, o + 2), next_close(r, p + 2)) {
                (Some(c), Some(d)) => {
                    assert(s[n + d] == '}');
                    assert(r[c - n] == '}');
                    assert(c == n + d);
                    lemma_shift_names(a, r, d + 1);
                    assert(s.subrange(o + 2, c) =~= r.subrange(p + 2, d));
                },
                (Some(c), None) => {
                    assert(r[c - n] == '}');
                },
                (None, Some(d)) => {
                    assert(s[n + d] == '}');
                },
                (None, None) => {},
            }
        },
        (Some(o), None) => {
            assert(opens_at(r, o - n));
        },
        (None, Some(p)) => {
            assert(opens_at(s, n + p));
        },
        (None, None) => {},
    }
}

/// Only the variables that a text names have a say in what it resolves to.
pub proof fn law_only_named_variables_matter(
    s: Seq<char>,
    env: Map<Seq<char>, Seq<char>>,
    other: Map<Seq<char>, Seq<char>>,
)
    requires
        forall|name: Seq<char>| #[trigger]
            placeholder_names(s).contains(name) ==> value_of(env, name) == value_of(other, name),
    ensures
        resolved(s, env) == resolved(s, other),
{
    assert forall|name: Seq<char>| #[trigger] names_from(s, 0).contains(name) implies value_of(
        env,
        name,
    ) == value_of(other, name) by {
        assert(placeholder_names(s).contains(name));
    }
    lemma_same_values(s, 0, env, other);
}

proof fn lemma_same_values(
    s: Seq<char>,
    from: int,
    env: Map<Seq<char>, Seq<char>>,
    other: Map<Seq<char>, Seq<char>>,
)
    requires
        forall|name: Seq<char>| #[trigger]
            names_from(s, from).contains(name) ==> value_of(env, name) == value_of(other, name),
    ensures
        resolved_from(s, from, env) == resolved_from(s, from, other),
    decreases s.len() - from,
{
    lemma_placeholder_bounds(s, from);
    if let Some((open, close)) = next_placeholder(s, from) {
        let first = s.subrange(open + 2, close);
        let rest = names_from(s, close + 1);
        let all = names_from(s, from);
        assert(all[0] == first);
        assert(all.contains(first));
        assert forall|name: Seq<char>| #[trigger] rest.contains(name) implies value_of(env, name)
            == value_of(other, name) by {
            let k = rest.index_of(name);
            assert(all[k + 1] == name);
            assert(all.contains(name));
        }
        lemma_same_values(s, close + 1, env, other);
    }
}

} // verus!
