//! Variable substitution engine for `{{VAR}}` syntax.
//!
//! A token is `{{` followed by a name (`[A-Za-z_][A-Za-z0-9_]*`) and `}}`.
//! Scanning goes left to right; at a token the whole token is consumed,
//! otherwise one character is.  A token whose name is bound in the pool is
//! replaced by its value; an unresolved token passes through verbatim (or
//! is replaced by a chosen default).  Values are never re-expanded.

use crate::strmap::AssocMap;
use vstd::prelude::*;

verus! {

pub open spec fn is_name_start(c: char) -> bool {
    ('A' <= c && c <= 'Z') || ('a' <= c && c <= 'z') || c == '_'
}

pub open spec fn is_name_char(c: char) -> bool {
    is_name_start(c) || ('0' <= c && c <= '9')
}

/// First position at or after `i` that does not hold a name character.
pub open spec fn name_run_end(s: Seq<char>, i: int) -> int
    decreases s.len() - i when 0 <= i <= s.len()
{
    if i >= s.len() || !is_name_char(s[i]) {
        i
    } else {
        name_run_end(s, i + 1)
    }
}

pub proof fn lemma_name_run_end_bounds(s: Seq<char>, i: int)
    requires
        0 <= i <= s.len(),
    ensures
        i <= name_run_end(s, i) <= s.len(),
        forall|k: int| i <= k < name_run_end(s, i) ==> is_name_char(#[trigger] s[k]),
        name_run_end(s, i) == s.len() || !is_name_char(s[name_run_end(s, i)]),
    decreases s.len() - i,
{
    if i < s.len() && is_name_char(s[i]) {
        lemma_name_run_end_bounds(s, i + 1);
    }
}

/// A scan that saw name characters up to `j` and then a non-name
/// character pins the run end down.
pub proof fn lemma_name_run_end_is(s: Seq<char>, i: int, j: int)
    requires
        0 <= i <= j <= s.len(),
        forall|k: int| i <= k < j ==> is_name_char(#[trigger] s[k]),
        j == s.len() || !is_name_char(s[j]),
    ensures
        name_run_end(s, i) == j,
    decreases j - i,
{
    if i < j {
        lemma_name_run_end_is(s, i + 1, j);
    }
}

/// A substitution token starts at position `i`.
pub open spec fn token_at(s: Seq<char>, i: int) -> bool {
    &&& 0 <= i
    &&& i + 1 < s.len()
    &&& s[i] == '{'
    &&& s[i + 1] == '{'
    &&& i + 2 < s.len()
    &&& is_name_start(s[i + 2])
    &&& {
        let e = name_run_end(s, i + 2);
        e + 1 < s.len() && s[e] == '}' && s[e + 1] == '}'
    }
}

/// Position just past the token starting at `i` (past the closing braces).
pub open spec fn token_end(s: Seq<char>, i: int) -> int {
    name_run_end(s, i + 2) + 2
}

/// The name between the braces of the token starting at `i`.
pub open spec fn token_name(s: Seq<char>, i: int) -> Seq<char> {
    s.subrange(i + 2, name_run_end(s, i + 2))
}

/// The substitution of `s` from position `i` on.  An unresolved token is
/// kept verbatim when `fallback` is `None` and replaced by the fallback
/// text otherwise.
pub open spec fn subst_from(
    s: Seq<char>,
    vars: Map<Seq<char>, Seq<char>>,
    fallback: Option<Seq<char>>,
    i: int,
) -> Seq<char>
    decreases s.len() - i when 0 <= i <= s.len() via subst_from_dec
{
    if i >= s.len() {
        Seq::empty()
    } else if token_at(s, i) {
        let name = token_name(s, i);
        let e = token_end(s, i);
        (if vars.contains_key(name) {
            vars[name]
        } else if fallback is Some {
            fallback->0
        } else {
            s.subrange(i, e)
        }) + subst_from(s, vars, fallback, e)
    } else {
        seq![s[i]] + subst_from(s, vars, fallback, i + 1)
    }
}

#[via_fn]
proof fn subst_from_dec(
    s: Seq<char>,
    vars: Map<Seq<char>, Seq<char>>,
    fallback: Option<Seq<char>>,
    i: int,
) {
    if 0 <= i < s.len() && token_at(s, i) {
        lemma_name_run_end_bounds(s, i + 2);
    }
}

/// What `substitute` returns: unresolved tokens pass through.
pub open spec fn spec_substitute(s: Seq<char>, vars: Map<Seq<char>, Seq<char>>) -> Seq<char> {
    subst_from(s, vars, None, 0)
}

/// What `substitute_with_default` returns: unresolved tokens become the
/// default text.
pub open spec fn spec_substitute_with_default(
    s: Seq<char>,
    vars: Map<Seq<char>, Seq<char>>,
    default: Seq<char>,
) -> Seq<char> {
    subst_from(s, vars, Some(default), 0)
}

/// The names referenced from position `i` on, in order of appearance,
/// duplicates kept.
pub open spec fn names_from(s: Seq<char>, i: int) -> Seq<Seq<char>>
    decreases s.len() - i when 0 <= i <= s.len() via names_from_dec
{
    if i >= s.len() {
        Seq::empty()
    } else if token_at(s, i) {
        seq![token_name(s, i)] + names_from(s, token_end(s, i))
    } else {
        names_from(s, i + 1)
    }
}

#[via_fn]
proof fn names_from_dec(s: Seq<char>, i: int) {
    if 0 <= i < s.len() && token_at(s, i) {
        lemma_name_run_end_bounds(s, i + 2);
    }
}

/// All names referenced in `s`, in order of appearance.
pub open spec fn spec_find_variables(s: Seq<char>) -> Seq<Seq<char>> {
    names_from(s, 0)
}

/// The referenced names that are not bound in `vars`, in order of
/// appearance.
pub open spec fn spec_unresolved(s: Seq<char>, vars: Map<Seq<char>, Seq<char>>) -> Seq<Seq<char>> {
    spec_find_variables(s).filter(|n: Seq<char>| !vars.contains_key(n))
}

/// `s` holds a substitution token somewhere.
pub open spec fn has_token(s: Seq<char>) -> bool {
    exists|i: int| token_at(s, i)
}

fn is_name_char_at(text: &str, i: usize) -> (r: bool)
    requires
        i < text@.len(),
    ensures
        r == is_name_char(text@[i as int]),
{
    let c = text.get_char(i);
    let u = c as u32;
    proof {
        assert('A' as u32 == 65 && 'Z' as u32 == 90 && 'a' as u32 == 97 && 'z' as u32 == 122
            && '_' as u32 == 95 && '0' as u32 == 48 && '9' as u32 == 57);
        assert((65 <= u && u <= 90) == ('A' <= c && c <= 'Z'));
        assert((97 <= u && u <= 122) == ('a' <= c && c <= 'z'));
        assert((48 <= u && u <= 57) == ('0' <= c && c <= '9'));
        assert((u == 95) == (c == '_'));
    }
    (65 <= u && u <= 90) || (97 <= u && u <= 122) || u == 95 || (48 <= u && u <= 57)
}

fn is_name_start_at(text: &str, i: usize) -> (r: bool)
    requires
        i < text@.len(),
    ensures
        r == is_name_start(text@[i as int]),
{
    let c = text.get_char(i);
    let u = c as u32;
    proof {
        assert('A' as u32 == 65 && 'Z' as u32 == 90 && 'a' as u32 == 97 && 'z' as u32 == 122
            && '_' as u32 == 95);
    }
    (65 <= u && u <= 90) || (97 <= u && u <= 122) || u == 95
}

/// Decide whether a token starts at `i`; when it does, report the end of
/// its name run.
fn token_probe(text: &str, n: usize, i: usize) -> (r: Option<usize>)
    requires
        n == text@.len(),
        i < n,
    ensures
        r is Some <==> token_at(text@, i as int),
        r is Some ==> r->0 == name_run_end(text@, i + 2) && r->0 + 1 < n,
{
    if !(n - i > 2) {
        return None;
    }
    proof {
        lemma_name_run_end_bounds(text@, i + 2);
    }
    if text.get_char(i) != '{' || text.get_char(i + 1) != '{' {
        return None;
    }
    if !is_name_start_at(text, i + 2) {
        return None;
    }
    let mut j: usize = i + 2;
    while j < n && is_name_char_at_cond(text, n, j)
        invariant
            n == text@.len(),
            i + 2 <= j <= n,
            forall|k: int| i + 2 <= k < j ==> is_name_char(#[trigger] text@[k]),
        decreases n - j,
    {
        j += 1;
    }
    proof {
        lemma_name_run_end_is(text@, i + 2, j as int);
    }
    if n - j > 1 && text.get_char(j) == '}' && text.get_char(j + 1) == '}' {
        Some(j)
    } else {
        None
    }
}

fn is_name_char_at_cond(text: &str, n: usize, j: usize) -> (r: bool)
    requires
        n == text@.len(),
        j < n,
    ensures
        r == is_name_char(text@[j as int]),
{
    is_name_char_at(text, j)
}

/// Variable substitution engine.
pub struct VariableSubstitutor {}

impl VariableSubstitutor {
    /// Create a new substitution engine.
    pub fn new() -> (r: Self) {
        VariableSubstitutor {  }
    }

    fn substitute_inner(
        &self,
        text: &str,
        variables: &AssocMap<String>,
        fallback: Option<&str>,
    ) -> (r: String)
        requires
            variables.wf(),
        ensures
            r@ == subst_from(
                text@,
                variables@,
                match fallback {
                    Some(d) => Some(d@),
                    None => None,
                },
                0,
            ),
    {
        let ghost fb: Option<Seq<char>> = match fallback {
            Some(d) => Some(d@),
            None => None,
        };
        let n = text.unicode_len();
        let mut out = String::new();
        let mut i: usize = 0;
        while i < n
            invariant
                variables.wf(),
                n == text@.len(),
                0 <= i <= n,
                fb == (match fallback {
                    Some(d) => Some(d@),
                    None => None,
                }),
                subst_from(text@, variables@, fb, 0) == out@ + subst_from(
                    text@,
                    variables@,
                    fb,
                    i as int,
                ),
            decreases n - i,
        {
            match token_probe(text, n, i) {
                Some(j) => {
                    proof {
                        lemma_name_run_end_bounds(text@, i + 2);
                    }
                    let name = text.substring_char(i + 2, j);
                    let e = j + 2;
                    assert(name@ == token_name(text@, i as int));
                    assert(e == token_end(text@, i as int));
                    let ghost before = out@;
                    let rep: String = match variables.get(name) {
                        Some(value) => value.clone(),
                        None => match fallback {
                            Some(d) => d.to_owned(),
                            None => {
                                let verbatim = text.substring_char(i, e);
                                verbatim.to_owned()
                            },
                        },
                    };
                    assert(rep@ == (if variables@.contains_key(token_name(text@, i as int)) {
                        variables@[token_name(text@, i as int)]
                    } else if fb is Some {
                        fb->0
                    } else {
                        text@.subrange(i as int, e as int)
                    }));
                    out.append(rep.as_str());
                    proof {
                        assert(subst_from(text@, variables@, fb, i as int) == rep@ + subst_from(
                            text@,
                            variables@,
                            fb,
                            e as int,
                        ));
                        assert(before + (rep@ + subst_from(text@, variables@, fb, e as int)) =~= (
                        before + rep@) + subst_from(text@, variables@, fb, e as int));
                    }
                    i = e;
                },
                None => {
                    let one = text.substring_char(i, i + 1);
                    assert(one@ =~= seq![text@[i as int]]);
                    let ghost before = out@;
                    out.append(one);
                    proof {
                        assert(before + (seq![text@[i as int]] + subst_from(
                            text@,
                            variables@,
                            fb,
                            i + 1,
                        )) =~= (before + seq![text@[i as int]]) + subst_from(
                            text@,
                            variables@,
                            fb,
                            i + 1,
                        ));
                    }
                    i += 1;
                },
            }
        }
        out
    }

    /// Substitute variables in a string; unresolved tokens pass through
    /// verbatim.
    pub fn substitute(&self, text: &str, variables: &AssocMap<String>) -> (r: String)
        requires
            variables.wf(),
        ensures
            r@ == spec_substitute(text@, variables@),
    {
        self.substitute_inner(text, variables, None)
    }

    /// Substitute variables in a string; unresolved tokens become
    /// `default`.
    pub fn substitute_with_default(
        &self,
        text: &str,
        variables: &AssocMap<String>,
        default: &str,
    ) -> (r: String)
        requires
            variables.wf(),
        ensures
            r@ == spec_substitute_with_default(text@, variables@, default@),
    {
        self.substitute_inner(text, variables, Some(default))
    }

    /// Find all variable references in a string, in order, duplicates
    /// kept.
    pub fn find_variables(&self, text: &str) -> (r: Vec<String>)
        ensures
            r.deep_view() == spec_find_variables(text@),
    {
        let n = text.unicode_len();
        let mut out: Vec<String> = Vec::new();
        let mut i: usize = 0;
        while i < n
            invariant
                n == text@.len(),
                0 <= i <= n,
                spec_find_variables(text@) == out.deep_view() + names_from(text@, i as int),
            decreases n - i,
        {
            match token_probe(text, n, i) {
                Some(j) => {
                    proof {
                        lemma_name_run_end_bounds(text@, i + 2);
                    }
                    let name = text.substring_char(i + 2, j);
                    assert(name@ == token_name(text@, i as int));
                    let ghost before = out.deep_view();
                    out.push(name.to_owned());
                    proof {
                        assert(out.deep_view() =~= before + seq![token_name(text@, i as int)]);
                        assert(before + (seq![token_name(text@, i as int)] + names_from(
                            text@,
                            j + 2,
                        )) =~= (before + seq![token_name(text@, i as int)]) + names_from(
                            text@,
                            j + 2,
                        ));
                    }
                    i = j + 2;
                },
                None => {
                    i += 1;
                },
            }
        }
        out
    }

    /// Check whether a string contains any variable reference.
    pub fn has_variables(&self, text: &str) -> (r: bool)
        ensures
            r == has_token(text@),
    {
        let n = text.unicode_len();
        let mut i: usize = 0;
        while i < n
            invariant
                n == text@.len(),
                0 <= i <= n,
                forall|j: int| 0 <= j < i ==> !token_at(text@, j),
            decreases n - i,
        {
            if token_probe(text, n, i).is_some() {
                return true;
            }
            i += 1;
        }
        assert(forall|j: int| token_at(text@, j) ==> 0 <= j < n);
        false
    }

    /// Substitute each string of a list in turn.
    pub fn substitute_multiple(&self, texts: &Vec<String>, variables: &AssocMap<String>) -> (r: Vec<
        String,
    >)
        requires
            variables.wf(),
        ensures
            r.deep_view().len() == texts@.len(),
            forall|k: int|
                0 <= k < texts@.len() ==> r.deep_view()[k] == spec_substitute(
                    #[trigger] texts@[k]@,
                    variables@,
                ),
    {
        let mut out: Vec<String> = Vec::new();
        let mut i: usize = 0;
        while i < texts.len()
            invariant
                variables.wf(),
                0 <= i <= texts@.len(),
                out.deep_view().len() == i,
                forall|k: int|
                    0 <= k < i ==> out.deep_view()[k] == spec_substitute(
                        #[trigger] texts@[k]@,
                        variables@,
                    ),
            decreases texts@.len() - i,
        {
            out.push(self.substitute(texts[i].as_str(), variables));
            i += 1;
        }
        out
    }

    /// Report the referenced names that do not resolve; `Ok` means every
    /// token in the text resolves.
    pub fn validate(&self, text: &str, variables: &AssocMap<String>) -> (r: Result<
        (),
        Vec<String>,
    >)
        requires
            variables.wf(),
        ensures
            match r {
                Ok(()) => spec_unresolved(text@, variables@).len() == 0,
                Err(missing) => missing.deep_view() == spec_unresolved(text@, variables@)
                    && missing.deep_view().len() > 0,
            },
    {
        let names = self.find_variables(text);
        let mut missing: Vec<String> = Vec::new();
        let mut i: usize = 0;
        proof {
            assert(names.deep_view().take(0) =~= Seq::<Seq<char>>::empty());
            assert(Seq::<Seq<char>>::empty().filter(|n: Seq<char>| !variables@.contains_key(n))
                =~= Seq::<Seq<char>>::empty());
        }
        while i < names.len()
            invariant
                variables.wf(),
                0 <= i <= names@.len(),
                names.deep_view() == spec_find_variables(text@),
                missing.deep_view() == names.deep_view().take(i as int).filter(
                    |n: Seq<char>| !variables@.contains_key(n),
                ),
            decreases names@.len() - i,
        {
            let ghost prefix = names.deep_view().take(i as int);
            proof {
                assert(names.deep_view().take(i + 1).drop_last() =~= prefix);
                assert(names.deep_view().take(i + 1).last() == names.deep_view()[i as int]);
                broadcast use vstd::seq_lib::group_seq_properties;
            }
            if !variables.contains_key(names[i].as_str()) {
                missing.push(names[i].clone());
                proof {
                    assert(missing.deep_view() =~= prefix.filter(
                        |n: Seq<char>| !variables@.contains_key(n),
                    ) + seq![names.deep_view()[i as int]]);
                }
            }
            proof {
                reveal_with_fuel(Seq::filter, 2);
                assert(names.deep_view().take(i + 1).filter(
                    |n: Seq<char>| !variables@.contains_key(n),
                ) == prefix.filter(|n: Seq<char>| !variables@.contains_key(n)) + (if !variables@
                    .contains_key(names.deep_view()[i as int]) {
                    seq![names.deep_view()[i as int]]
                } else {
                    Seq::<Seq<char>>::empty()
                }));
                assert(missing.deep_view() =~= names.deep_view().take(i + 1).filter(
                    |n: Seq<char>| !variables@.contains_key(n),
                ));
            }
            i += 1;
        }
        proof {
            assert(names.deep_view().take(names@.len() as int) =~= names.deep_view());
        }
        if missing.len() == 0 {
            proof {
                assert(missing.deep_view() =~= Seq::<Seq<char>>::empty());
            }
            Ok(())
        } else {
            Err(missing)
        }
    }
}

impl Default for VariableSubstitutor {
    fn default() -> Self {
        VariableSubstitutor::new()
    }
}

/// A text without any token substitutes to itself, whatever the pool
/// holds and from any starting position.
proof fn lemma_subst_identity_from(s: Seq<char>, vars: Map<Seq<char>, Seq<char>>, i: int)
    requires
        0 <= i <= s.len(),
        forall|j: int| !token_at(s, j),
    ensures
        subst_from(s, vars, None, i) == s.subrange(i, s.len() as int),
    decreases s.len() - i,
{
    if i >= s.len() {
        assert(s.subrange(i, s.len() as int) =~= Seq::empty());
    } else {
        lemma_subst_identity_from(s, vars, i + 1);
        assert(subst_from(s, vars, None, i) == seq![s[i]] + s.subrange(i + 1, s.len() as int));
        assert(seq![s[i]] + s.subrange(i + 1, s.len() as int) =~= s.subrange(i, s.len() as int));
    }
}

/// A string that contains no `{{NAME}}` token substitutes to itself.
pub proof fn lemma_substitute_identity(s: Seq<char>, vars: Map<Seq<char>, Seq<char>>)
    requires
        !has_token(s),
    ensures
        spec_substitute(s, vars) == s,
{
    lemma_subst_identity_from(s, vars, 0);
    assert(s.subrange(0, s.len() as int) =~= s);
}

/// Validation is a pure function of its inputs: two runs on the same
/// text and pool return the same missing names.
pub proof fn lemma_validate_deterministic(
    s: Seq<char>,
    vars: Map<Seq<char>, Seq<char>>,
    r1: Seq<Seq<char>>,
    r2: Seq<Seq<char>>,
)
    requires
        r1 == spec_unresolved(s, vars),
        r2 == spec_unresolved(s, vars),
    ensures
        r1 == r2,
{
}

} // verus!
