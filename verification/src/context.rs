//! Script execution context: the variable pool and the request/response
//! scratch data that scripts and extraction read and write.

use crate::strmap::AssocMap;
use vstd::prelude::*;

verus! {

/// A variable in the script context.
#[derive(Debug, Clone)]
pub struct ScriptVariable {
    /// Variable value
    pub value: String,
    /// Whether this is a secret variable
    pub is_secret: bool,
}

pub ghost struct ScriptVariableView {
    pub value: Seq<char>,
    pub is_secret: bool,
}

impl View for ScriptVariable {
    type V = ScriptVariableView;

    open spec fn view(&self) -> ScriptVariableView {
        ScriptVariableView { value: self.value@, is_secret: self.is_secret }
    }
}

impl ScriptVariable {
    /// Create a new variable.
    pub fn new(value: String) -> (r: Self)
        ensures
            r@ == (ScriptVariableView { value: value@, is_secret: false }),
    {
        ScriptVariable { value, is_secret: false }
    }

    /// Create a secret variable.
    pub fn secret(value: String) -> (r: Self)
        ensures
            r@ == (ScriptVariableView { value: value@, is_secret: true }),
    {
        ScriptVariable { value, is_secret: true }
    }
}

/// Script execution context.
#[derive(Debug)]
pub struct ScriptContext {
    variables: AssocMap<ScriptVariable>,
    request_data: AssocMap<String>,
    response_data: AssocMap<String>,
    console_output: Vec<String>,
}

impl ScriptContext {
    /// Variables available to scripts, by name.
    pub closed spec fn vars(&self) -> Map<Seq<char>, ScriptVariableView> {
        self.variables@
    }

    /// Request data (method, URL, headers, body), by key.
    pub closed spec fn req_data(&self) -> Map<Seq<char>, Seq<char>> {
        self.request_data@
    }

    /// Response data (status, headers, body), by key.
    pub closed spec fn resp_data(&self) -> Map<Seq<char>, Seq<char>> {
        self.response_data@
    }

    /// Console lines written by scripts, in order.
    pub closed spec fn console(&self) -> Seq<Seq<char>> {
        self.console_output.deep_view()
    }

    /// The values of the variable pool, without their secrecy marks.
    pub open spec fn value_map(&self) -> Map<Seq<char>, Seq<char>> {
        self.vars().map_values(|v: ScriptVariableView| v.value)
    }

    /// The stored variable entries, in insertion order.
    pub closed spec fn vars_seq(&self) -> Seq<(String, ScriptVariable)> {
        self.variables.seq()
    }

    /// The stored request entries, in insertion order.
    pub closed spec fn req_seq(&self) -> Seq<(String, String)> {
        self.request_data.seq()
    }

    /// The stored response entries, in insertion order.
    pub closed spec fn resp_seq(&self) -> Seq<(String, String)> {
        self.response_data.seq()
    }

    pub closed spec fn wf(&self) -> bool {
        self.variables.wf() && self.request_data.wf() && self.response_data.wf()
    }

    /// Create an empty context.
    pub fn new() -> (r: Self)
        ensures
            r.wf(),
            r.vars() =~= Map::<Seq<char>, ScriptVariableView>::empty(),
            r.req_data() =~= Map::<Seq<char>, Seq<char>>::empty(),
            r.resp_data() =~= Map::<Seq<char>, Seq<char>>::empty(),
            r.console() =~= Seq::<Seq<char>>::empty(),
    {
        let r = ScriptContext {
            variables: AssocMap::new(),
            request_data: AssocMap::new(),
            response_data: AssocMap::new(),
            console_output: Vec::new(),
        };
        assert(r.console_output.deep_view() =~= Seq::<Seq<char>>::empty());
        r
    }

    /// Bind a variable.
    pub fn set_variable(&mut self, name: String, value: String)
        requires
            old(self).wf(),
        ensures
            final(self).wf(),
            final(self).vars() =~= old(self).vars().insert(
                name@,
                ScriptVariableView { value: value@, is_secret: false },
            ),
            final(self).req_data() == old(self).req_data(),
            final(self).resp_data() == old(self).resp_data(),
            final(self).console() == old(self).console(),
    {
        self.variables.insert(name, ScriptVariable::new(value));
    }

    /// Bind a secret variable.
    pub fn set_secret_variable(&mut self, name: String, value: String)
        requires
            old(self).wf(),
        ensures
            final(self).wf(),
            final(self).vars() =~= old(self).vars().insert(
                name@,
                ScriptVariableView { value: value@, is_secret: true },
            ),
            final(self).req_data() == old(self).req_data(),
            final(self).resp_data() == old(self).resp_data(),
            final(self).console() == old(self).console(),
    {
        self.variables.insert(name, ScriptVariable::secret(value));
    }

    /// Look a variable up.
    pub fn get_variable(&self, name: &str) -> (r: Option<&ScriptVariable>)
        requires
            self.wf(),
        ensures
            match r {
                Some(v) => self.vars().contains_key(name@) && v@ == self.vars()[name@],
                None => !self.vars().contains_key(name@),
            },
    {
        self.variables.get(name)
    }

    /// Look a variable's value up.
    pub fn get_variable_value(&self, name: &str) -> (r: Option<&str>)
        requires
            self.wf(),
        ensures
            match r {
                Some(v) => self.vars().contains_key(name@) && v@ == self.vars()[name@].value,
                None => !self.vars().contains_key(name@),
            },
    {
        match self.variables.get(name) {
            Some(v) => Some(v.value.as_str()),
            None => None,
        }
    }

    /// Drop a variable, returning it when it was bound.
    pub fn remove_variable(&mut self, name: &str) -> (r: Option<ScriptVariable>)
        requires
            old(self).wf(),
        ensures
            final(self).wf(),
            final(self).vars() =~= old(self).vars().remove(name@),
            r is Some <==> old(self).vars().contains_key(name@),
            r is Some ==> r->0@ == old(self).vars()[name@],
            final(self).req_data() == old(self).req_data(),
            final(self).resp_data() == old(self).resp_data(),
            final(self).console() == old(self).console(),
    {
        self.variables.remove(name)
    }

    /// All variables.
    pub fn variables(&self) -> (r: &AssocMap<ScriptVariable>)
        ensures
            r@ == self.vars(),
            r.seq() == self.vars_seq(),
            self.wf() ==> r.wf(),
    {
        &self.variables
    }

    /// The variable pool as plain name-value pairs, for substitution.
    pub fn variable_values(&self) -> (r: AssocMap<String>)
        requires
            self.wf(),
        ensures
            r.wf(),
            r@ =~= self.value_map(),
    {
        let entries = self.variables.entries();
        let mut out: AssocMap<String> = AssocMap::new();
        let n = entries.len();
        let mut i: usize = 0;
        while i < n
            invariant
                self.wf(),
                n == entries@.len(),
                entries@ == self.variables.seq(),
                0 <= i <= n,
                out.wf(),
                forall|k: Seq<char>|
                    #[trigger] out@.contains_key(k) ==> self.vars().contains_key(k) && out@[k]
                        == self.vars()[k].value,
                forall|j: int|
                    0 <= j < i ==> out@.contains_key((#[trigger] entries@[j]).0@) && out@[entries@[
                    j].0@] == entries@[j].1@.value,
            decreases n - i,
        {
            proof {
                self.variables.lemma_entry_in_view(i as int);
            }
            out.insert(entries[i].0.clone(), entries[i].1.value.clone());
            i += 1;
        }
        proof {
            assert forall|k: Seq<char>| #[trigger]
                self.value_map().contains_key(k) implies out@.contains_key(k) && out@[k]
                == self.value_map()[k] by {
                self.variables.lemma_view_key(k);
                let j = choose|j: int|
                    0 <= j < self.variables.seq().len() && (#[trigger] self.variables.seq()[j]).0@
                        == k;
                assert(out@.contains_key(entries@[j].0@));
            }
            assert(out@ =~= self.value_map());
        }
        out
    }

    /// Replace the whole variable pool by the given name-value pairs,
    /// later pairs winning.  This is how a script's final scope comes
    /// back into the pool.
    pub fn replace_variables(&mut self, pairs: Vec<(String, String)>)
        requires
            old(self).wf(),
        ensures
            final(self).wf(),
            final(self).vars() =~= pairs_map(pairs.deep_view()),
            final(self).req_data() == old(self).req_data(),
            final(self).resp_data() == old(self).resp_data(),
            final(self).console() == old(self).console(),
    {
        self.variables = AssocMap::new();
        let n = pairs.len();
        let ghost pv = pairs.deep_view();
        proof {
            assert(pv.take(0) =~= Seq::<(Seq<char>, Seq<char>)>::empty());
        }
        let mut i: usize = 0;
        while i < n
            invariant
                n == pairs@.len(),
                pv == pairs.deep_view(),
                pv.len() == n,
                0 <= i <= n,
                self.wf(),
                self.vars() =~= pairs_map(pv.take(i as int)),
                self.req_data() == old(self).req_data(),
                self.resp_data() == old(self).resp_data(),
                self.console() == old(self).console(),
            decreases n - i,
        {
            let name = pairs[i].0.clone();
            let value = pairs[i].1.clone();
            proof {
                assert(pv.take(i + 1).drop_last() =~= pv.take(i as int));
                assert(pv[i as int] == (pairs@[i as int].0@, pairs@[i as int].1@));
            }
            self.variables.insert(name, ScriptVariable::new(value));
            i += 1;
        }
        proof {
            assert(pv.take(n as int) =~= pv);
        }
    }

    /// Store one request datum.
    pub fn set_request_data(&mut self, key: String, value: String)
        requires
            old(self).wf(),
        ensures
            final(self).wf(),
            final(self).req_data() =~= old(self).req_data().insert(key@, value@),
            final(self).vars() == old(self).vars(),
            final(self).resp_data() == old(self).resp_data(),
            final(self).console() == old(self).console(),
    {
        self.request_data.insert(key, value);
    }

    /// Read one request datum.
    pub fn get_request_data(&self, key: &str) -> (r: Option<&str>)
        requires
            self.wf(),
        ensures
            match r {
                Some(v) => self.req_data().contains_key(key@) && v@ == self.req_data()[key@],
                None => !self.req_data().contains_key(key@),
            },
    {
        match self.request_data.get(key) {
            Some(v) => Some(v.as_str()),
            None => None,
        }
    }

    /// Store one response datum.
    pub fn set_response_data(&mut self, key: String, value: String)
        requires
            old(self).wf(),
        ensures
            final(self).wf(),
            final(self).resp_data() =~= old(self).resp_data().insert(key@, value@),
            final(self).vars() == old(self).vars(),
            final(self).req_data() == old(self).req_data(),
            final(self).console() == old(self).console(),
    {
        self.response_data.insert(key, value);
    }

    /// Read one response datum.
    pub fn get_response_data(&self, key: &str) -> (r: Option<&str>)
        requires
            self.wf(),
        ensures
            match r {
                Some(v) => self.resp_data().contains_key(key@) && v@ == self.resp_data()[key@],
                None => !self.resp_data().contains_key(key@),
            },
    {
        match self.response_data.get(key) {
            Some(v) => Some(v.as_str()),
            None => None,
        }
    }

    /// Append one console line.
    pub fn console_log(&mut self, message: String)
        requires
            old(self).wf(),
        ensures
            final(self).wf(),
            final(self).console() =~= old(self).console().push(message@),
            final(self).vars() == old(self).vars(),
            final(self).req_data() == old(self).req_data(),
            final(self).resp_data() == old(self).resp_data(),
    {
        let ghost m = message@;
        self.console_output.push(message);
        proof {
            assert(self.console_output.deep_view() =~= old(self).console_output.deep_view().push(
                m,
            ));
        }
    }

    /// The console lines so far.
    pub fn console_output(&self) -> (r: &Vec<String>)
        ensures
            r.deep_view() == self.console(),
    {
        &self.console_output
    }

    /// Forget the console lines.
    pub fn clear_console(&mut self)
        requires
            old(self).wf(),
        ensures
            final(self).wf(),
            final(self).console() =~= Seq::<Seq<char>>::empty(),
            final(self).vars() == old(self).vars(),
            final(self).req_data() == old(self).req_data(),
            final(self).resp_data() == old(self).resp_data(),
    {
        self.console_output = Vec::new();
        assert(self.console_output.deep_view() =~= Seq::<Seq<char>>::empty());
    }

    /// All request data.
    pub fn request_data(&self) -> (r: &AssocMap<String>)
        ensures
            r@ == self.req_data(),
            r.seq() == self.req_seq(),
            self.wf() ==> r.wf(),
    {
        &self.request_data
    }

    /// All response data.
    pub fn response_data(&self) -> (r: &AssocMap<String>)
        ensures
            r@ == self.resp_data(),
            r.seq() == self.resp_seq(),
            self.wf() ==> r.wf(),
    {
        &self.response_data
    }
}

impl Default for ScriptContext {
    fn default() -> Self {
        ScriptContext::new()
    }
}

/// The pool described by a list of name-value pairs, later pairs
/// winning.
pub open spec fn pairs_map(pairs: Seq<(Seq<char>, Seq<char>)>) -> Map<Seq<char>, ScriptVariableView>
    decreases pairs.len(),
{
    if pairs.len() == 0 {
        Map::empty()
    } else {
        pairs_map(pairs.drop_last()).insert(
            pairs.last().0,
            ScriptVariableView { value: pairs.last().1, is_secret: false },
        )
    }
}

} // verus!
