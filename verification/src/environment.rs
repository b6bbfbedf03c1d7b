//! Named environments: variable tables a chain can be resolved
//! against.  Identity and timestamps come in as plain values; only
//! enabled variables are readable.

use crate::strmap::AssocMap;
use vstd::prelude::*;

verus! {

/// An individual environment variable.
#[derive(Debug, Clone)]
pub struct EnvironmentVariable {
    /// Variable value
    pub value: String,
    /// Is this a secret variable?
    pub is_secret: bool,
    /// Variable type (string, number, boolean, ...)
    pub var_type: Option<String>,
    /// Description of this variable
    pub description: Option<String>,
    /// Is this variable enabled?
    pub enabled: bool,
}

pub ghost struct EnvironmentVariableView {
    pub value: Seq<char>,
    pub is_secret: bool,
    pub var_type: Option<Seq<char>>,
    pub description: Option<Seq<char>>,
    pub enabled: bool,
}

impl View for EnvironmentVariable {
    type V = EnvironmentVariableView;

    open spec fn view(&self) -> EnvironmentVariableView {
        EnvironmentVariableView {
            value: self.value@,
            is_secret: self.is_secret,
            var_type: match self.var_type {
                Some(ref t) => Some(t@),
                None => None,
            },
            description: match self.description {
                Some(ref d) => Some(d@),
                None => None,
            },
            enabled: self.enabled,
        }
    }
}

/// A plain enabled variable with the given value.
pub open spec fn spec_env_var(
    value: Seq<char>,
    is_secret: bool,
    description: Option<Seq<char>>,
) -> EnvironmentVariableView {
    EnvironmentVariableView { value, is_secret, var_type: None, description, enabled: true }
}

/// An environment with variables.
#[derive(Debug)]
pub struct Environment {
    /// Unique identifier
    pub id: String,
    /// Environment name
    pub name: String,
    /// Description
    pub description: Option<String>,
    /// Variables, by name
    pub variables: AssocMap<EnvironmentVariable>,
    /// Created timestamp, in milliseconds since the epoch
    pub created_at_ms: i64,
    /// Last modified timestamp, in milliseconds since the epoch
    pub updated_at_ms: i64,
    /// Is this environment active?
    pub is_active: bool,
}

impl Environment {
    /// The variables, by name.
    pub open spec fn vars(&self) -> Map<Seq<char>, EnvironmentVariableView> {
        self.variables@
    }

    /// The stored entries, in insertion order.
    pub open spec fn vars_seq(&self) -> Seq<(String, EnvironmentVariable)> {
        self.variables.seq()
    }

    pub open spec fn wf(&self) -> bool {
        self.variables.wf()
    }

    /// Create an inactive environment without variables, stamped with
    /// the given moment.
    pub fn new(id: String, name: String, now_ms: i64) -> (r: Self)
        ensures
            r.wf(),
            r.id@ == id@,
            r.name@ == name@,
            r.description is None,
            r.vars() =~= Map::<Seq<char>, EnvironmentVariableView>::empty(),
            r.created_at_ms == now_ms,
            r.updated_at_ms == now_ms,
            !r.is_active,
    {
        Environment {
            id,
            name,
            description: None,
            variables: AssocMap::new(),
            created_at_ms: now_ms,
            updated_at_ms: now_ms,
            is_active: false,
        }
    }

    /// Set the description.
    pub fn with_description(self, description: String) -> (r: Self)
        requires
            self.wf(),
        ensures
            r.wf(),
            r.description == Some(description),
            r.vars() == self.vars(),
            r.id == self.id,
            r.name == self.name,
            r.created_at_ms == self.created_at_ms,
            r.updated_at_ms == self.updated_at_ms,
            r.is_active == self.is_active,
    {
        let mut e = self;
        e.description = Some(description);
        e
    }

    /// Bind an enabled, non-secret variable and stamp the change.
    pub fn set_variable(&mut self, key: String, value: String, now_ms: i64)
        requires
            old(self).wf(),
        ensures
            final(self).wf(),
            final(self).vars() =~= old(self).vars().insert(
                key@,
                spec_env_var(value@, false, None),
            ),
            final(self).updated_at_ms == now_ms,
            final(self).is_active == old(self).is_active,
    {
        self.variables.insert(
            key,
            EnvironmentVariable {
                value,
                is_secret: false,
                var_type: None,
                description: None,
                enabled: true,
            },
        );
        self.updated_at_ms = now_ms;
    }

    /// Bind an enabled secret variable and stamp the change.
    pub fn set_secret(&mut self, key: String, value: String, now_ms: i64)
        requires
            old(self).wf(),
        ensures
            final(self).wf(),
            final(self).vars() =~= old(self).vars().insert(
                key@,
                spec_env_var(value@, true, None),
            ),
            final(self).updated_at_ms == now_ms,
    {
        self.variables.insert(
            key,
            EnvironmentVariable {
                value,
                is_secret: true,
                var_type: None,
                description: None,
                enabled: true,
            },
        );
        self.updated_at_ms = now_ms;
    }

    /// Bind an enabled variable with full configuration and stamp the
    /// change.
    pub fn set_variable_full(
        &mut self,
        key: String,
        value: String,
        is_secret: bool,
        description: Option<String>,
        now_ms: i64,
    )
        requires
            old(self).wf(),
        ensures
            final(self).wf(),
            final(self).vars() =~= old(self).vars().insert(
                key@,
                spec_env_var(
                    value@,
                    is_secret,
                    match description {
                        Some(d) => Some(d@),
                        None => None,
                    },
                ),
            ),
            final(self).updated_at_ms == now_ms,
    {
        self.variables.insert(
            key,
            EnvironmentVariable { value, is_secret, var_type: None, description, enabled: true },
        );
        self.updated_at_ms = now_ms;
    }

    /// Read a variable's value; a disabled variable reads as absent.
    pub fn get_variable(&self, key: &str) -> (r: Option<&str>)
        requires
            self.wf(),
        ensures
            match r {
                Some(v) => self.vars().contains_key(key@) && self.vars()[key@].enabled && v@
                    == self.vars()[key@].value,
                None => !self.vars().contains_key(key@) || !self.vars()[key@].enabled,
            },
    {
        match self.variables.get(key) {
            Some(var) => {
                if var.enabled {
                    Some(var.value.as_str())
                } else {
                    None
                }
            },
            None => None,
        }
    }

    /// Drop a variable; the change is stamped only when one was bound.
    pub fn remove_variable(&mut self, key: &str, now_ms: i64) -> (r: bool)
        requires
            old(self).wf(),
        ensures
            final(self).wf(),
            r == old(self).vars().contains_key(key@),
            final(self).vars() =~= old(self).vars().remove(key@),
            r ==> final(self).updated_at_ms == now_ms,
            !r ==> final(self).updated_at_ms == old(self).updated_at_ms,
    {
        if self.variables.remove(key).is_some() {
            self.updated_at_ms = now_ms;
            true
        } else {
            false
        }
    }

    /// Enable or disable a variable; the change is stamped only when
    /// one was bound.
    pub fn set_variable_enabled(&mut self, key: &str, enabled: bool, now_ms: i64) -> (r: bool)
        requires
            old(self).wf(),
        ensures
            final(self).wf(),
            r == old(self).vars().contains_key(key@),
            r ==> final(self).vars() =~= old(self).vars().insert(
                key@,
                (EnvironmentVariableView { enabled, ..old(self).vars()[key@] }),
            ) && final(self).updated_at_ms == now_ms,
            !r ==> final(self).vars() == old(self).vars() && final(self).updated_at_ms == old(
                self,
            ).updated_at_ms,
    {
        match self.variables.remove(key) {
            Some(var) => {
                let mut var = var;
                var.enabled = enabled;
                self.variables.insert(key.to_owned(), var);
                self.updated_at_ms = now_ms;
                proof {
                    assert(self.variables@ =~= old(self).vars().insert(
                        key@,
                        (EnvironmentVariableView { enabled, ..old(self).vars()[key@] }),
                    ));
                }
                true
            },
            None => {
                proof {
                    assert(self.variables@ =~= old(self).vars());
                }
                false
            },
        }
    }

    /// All variable names, in insertion order.
    pub fn variable_names(&self) -> (r: Vec<String>)
        requires
            self.wf(),
        ensures
            r.deep_view().len() == self.vars_seq().len(),
            forall|j: int|
                0 <= j < r.deep_view().len() ==> #[trigger] r.deep_view()[j]
                    == self.vars_seq()[j].0@,
    {
        let entries = self.variables.entries();
        let n = entries.len();
        let mut out: Vec<String> = Vec::new();
        let mut i: usize = 0;
        while i < n
            invariant
                n == entries@.len(),
                entries@ == self.vars_seq(),
                0 <= i <= n,
                out.deep_view().len() == i,
                forall|j: int|
                    0 <= j < i ==> #[trigger] out.deep_view()[j] == self.vars_seq()[j].0@,
            decreases n - i,
        {
            let ghost before = out.deep_view();
            out.push(entries[i].0.clone());
            proof {
                assert(out.deep_view() =~= before.push(self.vars_seq()[i as int].0@));
            }
            i += 1;
        }
        out
    }

    /// The enabled variables as a plain name-to-value table, ready for
    /// substitution.
    pub fn enabled_variables(&self) -> (r: AssocMap<String>)
        requires
            self.wf(),
        ensures
            r.wf(),
            forall|k: Seq<char>|
                #[trigger] r@.contains_key(k) == (self.vars().contains_key(k)
                    && self.vars()[k].enabled),
            forall|k: Seq<char>| #[trigger] r@.contains_key(k) ==> r@[k] == self.vars()[k].value,
    {
        let entries = self.variables.entries();
        let mut out: AssocMap<String> = AssocMap::new();
        let n = entries.len();
        let mut i: usize = 0;
        while i < n
            invariant
                self.wf(),
                n == entries@.len(),
                entries@ == self.vars_seq(),
                0 <= i <= n,
                out.wf(),
                forall|k: Seq<char>|
                    #[trigger] out@.contains_key(k) ==> (self.vars().contains_key(k)
                        && self.vars()[k].enabled && out@[k] == self.vars()[k].value),
                forall|j: int|
                    0 <= j < i && (#[trigger] entries@[j]).1@.enabled ==> out@.contains_key(
                        entries@[j].0@,
                    ),
            decreases n - i,
        {
            proof {
                self.variables.lemma_entry_in_view(i as int);
            }
            if entries[i].1.enabled {
                out.insert(entries[i].0.clone(), entries[i].1.value.clone());
            }
            i += 1;
        }
        proof {
            assert forall|k: Seq<char>|
                self.vars().contains_key(k) && self.vars()[k].enabled implies #[trigger] out@.contains_key(
                k,
            ) by {
                self.variables.lemma_view_key(k);
                let j = choose|j: int|
                    0 <= j < self.variables.seq().len() && (#[trigger] self.variables.seq()[j]).0@
                        == k;
                self.variables.lemma_entry_in_view(j);
                assert(entries@[j].1@.enabled);
            }
        }
        out
    }

    /// Mark the environment active and stamp the change.
    pub fn activate(&mut self, now_ms: i64)
        requires
            old(self).wf(),
        ensures
            final(self).wf(),
            final(self).is_active,
            final(self).vars() == old(self).vars(),
            final(self).updated_at_ms == now_ms,
    {
        self.is_active = true;
        self.updated_at_ms = now_ms;
    }

    /// Mark the environment inactive and stamp the change.
    pub fn deactivate(&mut self, now_ms: i64)
        requires
            old(self).wf(),
        ensures
            final(self).wf(),
            !final(self).is_active,
            final(self).vars() == old(self).vars(),
            final(self).updated_at_ms == now_ms,
    {
        self.is_active = false;
        self.updated_at_ms = now_ms;
    }
}

} // verus!
