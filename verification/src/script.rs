//! Script types: pre-request and post-response snippets that a caller's
//! interpreter runs against the context.

use crate::text::{char_is_trim_ws, is_trim_whitespace};
use vstd::prelude::*;

verus! {

/// When a script runs.
#[derive(Debug, Clone, Copy, PartialEq, Eq, Structural)]
pub enum ScriptType {
    /// Pre-request script (runs before sending request)
    PreRequest,
    /// Post-response script (runs after receiving response)
    PostResponse,
}

/// A script that can be executed.
#[derive(Debug, Clone)]
pub struct Script {
    /// Script type
    pub script_type: ScriptType,
    /// Script code
    pub code: String,
    /// Script name/description (optional)
    pub name: Option<String>,
    /// Whether script is enabled
    pub enabled: bool,
}

pub ghost struct ScriptView {
    pub script_type: ScriptType,
    pub code: Seq<char>,
    pub name: Option<Seq<char>>,
    pub enabled: bool,
}

impl View for Script {
    type V = ScriptView;

    open spec fn view(&self) -> ScriptView {
        ScriptView {
            script_type: self.script_type,
            code: self.code@,
            name: match self.name {
                Some(ref n) => Some(n@),
                None => None,
            },
            enabled: self.enabled,
        }
    }
}

/// The code has something beyond whitespace in it.
pub open spec fn has_code(s: Seq<char>) -> bool {
    exists|i: int| 0 <= i < s.len() && !is_trim_whitespace(#[trigger] s[i])
}

/// What `Script::should_execute` decides.
pub open spec fn spec_should_execute(s: ScriptView) -> bool {
    s.enabled && has_code(s.code)
}

impl Script {
    /// Create a new script, enabled and unnamed.
    pub fn new(script_type: ScriptType, code: String) -> (r: Self)
        ensures
            r@ == (ScriptView { script_type, code: code@, name: None, enabled: true }),
    {
        Script { script_type, code, name: None, enabled: true }
    }

    /// Create a pre-request script.
    pub fn pre_request(code: String) -> (r: Self)
        ensures
            r@ == (ScriptView {
                script_type: ScriptType::PreRequest,
                code: code@,
                name: None,
                enabled: true,
            }),
    {
        Self::new(ScriptType::PreRequest, code)
    }

    /// Create a post-response script.
    pub fn post_response(code: String) -> (r: Self)
        ensures
            r@ == (ScriptView {
                script_type: ScriptType::PostResponse,
                code: code@,
                name: None,
                enabled: true,
            }),
    {
        Self::new(ScriptType::PostResponse, code)
    }

    /// Set the name.
    pub fn with_name(self, name: String) -> (r: Self)
        ensures
            r@ == (ScriptView { name: Some(name@), ..self@ }),
    {
        Script {
            script_type: self.script_type,
            code: self.code,
            name: Some(name),
            enabled: self.enabled,
        }
    }

    /// Enable or disable the script.
    pub fn with_enabled(self, enabled: bool) -> (r: Self)
        ensures
            r@ == (ScriptView { enabled, ..self@ }),
    {
        Script { script_type: self.script_type, code: self.code, name: self.name, enabled }
    }

    /// Whether the script should run: it is enabled and its code is more
    /// than whitespace.
    pub fn should_execute(&self) -> (r: bool)
        ensures
            r == spec_should_execute(self@),
    {
        if !self.enabled {
            return false;
        }
        let code = self.code.as_str();
        let n = code.unicode_len();
        let mut i: usize = 0;
        while i < n
            invariant
                self.enabled,
                code@ == self.code@,
                n == code@.len(),
                0 <= i <= n,
                forall|j: int| 0 <= j < i ==> is_trim_whitespace(#[trigger] code@[j]),
            decreases n - i,
        {
            if !char_is_trim_ws(code.get_char(i)) {
                assert(has_code(self.code@)) by {
                    assert(!is_trim_whitespace(self.code@[i as int]));
                }
                return true;
            }
            i += 1;
        }
        false
    }

    /// Whether the script should run at the given phase: its type
    /// matches, it is enabled and its code is more than whitespace.  A
    /// script of the other type is a no-op at this phase.
    pub fn should_execute_as(&self, phase: ScriptType) -> (r: bool)
        ensures
            r == (self@.script_type == phase && spec_should_execute(self@)),
    {
        self.script_type == phase && self.should_execute()
    }

    /// An identical copy.
    pub fn duplicate(&self) -> (r: Self)
        ensures
            r@ == self@,
    {
        Script {
            script_type: self.script_type,
            code: self.code.clone(),
            name: match self.name {
                Some(ref n) => Some(n.clone()),
                None => None,
            },
            enabled: self.enabled,
        }
    }
}

} // verus!
