use vstd::prelude::*;
use crate::util::str_eq;

verus! {

/// Deployment environment.
#[derive(Clone, Copy, Debug, PartialEq, Eq, Structural)]
pub enum ENV {
    Development,
    Testing,
    Staging,
    Production,
}

/// The name an environment is written as.
pub open spec fn env_name(e: ENV) -> Seq<char> {
    match e {
        ENV::Development => "development"@,
        ENV::Testing => "testing"@,
        ENV::Staging => "staging"@,
        ENV::Production => "production"@,
    }
}

/// The environment a configured name selects: only "development",
/// "production" and "testing" are recognised, anything else means development.
pub open spec fn env_of_name(s: Seq<char>) -> ENV {
    if s == "production"@ {
        ENV::Production
    } else if s == "testing"@ {
        ENV::Testing
    } else {
        ENV::Development
    }
}

impl ENV {
    /// The environment that the configured name `s` selects.
    pub fn from_name(s: &str) -> (r: ENV)
        ensures
            r == env_of_name(s@),
    {
        proof {
            reveal_strlit("development");
            reveal_strlit("production");
            reveal_strlit("testing");
        }
        if str_eq(s, "development") {
            assert(s@.len() == 11);
            ENV::Development
        } else if str_eq(s, "production") {
            ENV::Production
        } else if str_eq(s, "testing") {
            ENV::Testing
        } else {
            ENV::Development
        }
    }

    /// The name of this environment.
    pub fn name(&self) -> (r: &'static str)
        ensures
            r@ == env_name(*self),
    {
        match self {
            ENV::Development => "development",
            ENV::Testing => "testing",
            ENV::Staging => "staging",
            ENV::Production => "production",
        }
    }
}

impl Default for ENV {
    fn default() -> (r: Self)
        ensures
            r == ENV::Development,
    {
        ENV::Development
    }
}

impl From<String> for ENV {
    fn from(env: String) -> (r: Self) {
        ENV::from_name(env.as_str())
    }
}

impl vstd::std_specs::convert::FromSpecImpl<String> for ENV {
    open spec fn obeys_from_spec() -> bool {
        true
    }

    open spec fn from_spec(env: String) -> ENV {
        env_of_name(env@)
    }
}

} // verus!
