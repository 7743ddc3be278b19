use vstd::prelude::*;

use crate::constants::{DEFAULT_JVM_OPTION, JAVA_OPTIONS_ENV};
use crate::shell_env;
use crate::shell_env::env_value;
use crate::text::{clone_strings, split_whitespace, split_words, string_views};
use vstd::string::StringExecFns;

verus! {

/// JVM flags applied when launching the language server, overridable through
/// the `BSL_LANGUAGE_SERVER_JAVA_OPTS` environment variable.
pub struct JvmOptions {
    args: Vec<String>,
}

/// The flags used when no override is given.
pub open spec fn default_jvm_options() -> Seq<Seq<char>> {
    seq![DEFAULT_JVM_OPTION@]
}

/// The flags that the environment `vars` selects: the override split at whitespace, or the
/// default flags when the override is absent.
pub open spec fn jvm_options_for(vars: Seq<(String, String)>) -> Seq<Seq<char>> {
    match env_value(vars, JAVA_OPTIONS_ENV@) {
        Some(options) => split_whitespace(options),
        None => default_jvm_options(),
    }
}

impl View for JvmOptions {
    type V = Seq<Seq<char>>;

    closed spec fn view(&self) -> Seq<Seq<char>> {
        string_views(self.args@)
    }
}

impl JvmOptions {
    /// The flags for the environment `env_vars`.
    pub fn from_env(env_vars: &[(String, String)]) -> (res: Self)
        ensures
            res@ == jvm_options_for(env_vars@),
    {
        let args = match shell_env::value(env_vars, JAVA_OPTIONS_ENV) {
            Some(options) => split_words(options.as_str()),
            None => {
                let mut defaults: Vec<String> = Vec::new();
                defaults.push(String::from_str(DEFAULT_JVM_OPTION));
                assert(string_views(defaults@) =~= default_jvm_options());
                defaults
            },
        };
        JvmOptions { args }
    }

    /// The flags, in order.
    pub fn to_args(&self) -> (res: Vec<String>)
        ensures
            string_views(res@) == self@,
    {
        clone_strings(&self.args)
    }
}

} // verus!
