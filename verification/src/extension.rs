use vstd::prelude::*;
use vstd::string::StringExecFns;

use crate::config::{jvm_options_for, JvmOptions};
use crate::constants::{LANGUAGE_SERVER_NAME, MINIMUM_REQUIRED_JAVA};
use crate::java::JavaRuntime;
use crate::text::{chars_equal, chars_of, decimal, push_decimal, string_views};

verus! {

/// A command that launches a language server.
pub struct LaunchCommand {
    pub command: String,
    pub args: Vec<String>,
    pub env: Vec<(String, String)>,
}

/// The Zed extension that runs the BSL language server.
pub struct BslExtension {
    java_runtime: Option<JavaRuntime>,
}

/// The Java version to insist on: the one the jar asks for, or the minimum when it does not say.
pub open spec fn required_or_minimum(detected: Option<u32>) -> u32 {
    match detected {
        Some(v) => v,
        None => MINIMUM_REQUIRED_JAVA,
    }
}

/// Message for a Java runtime that is older than the jar needs.
pub open spec fn java_too_old_text(java_path: Seq<char>, required: u32, installed: u32) -> Seq<char> {
    LANGUAGE_SERVER_NAME@ + " requires Java "@ + decimal(required as nat)
        + " or newer, but the Java runtime at `"@ + java_path + "` is version "@ + decimal(
        installed as nat,
    ) + ". Please install Java "@ + decimal(required as nat)
        + " (e.g. Temurin OpenJDK) and make sure it is on your `PATH`."@
}

/// The arguments that start the jar: the JVM flags, then `-jar` and the jar's path.
pub open spec fn launch_arguments(vars: Seq<(String, String)>, jar: Seq<char>) -> Seq<Seq<char>> {
    jvm_options_for(vars) + seq!["-jar"@, jar]
}

/// What launching with the `java` at `java_path` gives once its version `installed` is known:
/// an error when it is older than `required`, otherwise the command that starts the jar.
pub open spec fn launch_outcome(
    res: Result<LaunchCommand, String>,
    java_path: Seq<char>,
    vars: Seq<(String, String)>,
    jar: Seq<char>,
    required: u32,
    installed: u32,
) -> bool {
    match res {
        Err(m) => installed < required && m@ == java_too_old_text(java_path, required, installed),
        Ok(c) => installed >= required && c.command@ == java_path && string_views(c.args@)
            == launch_arguments(vars, jar) && c.env@.len() == 0,
    }
}

/// The Java version to insist on, given what the jar says it needs.
pub fn required_version(detected: Option<u32>) -> (res: u32)
    ensures
        res == required_or_minimum(detected),
{
    match detected {
        Some(version) => version,
        None => MINIMUM_REQUIRED_JAVA,
    }
}

/// A remembered runtime is reused for `java_path` when it runs that same executable.
pub open spec fn reuses_runtime(remembered: Option<JavaRuntime>, java_path: Seq<char>) -> bool {
    match remembered {
        Some(r) => r.spec_path() == java_path,
        None => false,
    }
}

/// The runtime `runtime_for` hands out for `java_path` when `before` is remembered: the
/// remembered one when it runs that executable, otherwise a fresh one for `java_path`.
pub open spec fn runtime_choice(before: Option<JavaRuntime>, java_path: Seq<char>, res: JavaRuntime) -> bool {
    if reuses_runtime(before, java_path) {
        res == before->0
    } else {
        res.spec_path() == java_path && res.spec_version() is None
    }
}

/// Asking again for the runtime of the path whose runtime is remembered gives back that same
/// runtime, with the version it learned; asking for another path gives a fresh runtime for
/// that path, which knows no version yet.
pub proof fn law_runtime_reused_for_same_path(
    remembered: JavaRuntime,
    java_path: Seq<char>,
    other: Seq<char>,
    res: JavaRuntime,
)
    requires
        remembered.spec_path() == java_path,
    ensures
        runtime_choice(Some(remembered), java_path, res) ==> res == remembered && known_version(
            Some(res),
            java_path,
        ) == remembered.spec_version(),
        other != java_path && runtime_choice(Some(remembered), other, res) ==> res.spec_path() == other
            && known_version(Some(res), other) is None,
{
}

/// The installed version that the runtime kept for `java_path` already knows.
pub open spec fn known_version(remembered: Option<JavaRuntime>, java_path: Seq<char>) -> Option<u32> {
    match remembered {
        Some(r) => if r.spec_path() == java_path {
            r.spec_version()
        } else {
            None
        },
        None => None,
    }
}

impl BslExtension {
    /// The runtime remembered from an earlier launch.
    pub closed spec fn spec_runtime(&self) -> Option<JavaRuntime> {
        self.java_runtime
    }

    /// An extension that has not probed any Java runtime yet.
    pub fn new() -> (res: Self)
        ensures
            res.spec_runtime() is None,
    {
        BslExtension { java_runtime: None }
    }

    /// The runtime for the `java` at `java_path`: the remembered one when it has that path,
    /// otherwise a fresh one, which is remembered from now on.
    pub fn runtime_for(&mut self, java_path: &str) -> (res: &mut JavaRuntime)
        ensures
            runtime_choice(old(self).spec_runtime(), java_path@, *res),
            res.spec_path() == java_path@,
            final(self).spec_runtime() == Some(*final(res)),
    {
        let keep = match &self.java_runtime {
            Some(runtime) => {
                let current = chars_of(runtime.path());
                let wanted = chars_of(java_path);
                chars_equal(current.as_slice(), wanted.as_slice())
            },
            None => false,
        };
        if !keep {
            self.java_runtime = Some(JavaRuntime::new(java_path));
        }
        self.java_runtime.as_mut().unwrap()
    }

    /// The version that the remembered runtime knows for the `java` at `java_path`, if any.
    pub fn remembered_version(&self, java_path: &str) -> (res: Option<u32>)
        ensures
            res == known_version(self.spec_runtime(), java_path@),
    {
        match &self.java_runtime {
            Some(runtime) => {
                let current = chars_of(runtime.path());
                let wanted = chars_of(java_path);
                if chars_equal(current.as_slice(), wanted.as_slice()) {
                    runtime.cached_version()
                } else {
                    None
                }
            },
            None => None,
        }
    }

    /// The command that starts the language server with the `java` at `java_path` and the jar
    /// at `jar`, once the installed Java version is known to be new enough for the jar.
    pub fn launch_command(
        java_path: &str,
        env_vars: &[(String, String)],
        jar: &str,
        required: u32,
        installed: u32,
    ) -> (res: Result<LaunchCommand, String>)
        ensures
            launch_outcome(res, java_path@, env_vars@, jar@, required, installed),
    {
        if installed < required {
            let mut message = String::from_str(LANGUAGE_SERVER_NAME);
            message.append(" requires Java ");
            push_decimal(&mut message, required as u64);
            message.append(" or newer, but the Java runtime at `");
            message.append(java_path);
            message.append("` is version ");
            push_decimal(&mut message, installed as u64);
            message.append(". Please install Java ");
            push_decimal(&mut message, required as u64);
            message.append(" (e.g. Temurin OpenJDK) and make sure it is on your `PATH`.");
            return Err(message);
        }
        let mut args = JvmOptions::from_env(env_vars).to_args();
        let ghost flags = args@;
        args.push(String::from_str("-jar"));
        args.push(String::from_str(jar));
        assert(string_views(args@) =~= string_views(flags) + seq!["-jar"@, jar@]);
        Ok(LaunchCommand { command: String::from_str(java_path), args, env: Vec::new() })
    }

    /// The command configured under `lsp.bsl.binary` in Zed's settings: present only when a
    /// path is configured; missing arguments or environment count as empty.
    pub fn binary_command(
        path: Option<String>,
        arguments: Option<Vec<String>>,
        env: Option<Vec<(String, String)>>,
    ) -> (res: Option<LaunchCommand>)
        ensures
            res is Some <==> path is Some,
            res matches Some(c) ==> c.command == path->0 && c.args@ == (match arguments {
                Some(a) => a@,
                None => Seq::empty(),
            }) && c.env@ == (match env {
                Some(e) => e@,
                None => Seq::empty(),
            }),
    {
        let command = match path {
            Some(command) => command,
            None => {
                return None;
            },
        };
        let args = match arguments {
            Some(args) => args,
            None => Vec::new(),
        };
        let env = match env {
            Some(env) => env,
            None => Vec::new(),
        };
        Some(LaunchCommand { command, args, env })
    }
}

/// The launch gives a command exactly when the installed Java is at least the required one,
/// and that command runs `java_path` with the JVM options, then `-jar` and the jar, and no
/// extra environment; a refusal names both versions.
pub proof fn law_launch_needs_new_enough_java(
    res: Result<LaunchCommand, String>,
    java_path: Seq<char>,
    vars: Seq<(String, String)>,
    jar: Seq<char>,
    required: u32,
    installed: u32,
)
    requires
        launch_outcome(res, java_path, vars, jar, required, installed),
    ensures
        res is Ok <==> installed >= required,
        res matches Ok(c) ==> c.command@ == java_path && string_views(c.args@) == jvm_options_for(vars)
            + seq!["-jar"@, jar] && c.env@.len() == 0,
        res matches Err(m) ==> m@ == LANGUAGE_SERVER_NAME@ + " requires Java "@ + decimal(required as nat)
            + " or newer, but the Java runtime at `"@ + java_path + "` is version "@ + decimal(installed as nat)
            + ". Please install Java "@ + decimal(required as nat)
            + " (e.g. Temurin OpenJDK) and make sure it is on your `PATH`."@,
{
}

} // verus!
