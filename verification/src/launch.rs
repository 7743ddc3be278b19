use vstd::prelude::*;
use vstd::string::StringExecFns;

use crate::constants::JAR_FILENAME;
use crate::extension::{
    known_version,
    launch_outcome, required_or_minimum, required_version, BslExtension, LaunchCommand,
};
use crate::jar::{required_java, BslJar};
use crate::java::{missing_java_text, unknown_version_text, JavaRuntime};
use crate::paths::{first_present, jar_candidates, JarRegistry};
use crate::text::string_views;
use crate::version::{parse_output, probe_version};
use crate::zip::{end_record_fits, end_record_fits_in};

verus! {

/// What deciding how to start the language server waits for.
#[derive(Clone, Copy, Debug, PartialEq, Eq, Structural)]
pub enum Stage {
    /// A command configured in Zed's settings.
    Settings,
    /// Where `java` is on the `PATH`.
    Java,
    /// The extension's own directory.
    ExtensionDir,
    /// Which candidate jars exist on disk.
    Candidates,
    /// The bytes of the jar.
    Jar,
    /// The report that the jar's Java version is unknown.
    RequiredReported,
    /// The output of probing `java`.
    Probe,
    /// The report that the installed Java version is unknown.
    ProbeFailed,
    /// Nothing: the outcome has been given.
    Done,
}

/// The outside work that deciding how to start the language server asks for next.
pub enum LaunchStep {
    /// Read `lsp.bsl.binary` from Zed's settings.
    ReadSettings,
    /// Find `java` on the worktree's `PATH`.
    LocateJava,
    /// Determine the extension's directory.
    FindExtensionDir,
    /// Tell which of these paths are existing files.
    CheckCandidates(Vec<String>),
    /// Read the jar at this path.
    ReadJar(String),
    /// Report this installation failure to Zed, then go on.
    Report(String),
    /// Run this `java` with `-XshowSettings:properties -version`.
    ProbeJava(String),
    /// The jar's end record runs past its end: reading it fails with this message.
    Crash(String),
    /// The decision: the command to run, or why there is none.
    Finish(Result<LaunchCommand, String>),
}

/// What the outside work asked for by a `LaunchStep` produced.
pub enum LaunchEvent {
    Settings(Option<LaunchCommand>),
    JavaLocated(Option<String>),
    ExtensionDir(Result<String, String>),
    CandidatesChecked(Vec<bool>),
    JarRead(Result<Vec<u8>, String>),
    Reported,
    JavaProbed(Result<String, String>),
}

/// The event that answers the step pending at `stage`.
pub open spec fn answers(stage: Stage, event: LaunchEvent) -> bool {
    match stage {
        Stage::Settings => event is Settings,
        Stage::Java => event is JavaLocated,
        Stage::ExtensionDir => event is ExtensionDir,
        Stage::Candidates => event is CandidatesChecked,
        Stage::Jar => event is JarRead,
        Stage::RequiredReported => event is Reported,
        Stage::Probe => event is JavaProbed,
        Stage::ProbeFailed => event is Reported,
        Stage::Done => false,
    }
}

/// Report made when the jar does not say which Java version it needs.
pub open spec fn unknown_required_text() -> Seq<char> {
    "Failed to determine the required Java version from the downloaded jar"@
}

/// Report made when the installed Java version cannot be determined.
pub open spec fn unknown_installed_text(java_path: Seq<char>) -> Seq<char> {
    "Failed to determine the installed Java version from `"@ + java_path + "`"@
}

/// Error when the extension's directory cannot be determined.
pub open spec fn no_extension_dir_text(error: Seq<char>) -> Seq<char> {
    "failed to determine the extension directory: "@ + error
}

/// The items of `items` separated by `, `.
pub open spec fn comma_list(items: Seq<Seq<char>>) -> Seq<char>
    decreases items.len(),
{
    if items.len() == 0 {
        Seq::empty()
    } else if items.len() == 1 {
        items[0]
    } else {
        comma_list(items.drop_last()) + ", "@ + items.last()
    }
}

/// Error when no candidate jar is present: the jar is not downloaded at start, so the error
/// names the paths where it is looked for.
pub open spec fn jar_not_found_text(candidates: Seq<Seq<char>>) -> Seq<char> {
    "`"@ + JAR_FILENAME@ + "` was not found; expected it at one of: "@ + comma_list(candidates)
}

/// Whether answering `stage` with `event` may change the runtime that the extension remembers:
/// only locating `java` and a probe that reports a version do.
pub open spec fn changes_runtime(stage: Stage, event: LaunchEvent) -> bool {
    ||| stage == Stage::Java && event matches LaunchEvent::JavaLocated(Some(_))
    ||| stage == Stage::Probe && (event matches LaunchEvent::JavaProbed(Ok(p)) && probe_version(p@) is Some)
}

/// Message for a jar whose end record runs past its end.
pub open spec fn cut_off_text(jar: Seq<char>) -> Seq<char> {
    "invalid jar at "@ + jar + ": the end of central directory record is cut off"@
}

/// The decisions of starting the BSL language server, taken one outside result at a time.
pub struct LaunchPlan {
    stage: Stage,
    env_vars: Vec<(String, String)>,
    java_path: String,
    extension_dir: String,
    jar: String,
    required: u32,
    error: String,
}

/// Once the required version is known: the outcome when the installed version `known` is
/// already known, or a probe of `java_path`.
pub open spec fn version_step(
    step: LaunchStep,
    stage: Stage,
    known: Option<u32>,
    java_path: Seq<char>,
    vars: Seq<(String, String)>,
    jar: Seq<char>,
    required: u32,
) -> bool {
    match known {
        Some(installed) => stage == Stage::Done && (step matches LaunchStep::Finish(res)
            && launch_outcome(res, java_path, vars, jar, required, installed)),
        None => stage == Stage::Probe && (step matches LaunchStep::ProbeJava(p) && p@ == java_path),
    }
}

/// The extension keeps a runtime for `java_path`, and it knows what was known before.
pub open spec fn keeps_runtime_for(
    before: Option<JavaRuntime>,
    after: Option<JavaRuntime>,
    java_path: Seq<char>,
) -> bool {
    &&& after matches Some(r) && r.spec_path() == java_path
    &&& known_version(after, java_path) == known_version(before, java_path)
}

impl LaunchPlan {
    pub closed spec fn spec_stage(&self) -> Stage {
        self.stage
    }

    pub closed spec fn spec_env(&self) -> Seq<(String, String)> {
        self.env_vars@
    }

    pub closed spec fn spec_java(&self) -> Seq<char> {
        self.java_path@
    }

    pub closed spec fn spec_extension_dir(&self) -> Seq<char> {
        self.extension_dir@
    }

    pub closed spec fn spec_jar(&self) -> Seq<char> {
        self.jar@
    }

    pub closed spec fn spec_required(&self) -> u32 {
        self.required
    }

    pub closed spec fn spec_error(&self) -> Seq<char> {
        self.error@
    }

    /// The stage reached so far.
    pub fn stage(&self) -> (res: Stage)
        ensures
            res == self.spec_stage(),
    {
        self.stage
    }

    /// A fresh decision for a worktree whose shell environment is `env_vars`; the first step is
    /// reading the settings.
    pub fn start(env_vars: &[(String, String)]) -> (res: (Self, LaunchStep))
        ensures
            res.0.spec_stage() == Stage::Settings,
            res.0.spec_env() == env_vars@,
            res.1 is ReadSettings,
    {
        let mut vars: Vec<(String, String)> = Vec::new();
        let mut i: usize = 0;
        while i < env_vars.len()
            invariant
                i <= env_vars@.len(),
                vars@ == env_vars@.take(i as int),
            decreases env_vars@.len() - i,
        {
            vars.push((env_vars[i].0.clone(), env_vars[i].1.clone()));
            i += 1;
            assert(vars@ =~= env_vars@.take(i as int));
        }
        assert(env_vars@.take(env_vars@.len() as int) =~= env_vars@);
        (
            LaunchPlan {
                stage: Stage::Settings,
                env_vars: vars,
                java_path: String::new(),
                extension_dir: String::new(),
                jar: String::new(),
                required: 0,
                error: String::new(),
            },
            LaunchStep::ReadSettings,
        )
    }

    /// Whether `event` answers the step pending now.
    pub fn accepts(&self, event: &LaunchEvent) -> (res: bool)
        ensures
            res == answers(self.spec_stage(), *event),
    {
        match self.stage {
            Stage::Settings => match event {
                LaunchEvent::Settings(_) => true,
                _ => false,
            },
            Stage::Java => match event {
                LaunchEvent::JavaLocated(_) => true,
                _ => false,
            },
            Stage::ExtensionDir => match event {
                LaunchEvent::ExtensionDir(_) => true,
                _ => false,
            },
            Stage::Candidates => match event {
                LaunchEvent::CandidatesChecked(_) => true,
                _ => false,
            },
            Stage::Jar => match event {
                LaunchEvent::JarRead(_) => true,
                _ => false,
            },
            Stage::RequiredReported | Stage::ProbeFailed => match event {
                LaunchEvent::Reported => true,
                _ => false,
            },
            Stage::Probe => match event {
                LaunchEvent::JavaProbed(_) => true,
                _ => false,
            },
            Stage::Done => false,
        }
    }

    /// With the required version known: finish when the runtime knows its version, else probe.
    fn after_required(&mut self, extension: &BslExtension) -> (step: LaunchStep)
        ensures
            final(self).spec_env() == old(self).spec_env(),
            final(self).spec_java() == old(self).spec_java(),
            final(self).spec_extension_dir() == old(self).spec_extension_dir(),
            final(self).spec_jar() == old(self).spec_jar(),
            final(self).spec_required() == old(self).spec_required(),
            final(self).spec_error() == old(self).spec_error(),
            version_step(
                step,
                final(self).spec_stage(),
                known_version(extension.spec_runtime(), old(self).spec_java()),
                old(self).spec_java(),
                old(self).spec_env(),
                old(self).spec_jar(),
                old(self).spec_required(),
            ),
    {
        match extension.remembered_version(self.java_path.as_str()) {
            Some(installed) => {
                self.stage = Stage::Done;
                LaunchStep::Finish(
                    BslExtension::launch_command(
                        self.java_path.as_str(),
                        self.env_vars.as_slice(),
                        self.jar.as_str(),
                        self.required,
                        installed,
                    ),
                )
            },
            None => {
                self.stage = Stage::Probe;
                LaunchStep::ProbeJava(self.java_path.clone())
            },
        }
    }

    /// The error for a launch where no candidate jar is present.
    fn jar_not_found(candidates: &Vec<String>) -> (res: String)
        ensures
            res@ == jar_not_found_text(string_views(candidates@)),
    {
        let mut message = String::from_str("`");
        message.append(JAR_FILENAME);
        message.append("` was not found; expected it at one of: ");
        let ghost prefix = message@;
        let mut i: usize = 0;
        while i < candidates.len()
            invariant
                i <= candidates@.len(),
                message@ == prefix + comma_list(string_views(candidates@).take(i as int)),
            decreases candidates@.len() - i,
        {
            let ghost before = string_views(candidates@).take(i as int);
            let ghost after = string_views(candidates@).take(i + 1);
            assert(after.drop_last() =~= before);
            if i > 0 {
                message.append(", ");
            }
            message.append(candidates[i].as_str());
            i += 1;
            proof {
                if before.len() == 0 {
                    assert(comma_list(before) =~= Seq::<char>::empty());
                    assert(after.len() == 1);
                    assert(comma_list(after) == after[0]);
                }
            }
            assert(message@ =~= prefix + comma_list(after));
        }
        assert(string_views(candidates@).take(candidates@.len() as int) =~= string_views(candidates@));
        message
    }

    /// Takes the answer `event` to the pending step and returns the next step. The extension
    /// remembers the Java runtime across launches.
    pub fn advance(&mut self, extension: &mut BslExtension, event: LaunchEvent) -> (step: LaunchStep)
        requires
            answers(old(self).spec_stage(), event),
        ensures
            final(self).spec_env() == old(self).spec_env(),
            old(self).spec_stage() != Stage::Java ==> final(self).spec_java() == old(self).spec_java(),
            old(self).spec_stage() != Stage::ExtensionDir ==> final(self).spec_extension_dir()
                == old(self).spec_extension_dir(),
            old(self).spec_stage() != Stage::Candidates ==> final(self).spec_jar() == old(self).spec_jar(),
            old(self).spec_stage() != Stage::Jar ==> final(self).spec_required() == old(self).spec_required(),
            old(self).spec_stage() != Stage::Probe ==> final(self).spec_error() == old(self).spec_error(),
            !changes_runtime(old(self).spec_stage(), event) ==> final(extension).spec_runtime()
                == old(extension).spec_runtime(),
            match old(self).spec_stage() {
                Stage::Settings => match event {
                    LaunchEvent::Settings(Some(c)) => step == LaunchStep::Finish(Ok(c))
                        && final(self).spec_stage() == Stage::Done,
                    _ => step is LocateJava && final(self).spec_stage() == Stage::Java,
                },
                Stage::Java => match event {
                    LaunchEvent::JavaLocated(Some(p)) => step is FindExtensionDir
                        && final(self).spec_stage() == Stage::ExtensionDir && final(self).spec_java() == p@
                        && keeps_runtime_for(old(extension).spec_runtime(), final(extension).spec_runtime(), p@),
                    _ => (step matches LaunchStep::Finish(Err(m)) && m@ == missing_java_text())
                        && final(self).spec_stage() == Stage::Done,
                },
                Stage::ExtensionDir => match event {
                    LaunchEvent::ExtensionDir(Ok(d)) => final(self).spec_stage() == Stage::Candidates
                        && final(self).spec_extension_dir() == d@ && (step matches LaunchStep::CheckCandidates(c)
                        && string_views(c@) == jar_candidates(old(self).spec_env(), d@)),
                    LaunchEvent::ExtensionDir(Err(e)) => (step matches LaunchStep::Finish(Err(m)) && m@
                        == no_extension_dir_text(e@)) && final(self).spec_stage() == Stage::Done,
                    _ => false,
                },
                Stage::Candidates => match event {
                    LaunchEvent::CandidatesChecked(present) => match first_present(
                        jar_candidates(old(self).spec_env(), old(self).spec_extension_dir()),
                        present@,
                        0,
                    ) {
                        Some(j) => final(self).spec_stage() == Stage::Jar && final(self).spec_jar() == j
                            && (step matches LaunchStep::ReadJar(p) && p@ == j),
                        None => final(self).spec_stage() == Stage::Done && (step matches LaunchStep::Finish(Err(m))
                            && m@ == jar_not_found_text(jar_candidates(old(self).spec_env(), old(self).spec_extension_dir()))),
                    },
                    _ => false,
                },
                Stage::Jar => match event {
                    LaunchEvent::JarRead(Err(e)) => step == LaunchStep::Finish(Err(e))
                        && final(self).spec_stage() == Stage::Done,
                    LaunchEvent::JarRead(Ok(bytes)) => if !end_record_fits(bytes@) {
                        (step matches LaunchStep::Crash(m) && m@ == cut_off_text(old(self).spec_jar()))
                            && final(self).spec_stage() == Stage::Done
                    } else {
                        match required_java(old(self).spec_jar(), bytes@) {
                            Err(m) => (step matches LaunchStep::Finish(Err(e)) && e@ == m)
                                && final(self).spec_stage() == Stage::Done,
                            Ok(None) => (step matches LaunchStep::Report(m) && m@ == unknown_required_text())
                                && final(self).spec_stage() == Stage::RequiredReported
                                && final(self).spec_required() == required_or_minimum(None),
                            Ok(Some(v)) => final(self).spec_required() == v && version_step(
                                step,
                                final(self).spec_stage(),
                                known_version(old(extension).spec_runtime(), old(self).spec_java()),
                                old(self).spec_java(),
                                old(self).spec_env(),
                                old(self).spec_jar(),
                                v,
                            ),
                        }
                    },
                    _ => false,
                },
                Stage::RequiredReported => version_step(
                    step,
                    final(self).spec_stage(),
                    known_version(old(extension).spec_runtime(), old(self).spec_java()),
                    old(self).spec_java(),
                    old(self).spec_env(),
                    old(self).spec_jar(),
                    old(self).spec_required(),
                ),
                Stage::Probe => match event {
                    LaunchEvent::JavaProbed(Ok(probe)) => match probe_version(probe@) {
                        Some(installed) => final(self).spec_stage() == Stage::Done && (step matches LaunchStep::Finish(res)
                            && launch_outcome(
                            res,
                            old(self).spec_java(),
                            old(self).spec_env(),
                            old(self).spec_jar(),
                            old(self).spec_required(),
                            installed,
                        )) && (final(extension).spec_runtime() matches Some(r) && r.spec_path()
                            == old(self).spec_java() && r.spec_version() == Some(installed)),
                        None => final(self).spec_stage() == Stage::ProbeFailed && (step matches LaunchStep::Report(m)
                            && m@ == unknown_installed_text(old(self).spec_java())) && final(self).spec_error()
                            == unknown_version_text(old(self).spec_java()),
                    },
                    LaunchEvent::JavaProbed(Err(e)) => final(self).spec_stage() == Stage::ProbeFailed && (
                    step matches LaunchStep::Report(m) && m@ == unknown_installed_text(old(self).spec_java()))
                        && final(self).spec_error() == e@,
                    _ => false,
                },
                Stage::ProbeFailed => (step matches LaunchStep::Finish(Err(e)) && e@ == old(self).spec_error())
                    && final(self).spec_stage() == Stage::Done,
                Stage::Done => false,
            },
    {
        match event {
            LaunchEvent::Settings(settings) => match settings {
                Some(command) => {
                    self.stage = Stage::Done;
                    LaunchStep::Finish(Ok(command))
                },
                None => {
                    self.stage = Stage::Java;
                    LaunchStep::LocateJava
                },
            },
            LaunchEvent::JavaLocated(found) => match found {
                None => {
                    self.stage = Stage::Done;
                    LaunchStep::Finish(Err(JavaRuntime::missing_message()))
                },
                Some(path) => {
                    let _ = extension.runtime_for(path.as_str());
                    self.java_path = path;
                    self.stage = Stage::ExtensionDir;
                    LaunchStep::FindExtensionDir
                },
            },
            LaunchEvent::ExtensionDir(dir) => match dir {
                Err(error) => {
                    self.stage = Stage::Done;
                    let mut message = String::from_str("failed to determine the extension directory: ");
                    message.append(error.as_str());
                    LaunchStep::Finish(Err(message))
                },
                Ok(dir) => {
                    let registry = JarRegistry::new(self.env_vars.as_slice(), dir.as_str());
                    self.extension_dir = dir;
                    self.stage = Stage::Candidates;
                    LaunchStep::CheckCandidates(registry.candidates())
                },
            },
            LaunchEvent::CandidatesChecked(present) => {
                let registry = JarRegistry::new(self.env_vars.as_slice(), self.extension_dir.as_str());
                match registry.existing(present.as_slice()) {
                    Some(jar) => {
                        self.jar = jar.clone();
                        self.stage = Stage::Jar;
                        LaunchStep::ReadJar(jar)
                    },
                    None => {
                        self.stage = Stage::Done;
                        let candidates = registry.candidates();
                        LaunchStep::Finish(Err(Self::jar_not_found(&candidates)))
                    },
                }
            },
            LaunchEvent::JarRead(read) => match read {
                Err(error) => {
                    self.stage = Stage::Done;
                    LaunchStep::Finish(Err(error))
                },
                Ok(bytes) => {
                    if !end_record_fits_in(bytes.as_slice()) {
                        self.stage = Stage::Done;
                        let mut message = String::from_str("invalid jar at ");
                        message.append(self.jar.as_str());
                        message.append(": the end of central directory record is cut off");
                        return LaunchStep::Crash(message);
                    }
                    match BslJar::new(self.jar.as_str()).java_version(bytes) {
                        Err(error) => {
                            self.stage = Stage::Done;
                            LaunchStep::Finish(Err(error))
                        },
                        Ok(detected) => {
                            self.required = required_version(detected);
                            if detected.is_none() {
                                self.stage = Stage::RequiredReported;
                                LaunchStep::Report(
                                    String::from_str(
                                        "Failed to determine the required Java version from the downloaded jar",
                                    ),
                                )
                            } else {
                                self.after_required(extension)
                            }
                        },
                    }
                },
            },
            LaunchEvent::Reported => {
                if self.stage == Stage::RequiredReported {
                    self.after_required(extension)
                } else {
                    self.stage = Stage::Done;
                    LaunchStep::Finish(Err(self.error.clone()))
                }
            },
            LaunchEvent::JavaProbed(probed) => {
                let outcome = match probed {
                    Err(error) => Err(error),
                    Ok(probe) => match parse_output(probe.as_str()) {
                        Some(_) => {
                            let runtime = extension.runtime_for(self.java_path.as_str());
                            runtime.version_from_probe(probe.as_str())
                        },
                        None => {
                            let mut message = String::from_str(
                                "failed to determine the installed Java version from `java` at ",
                            );
                            message.append(self.java_path.as_str());
                            Err(message)
                        },
                    },
                };
                match outcome {
                    Ok(installed) => {
                        self.stage = Stage::Done;
                        LaunchStep::Finish(
                            BslExtension::launch_command(
                                self.java_path.as_str(),
                                self.env_vars.as_slice(),
                                self.jar.as_str(),
                                self.required,
                                installed,
                            ),
                        )
                    },
                    Err(error) => {
                        self.error = error;
                        self.stage = Stage::ProbeFailed;
                        let mut message = String::from_str(
                            "Failed to determine the installed Java version from `",
                        );
                        message.append(self.java_path.as_str());
                        message.append("`");
                        LaunchStep::Report(message)
                    },
                }
            },
        }
    }
}

} // verus!
