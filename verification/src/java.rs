use vstd::prelude::*;
use vstd::string::StringExecFns;

use crate::constants::LANGUAGE_SERVER_NAME;
use crate::jar::{decode_lossy, lossy_text};
use crate::version::{parse_output, probe_version};

verus! {

/// The Java runtime at a given path, with its major version once it has been determined.
pub struct JavaRuntime {
    path: String,
    version: Option<u32>,
}

/// Message shown when no `java` executable can be found on the `PATH`.
pub open spec fn missing_java_text() -> Seq<char> {
    "A Java runtime is required to run the official "@ + LANGUAGE_SERVER_NAME@
        + " (a Java application), but `java` was not found on your PATH. Install Java 21 or newer (e.g. Temurin OpenJDK: https://adoptium.net) and try again."@
}

/// The text of a probe: its standard error, a newline, then its standard output, each decoded
/// with invalid UTF-8 replaced.
pub open spec fn probe_text(stderr: Seq<u8>, stdout: Seq<u8>) -> Seq<char> {
    lossy_text(stderr) + "\n"@ + lossy_text(stdout)
}

/// Joins what `java -XshowSettings:properties -version` wrote to standard error and standard
/// output into the text that `JavaRuntime::version_from_probe` reads.
pub fn probe_output_text(stderr: &[u8], stdout: &[u8]) -> (res: String)
    ensures
        res@ == probe_text(stderr@, stdout@),
{
    let mut text = decode_lossy(stderr);
    text.append("\n");
    let out = decode_lossy(stdout);
    text.append(out.as_str());
    text
}

/// Message for a probe output that names no version.
pub open spec fn unknown_version_text(path: Seq<char>) -> Seq<char> {
    "failed to determine the installed Java version from `java` at "@ + path
}

/// The version a runtime knows after reading one probe output: the version the probe
/// reports, or the one it knew before when the probe reports none.
pub open spec fn probed_version(known: Option<u32>, probe: Seq<char>) -> Option<u32> {
    match probe_version(probe) {
        Some(v) => Some(v),
        None => known,
    }
}

/// A runtime's path and known version after reading the probe outputs `probes` in order,
/// starting from `path` and `known`.
pub open spec fn after_probes(path: Seq<char>, known: Option<u32>, probes: Seq<Seq<char>>) -> (
    Seq<char>,
    Option<u32>,
)
    decreases probes.len(),
{
    if probes.len() == 0 {
        (path, known)
    } else {
        let before = after_probes(path, known, probes.drop_last());
        (before.0, probed_version(before.1, probes.last()))
    }
}

/// The version reported by the last of `probes` that reports one.
pub open spec fn last_probed(probes: Seq<Seq<char>>) -> Option<u32>
    decreases probes.len(),
{
    if probes.len() == 0 {
        None
    } else {
        match probe_version(probes.last()) {
            Some(v) => Some(v),
            None => last_probed(probes.drop_last()),
        }
    }
}

/// A runtime created for `path` and then given any sequence of probe outputs keeps `path`,
/// and knows the version of the last probe that reported one (nothing when none did).
pub proof fn law_probes_keep_the_path(path: Seq<char>, probes: Seq<Seq<char>>)
    ensures
        after_probes(path, None, probes).0 == path,
        after_probes(path, None, probes).1 == last_probed(probes),
    decreases probes.len(),
{
    if probes.len() > 0 {
        law_probes_keep_the_path(path, probes.drop_last());
    }
}

impl JavaRuntime {
    /// The path of the `java` executable.
    pub closed spec fn spec_path(&self) -> Seq<char> {
        self.path@
    }

    /// The version determined so far.
    pub closed spec fn spec_version(&self) -> Option<u32> {
        self.version
    }

    /// The runtime at `path`, whose version is not known yet.
    pub fn new(path: &str) -> (res: Self)
        ensures
            res.spec_path() == path@,
            res.spec_version() is None,
    {
        JavaRuntime { path: String::from_str(path), version: None }
    }

    /// The path of the `java` executable.
    pub fn path(&self) -> (res: &str)
        ensures
            res@ == self.spec_path(),
    {
        self.path.as_str()
    }

    /// The version determined by an earlier probe, if any.
    pub fn cached_version(&self) -> (res: Option<u32>)
        ensures
            res == self.spec_version(),
    {
        self.version
    }

    /// Takes the combined output of `java -XshowSettings:properties -version` and remembers the
    /// major version it reports.
    pub fn version_from_probe(&mut self, probe: &str) -> (res: Result<u32, String>)
        ensures
            final(self).spec_path() == old(self).spec_path(),
            final(self).spec_version() == probed_version(old(self).spec_version(), probe@),
            match probe_version(probe@) {
                Some(v) => res == Ok::<u32, String>(v) && final(self).spec_version() == Some(v),
                None => res is Err && final(self).spec_version() == old(self).spec_version(),
            },
            res matches Err(m) ==> m@ == unknown_version_text(old(self).spec_path()),
    {
        match parse_output(probe) {
            Some(version) => {
                self.version = Some(version);
                Ok(version)
            },
            None => {
                let mut message = String::from_str(
                    "failed to determine the installed Java version from `java` at ",
                );
                message.append(self.path.as_str());
                Err(message)
            },
        }
    }

    /// Message shown when no `java` executable can be found on the `PATH`.
    pub fn missing_message() -> (res: String)
        ensures
            res@ == missing_java_text(),
    {
        let mut message = String::from_str("A Java runtime is required to run the official ");
        message.append(LANGUAGE_SERVER_NAME);
        message.append(
            " (a Java application), but `java` was not found on your PATH. Install Java 21 or newer (e.g. Temurin OpenJDK: https://adoptium.net) and try again.",
        );
        message
    }
}

} // verus!
