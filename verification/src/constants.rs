use vstd::prelude::*;

verus! {

/// Identifier of the language server in Zed's settings.
pub const LANGUAGE_SERVER_ID: &'static str = "bsl";

/// Name of the language server.
pub const LANGUAGE_SERVER_NAME: &'static str = "bsl-language-server";

/// GitHub repository that publishes the language server.
pub const BSL_REPOSITORY: &'static str = "1c-syntax/bsl-language-server";

/// File name of the language server jar.
pub const JAR_FILENAME: &'static str = "bsl-language-server.jar";

/// Environment variable naming an explicit jar.
pub const JAR_PATH_ENV: &'static str = "BSL_LANGUAGE_SERVER";

/// Environment variable overriding the JVM flags.
pub const JAVA_OPTIONS_ENV: &'static str = "BSL_LANGUAGE_SERVER_JAVA_OPTS";

/// Directory, inside the extension directory, that holds downloaded jars.
pub const MANAGED_JAR_DIRECTORY: &'static str = "binaries";

/// Entry of a jar that holds its manifest.
pub const MANIFEST_PATH: &'static str = "META-INF/MANIFEST.MF";

/// Entry of the language server jar that holds its main class.
pub const MAIN_CLASS_PATH: &'static str = "BOOT-INF/classes/com/github/_1c_syntax/bsl/languageserver/MainApplication.class";

/// Java version assumed when the jar does not say which it needs.
pub const MINIMUM_REQUIRED_JAVA: u32 = 17;

/// JVM flag applied when no override is given.
pub const DEFAULT_JVM_OPTION: &'static str = "-Xmx4g";

} // verus!
