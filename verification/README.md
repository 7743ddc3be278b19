# zed_bsl

A Zed extension that starts the official BSL Language Server (a Java application)
for `.bsl` and `.osl` files, and an installer that fetches the jar and a Temurin JDK.

The decisions are a verified Verus library under `src/`:

- `zip`: locating an entry in a jar's central directory and reading (storing or
  inflating) its contents, from the jar's bytes;
- `jar`: the Java version a jar needs (main class file version, else
  `Build-Jdk-Spec` of the manifest);
- `version`: reading `java.specification.version` from `java -XshowSettings`;
- `config`, `shell_env`, `paths`: JVM flags, environment lookup, where the jar may live;
- `java`, `extension`, `launch`: the remembered Java runtime and the step-by-step
  decision of which command starts the server;
- `download`, `installer`: choosing the release asset, URLs, settings text, sizes;
- `settings`: merging the server's entries into Zed's existing settings;
- `text`: characters, whitespace, lines, numbers.

`app/` holds what talks to Zed, the file system, the network and child processes,
and follows the steps that `launch::LaunchPlan` and `download::DownloadPlan` ask for.
