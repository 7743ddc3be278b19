use vstd::prelude::*;
use vstd::slice::slice_subrange;
use vstd::string::StringExecFns;

use crate::download::{jar_asset_index, name_views, option_view, BslJarDownloader};
use crate::settings::{
    find_member, json_view, lemma_list_view, lemma_members_view, list_view, lookup,
    parse_settings, parsed_settings, JsonView, SettingsJson,
};
use crate::text::{chars_equal, 
    chars_of, decimal, lemma_cons, line_at, lines, lines_from, push_char, push_decimal, trim_start,
    trim_start_index,
};

verus! {

/// The line, once leading whitespace is skipped, starts with `//`.
pub open spec fn is_comment_line(line: Seq<char>) -> bool {
    let t = trim_start(line);
    t.len() >= 2 && t[0] == '/' && t[1] == '/'
}

/// The lines that are not comment lines, in order.
pub open spec fn kept_lines(ls: Seq<Seq<char>>) -> Seq<Seq<char>>
    decreases ls.len(),
{
    if ls.len() == 0 {
        seq![]
    } else if is_comment_line(ls[0]) {
        kept_lines(ls.drop_first())
    } else {
        seq![ls[0]] + kept_lines(ls.drop_first())
    }
}

/// Each line preceded by a newline.
pub open spec fn newline_prefixed(ls: Seq<Seq<char>>) -> Seq<char>
    decreases ls.len(),
{
    if ls.len() == 0 {
        seq![]
    } else {
        seq!['\n'] + ls[0] + newline_prefixed(ls.drop_first())
    }
}

/// The lines joined with `\n` between them.
pub open spec fn join_lines(ls: Seq<Seq<char>>) -> Seq<char> {
    if ls.len() == 0 {
        seq![]
    } else {
        ls[0] + newline_prefixed(ls.drop_first())
    }
}

/// Dropping comment lines leaves no comment line, and leaves text without comment lines as
/// it is.
pub proof fn law_kept_lines(ls: Seq<Seq<char>>)
    ensures
        forall|i: int| 0 <= i < kept_lines(ls).len() ==> !is_comment_line(#[trigger] kept_lines(ls)[i]),
        (forall|i: int| 0 <= i < ls.len() ==> !is_comment_line(#[trigger] ls[i])) ==> kept_lines(ls)
            == ls,
    decreases ls.len(),
{
    if ls.len() > 0 {
        let rest = ls.drop_first();
        law_kept_lines(rest);
        if !is_comment_line(ls[0]) {
            let k = seq![ls[0]] + kept_lines(rest);
            assert forall|i: int| 0 <= i < k.len() implies !is_comment_line(#[trigger] k[i]) by {
                if i > 0 {
                    assert(k[i] == kept_lines(rest)[i - 1]);
                }
            }
            if forall|i: int| 0 <= i < ls.len() ==> !is_comment_line(#[trigger] ls[i]) {
                assert forall|i: int| 0 <= i < rest.len() implies !is_comment_line(#[trigger] rest[i]) by {
                    assert(rest[i] == ls[i + 1]);
                }
                assert(k =~= ls);
            }
        }
    }
}

/// `s` without its full-line `//` comments: its lines, minus the comment lines, joined with `\n`.
pub open spec fn without_comment_lines(s: Seq<char>) -> Seq<char> {
    join_lines(kept_lines(lines(s)))
}

/// Whether `line` is a comment line.
fn comment_line(line: &[char]) -> (res: bool)
    ensures
        res == is_comment_line(line@),
{
    let a = trim_start_index(line);
    line.len() - a >= 2 && line[a] == '/' && line[a + 1] == '/'
}

/// Removes the lines of a JSON-with-comments text that are `//` comments, so that a strict
/// JSON parser accepts it.
pub fn strip_comments(s: &str) -> (res: String)
    ensures
        res@ == without_comment_lines(s@),
{
    let chars = chars_of(s);
    let v = chars.as_slice();
    let mut out = String::new();
    let mut started = false;
    let mut pos: usize = 0;
    while pos < v.len()
        invariant
            pos <= v@.len(),
            v@ == s@,
            started ==> without_comment_lines(s@) == out@ + newline_prefixed(
                kept_lines(lines_from(v@, pos as int)),
            ),
            !started ==> without_comment_lines(s@) == join_lines(kept_lines(lines_from(v@, pos as int)))
                && out@ == Seq::<char>::empty(),
        decreases v@.len() - pos,
    {
        let (end, next) = line_at(v, pos);
        let line = slice_subrange(v, pos, end);
        let ghost rest = lines_from(v@, next as int);
        proof {
            lemma_cons(line@, rest);
            lemma_cons(line@, kept_lines(rest));
        }
        if !comment_line(line) {
            let text = crate::text::string_of(line);
            if started {
                let ghost before = out@;
                push_char(&mut out, '\n');
                out.append(text.as_str());
                assert(newline_prefixed(seq![line@] + kept_lines(rest)) =~= seq!['\n'] + line@
                    + newline_prefixed(kept_lines(rest)));
                assert(before + newline_prefixed(seq![line@] + kept_lines(rest)) =~= out@
                    + newline_prefixed(kept_lines(rest)));
            } else {
                out.append(text.as_str());
                assert(out@ =~= line@);
                started = true;
            }
        }
        pos = next;
    }
    proof {
        assert(lines_from(v@, pos as int) == Seq::<Seq<char>>::empty());
        assert(kept_lines(Seq::<Seq<char>>::empty()) == Seq::<Seq<char>>::empty());
        assert(out@ + Seq::<char>::empty() =~= out@);
    }
    out
}

/// Text before the Java path in a fresh settings file.
pub open spec fn settings_head() -> Seq<char> {
    "{\n  \"lsp\": {\n    \"bsl\": {\n      \"binary\": {\n        \"path\": \""@
}

/// Text between the Java path and the jar path in a fresh settings file.
pub open spec fn settings_middle() -> Seq<char> {
    "\",\n        \"arguments\": [\"-Xmx4g\", \"-jar\", \""@
}

/// Text after the jar path in a fresh settings file.
pub open spec fn settings_tail() -> Seq<char> {
    "\"]\n      }\n    }\n  },\n  \"languages\": {\n    \"BSL\": {\n      \"language_servers\": [\"bsl\"],\n      \"format_on_save\": \"off\"\n    }\n  }\n}"@
}

/// Zed settings that run the jar at `jar` with the `java` at `java` for BSL files.
pub fn fresh_settings(java: &str, jar: &str) -> (res: String)
    ensures
        res@ == settings_head() + java@ + settings_middle() + jar@ + settings_tail(),
{
    let mut out = String::from_str("{\n  \"lsp\": {\n    \"bsl\": {\n      \"binary\": {\n        \"path\": \"");
    out.append(java);
    out.append("\",\n        \"arguments\": [\"-Xmx4g\", \"-jar\", \"");
    out.append(jar);
    out.append("\"]\n      }\n    }\n  },\n  \"languages\": {\n    \"BSL\": {\n      \"language_servers\": [\"bsl\"],\n      \"format_on_save\": \"off\"\n    }\n  }\n}");
    out
}

/// The note printed when existing settings cannot be parsed: it names the file and the parse
/// error, and gives the block to add by hand for `java` and `jar`.
pub open spec fn settings_note_text(path: Seq<char>, error: Seq<char>, java: Seq<char>, jar: Seq<char>) -> Seq<char> {
    "NOTE: "@ + path + " could not be parsed ("@ + error
        + ").\nAdd this block to it manually:\n\n\"lsp\": { \"bsl\": { \"binary\": { \"path\": \""@
        + java + "\", \"arguments\": [\"-Xmx4g\", \"-jar\", \""@ + jar
        + "\"] } } },\n\"languages\": { \"BSL\": { \"language_servers\": [\"bsl\"], \"format_on_save\": \"off\" } }"@
}

/// The note for settings at `path` that failed to parse with `error`.
pub fn settings_note(path: &str, error: &str, java: &str, jar: &str) -> (res: String)
    ensures
        res@ == settings_note_text(path@, error@, java@, jar@),
{
    let mut out = String::from_str("NOTE: ");
    out.append(path);
    out.append(" could not be parsed (");
    out.append(error);
    out.append(").\nAdd this block to it manually:\n\n\"lsp\": { \"bsl\": { \"binary\": { \"path\": \"");
    out.append(java);
    out.append("\", \"arguments\": [\"-Xmx4g\", \"-jar\", \"");
    out.append(jar);
    out.append("\"] } } },\n\"languages\": { \"BSL\": { \"language_servers\": [\"bsl\"], \"format_on_save\": \"off\" } }");
    out
}

/// A file size in whole mebibytes, kibibytes or bytes, as `12 MB`, `3 KB` or `512 B`.
pub open spec fn size_text(bytes: nat) -> Seq<char> {
    if bytes >= 1024 * 1024 {
        decimal(bytes / (1024 * 1024)) + " MB"@
    } else if bytes >= 1024 {
        decimal(bytes / 1024) + " KB"@
    } else {
        decimal(bytes) + " B"@
    }
}

/// Describes a size of `bytes` bytes.
pub fn human_size(bytes: u64) -> (res: String)
    ensures
        res@ == size_text(bytes as nat),
{
    let mut out = String::new();
    if bytes >= 1024 * 1024 {
        push_decimal(&mut out, bytes / (1024 * 1024));
        out.append(" MB");
    } else if bytes >= 1024 {
        push_decimal(&mut out, bytes / 1024);
        out.append(" KB");
    } else {
        push_decimal(&mut out, bytes);
        out.append(" B");
    }
    out
}

/// The Temurin names of an operating system and an architecture (as `std::env::consts`
/// names them), or the message for one that is not supported.
pub open spec fn temurin_platform(os: Seq<char>, arch: Seq<char>) -> Result<(Seq<char>, Seq<char>), Seq<char>> {
    let os_name = if os == "linux"@ {
        Some("linux"@)
    } else if os == "macos"@ {
        Some("mac"@)
    } else {
        None
    };
    let arch_name = if arch == "x86_64"@ {
        Some("x64"@)
    } else if arch == "aarch64"@ {
        Some("aarch64"@)
    } else {
        None
    };
    match os_name {
        None => Err("unsupported OS: "@ + os),
        Some(o) => match arch_name {
            None => Err("unsupported architecture: "@ + arch),
            Some(a) => Ok((o, a)),
        },
    }
}

/// Whether `s` is the text `literal`.
fn is_text(s: &str, literal: &str) -> (res: bool)
    ensures
        res == (s@ == literal@),
{
    let a = chars_of(s);
    let b = chars_of(literal);
    chars_equal(a.as_slice(), b.as_slice())
}

/// The Temurin platform names for the operating system `os` and the architecture `arch`.
pub fn detect_platform(os: &str, arch: &str) -> (res: Result<(&'static str, &'static str), String>)
    ensures
        match res {
            Ok((o, a)) => temurin_platform(os@, arch@) == Ok::<(Seq<char>, Seq<char>), Seq<char>>((o@, a@)),
            Err(m) => temurin_platform(os@, arch@) == Err::<(Seq<char>, Seq<char>), Seq<char>>(m@),
        },
{
    let os_name = if is_text(os, "linux") {
        "linux"
    } else if is_text(os, "macos") {
        "mac"
    } else {
        let mut message = String::from_str("unsupported OS: ");
        message.append(os);
        return Err(message);
    };
    let arch_name = if is_text(arch, "x86_64") {
        "x64"
    } else if is_text(arch, "aarch64") {
        "aarch64"
    } else {
        let mut message = String::from_str("unsupported architecture: ");
        message.append(arch);
        return Err(message);
    };
    Ok((os_name, arch_name))
}

/// Where the Adoptium API serves the latest Temurin JDK `major` for a platform.
pub open spec fn temurin_url_text(major: u32, os: Seq<char>, arch: Seq<char>) -> Seq<char> {
    "https://api.adoptium.net/v3/binary/latest/"@ + decimal(major as nat) + "/ga/"@ + os + "/"@
        + arch + "/jdk/hotspot/normal/eclipse"@
}

/// The download URL of the latest Temurin JDK `major` for `os` and `arch`.
pub fn temurin_url(major: u32, os: &str, arch: &str) -> (res: String)
    ensures
        res@ == temurin_url_text(major, os@, arch@),
{
    let mut url = String::from_str("https://api.adoptium.net/v3/binary/latest/");
    push_decimal(&mut url, major as u64);
    url.append("/ga/");
    url.append(os);
    url.append("/");
    url.append(arch);
    url.append("/jdk/hotspot/normal/eclipse");
    url
}

/// Name of the directory that holds Temurin JDK `major`: `jdk-<major>`.
pub fn jdk_directory_name(major: u32) -> (res: String)
    ensures
        res@ == "jdk-"@ + decimal(major as nat),
{
    let mut name = String::from_str("jdk-");
    push_decimal(&mut name, major as u64);
    name
}

/// Name of the downloaded archive of Temurin JDK `major`: `temurin-<major>.tar.gz`.
pub fn jdk_archive_name(major: u32) -> (res: String)
    ensures
        res@ == "temurin-"@ + decimal(major as nat) + ".tar.gz"@,
{
    let mut name = String::from_str("temurin-");
    push_decimal(&mut name, major as u64);
    name.append(".tar.gz");
    name
}

/// What the installer does about Temurin JDK `major`.
pub enum JdkAction {
    /// Keep the JDK that is already installed.
    Reuse,
    /// Download and unpack it.
    Install,
}

/// Keeps the installed JDK when its `java` ran and reported exactly `major` (`probed` is
/// `None` when there is no `java` there or it reported no version); otherwise installs it.
pub fn jdk_action(major: u32, probed: Option<u32>) -> (res: JdkAction)
    ensures
        res is Reuse <==> probed == Some(major),
{
    match probed {
        Some(version) => if version == major {
            JdkAction::Reuse
        } else {
            JdkAction::Install
        },
        None => JdkAction::Install,
    }
}

/// Error when unpacking the JDK left no `java` at `java_bin`.
pub fn jdk_missing_message(java_bin: &str) -> (res: String)
    ensures
        res@ == "JDK extraction failed: "@ + java_bin@ + " not found"@,
{
    let mut message = String::from_str("JDK extraction failed: ");
    message.append(java_bin);
    message.append(" not found");
    message
}

/// One asset of a GitHub release, as the release JSON describes it.
pub struct ReleaseAsset {
    pub name: Option<String>,
    pub download_url: Option<String>,
}

/// The views of release assets: each asset's name and download URL.
pub open spec fn asset_views(assets: Seq<ReleaseAsset>) -> Seq<(Option<Seq<char>>, Option<Seq<char>>)> {
    assets.map_values(|a: ReleaseAsset| (option_view(a.name), option_view(a.download_url)))
}

/// The string value of member `key` of `v`, as `v[key].as_str()` reads it: `None` when `v`
/// is no object, has no such member, or the member is not a string.
pub open spec fn string_member(v: JsonView, key: Seq<char>) -> Option<Seq<char>> {
    match v {
        JsonView::Object(m) => match lookup(m, key) {
            Some(JsonView::Text(t)) => Some(t),
            _ => None,
        },
        _ => None,
    }
}

/// The name and download URL of one release asset: its `name` and `browser_download_url`
/// strings.
pub open spec fn asset_of(a: JsonView) -> (Option<Seq<char>>, Option<Seq<char>>) {
    (string_member(a, "name"@), string_member(a, "browser_download_url"@))
}

/// The assets of a release description, as `release["assets"].as_array()` finds them: the
/// elements of its `assets` array, or `None` when it has no such array.
pub open spec fn release_assets_view(v: JsonView) -> Option<Seq<(Option<Seq<char>>, Option<Seq<char>>)>> {
    match v {
        JsonView::Object(m) => match lookup(m, "assets"@) {
            Some(JsonView::List(items)) => Some(items.map_values(|a: JsonView| asset_of(a))),
            _ => None,
        },
        _ => None,
    }
}

/// The string value of member `key` of `v`, if it has one.
fn string_member_of(v: &SettingsJson, key: &str) -> (res: Option<String>)
    ensures
        option_view(res) == string_member(v@, key@),
{
    match v {
        SettingsJson::Object(members) => {
            let i = find_member(members, key);
            proof {
                lemma_members_view(members@);
            }
            if i < members.len() {
                match &members[i].1 {
                    SettingsJson::Text(t) => Some(t.clone()),
                    _ => None,
                }
            } else {
                None
            }
        },
        _ => None,
    }
}

/// The assets of a parsed release description: the `name` and `browser_download_url` strings
/// of each element of its `assets` array, or `None` when there is no such array.
pub fn release_assets(release: &SettingsJson) -> (res: Option<Vec<ReleaseAsset>>)
    ensures
        match res {
            Some(assets) => release_assets_view(release@) == Some(asset_views(assets@)),
            None => release_assets_view(release@) is None,
        },
{
    let members = match release {
        SettingsJson::Object(members) => members,
        _ => {
            return None;
        },
    };
    let i = find_member(members, "assets");
    proof {
        lemma_members_view(members@);
    }
    if i >= members.len() {
        return None;
    }
    let items = match &members[i].1 {
        SettingsJson::List(items) => items,
        _ => {
            return None;
        },
    };
    proof {
        lemma_list_view(items@);
    }
    let ghost wanted = list_view(items@).map_values(|a: JsonView| asset_of(a));
    let mut out: Vec<ReleaseAsset> = Vec::new();
    let mut j: usize = 0;
    while j < items.len()
        invariant
            j <= items@.len(),
            list_view(items@).len() == items@.len(),
            forall|k: int| 0 <= k < items@.len() ==> #[trigger] list_view(items@)[k] == json_view(items@[k]),
            wanted == list_view(items@).map_values(|a: JsonView| asset_of(a)),
            asset_views(out@) == wanted.take(j as int),
        decreases items@.len() - j,
    {
        let name = string_member_of(&items[j], "name");
        let url = string_member_of(&items[j], "browser_download_url");
        let ghost before = out@;
        assert(wanted[j as int] == asset_of(json_view(items@[j as int])));
        out.push(ReleaseAsset { name, download_url: url });
        assert(asset_views(out@) =~= asset_views(before).push(wanted[j as int]));
        j += 1;
        assert(asset_views(out@) =~= wanted.take(j as int));
    }
    assert(wanted.take(items@.len() as int) =~= wanted);
    Some(out)
}

/// The names among asset views.
pub open spec fn asset_names(assets: Seq<(Option<Seq<char>>, Option<Seq<char>>)>) -> Seq<Option<Seq<char>>> {
    assets.map_values(|a: (Option<Seq<char>>, Option<Seq<char>>)| a.0)
}

/// The jar's download URL in the latest-release description `body`, or why there is none.
pub open spec fn release_jar_url(body: Seq<char>) -> Result<Seq<char>, Seq<char>> {
    jar_url_in(
        match parsed_settings(body) {
            Ok(v) => Ok(release_assets_view(v)),
            Err(m) => Err(m),
        },
    )
}

/// The jar's download URL, given what parsing the release description gave.
pub open spec fn jar_url_in(
    parsed: Result<Option<Seq<(Option<Seq<char>>, Option<Seq<char>>)>>, Seq<char>>,
) -> Result<Seq<char>, Seq<char>> {
    match parsed {
        Err(m) => Err("failed to parse release JSON: "@ + m),
        Ok(None) => Err("no assets in release"@),
        Ok(Some(assets)) => match jar_asset_index(asset_names(assets)) {
            None => Err("no jar asset found in release"@),
            Some(i) => match assets[i].1 {
                Some(url) => Ok(url),
                None => Err("missing download URL"@),
            },
        },
    }
}

fn clone_option(o: &Option<String>) -> (res: Option<String>)
    ensures
        res == *o,
{
    match o {
        Some(s) => Some(s.clone()),
        None => None,
    }
}

/// The views of a parse of a release description.
pub open spec fn parsed_view(parsed: Result<Option<Vec<ReleaseAsset>>, String>) -> Result<
    Option<Seq<(Option<Seq<char>>, Option<Seq<char>>)>>,
    Seq<char>,
> {
    match parsed {
        Ok(Some(assets)) => Ok(Some(asset_views(assets@))),
        Ok(None) => Ok(None),
        Err(m) => Err(m@),
    }
}

/// The jar's download URL in the latest-release description `body`.
pub fn jar_url_from_release(body: &str) -> (res: Result<String, String>)
    ensures
        match res {
            Ok(url) => release_jar_url(body@) == Ok::<Seq<char>, Seq<char>>(url@),
            Err(m) => release_jar_url(body@) == Err::<Seq<char>, Seq<char>>(m@),
        },
{
    let parsed = match parse_settings(body) {
        Ok(release) => Ok(release_assets(&release)),
        Err(error) => Err(error),
    };
    jar_url_from_assets(parsed)
}

/// The jar's download URL among the assets that parsing a release description gave: the
/// asset named like the jar, else the first `*-exec.jar`; an error when the description did
/// not parse, has no `assets` array, has no such asset, or the asset has no URL.
pub fn jar_url_from_assets(parsed: Result<Option<Vec<ReleaseAsset>>, String>) -> (res: Result<String, String>)
    ensures
        match res {
            Ok(url) => jar_url_in(parsed_view(parsed)) == Ok::<Seq<char>, Seq<char>>(url@),
            Err(m) => jar_url_in(parsed_view(parsed)) == Err::<Seq<char>, Seq<char>>(m@),
        },
{
    let assets = match parsed {
        Err(error) => {
            let mut message = String::from_str("failed to parse release JSON: ");
            message.append(error.as_str());
            return Err(message);
        },
        Ok(None) => {
            return Err(String::from_str("no assets in release"));
        },
        Ok(Some(assets)) => assets,
    };
    let ghost views = asset_views(assets@);
    let mut names: Vec<Option<String>> = Vec::new();
    let mut i: usize = 0;
    while i < assets.len()
        invariant
            i <= assets@.len(),
            views == asset_views(assets@),
            names@.len() == i,
            name_views(names@) == asset_names(views).take(i as int),
        decreases assets@.len() - i,
    {
        let ghost before = names@;
        assert(asset_names(views)[i as int] == option_view(assets@[i as int].name));
        names.push(clone_option(&assets[i].name));
        assert(name_views(names@)[i as int] == option_view(assets@[i as int].name));
        i += 1;
        assert(name_views(names@) =~= asset_names(views).take(i as int));
    }
    assert(asset_names(views).take(assets@.len() as int) =~= asset_names(views));
    match BslJarDownloader::select_asset(names.as_slice()) {
        None => Err(String::from_str("no jar asset found in release")),
        Some(index) => {
            assert(name_views(names@).len() == assets@.len());
            match clone_option(&assets[index].download_url) {
                Some(url) => Ok(url),
                None => Err(String::from_str("missing download URL")),
            }
        },
    }
}

} // verus!
