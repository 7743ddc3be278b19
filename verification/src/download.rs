use vstd::prelude::*;
use vstd::string::StringExecFns;

use crate::constants::{BSL_REPOSITORY, JAR_FILENAME};
use crate::text::{chars_equal, chars_match_at, chars_of};

verus! {

/// Picks and describes the release asset that holds the BSL language server.
pub struct BslJarDownloader;

/// `s` ends with `suffix`.
pub open spec fn ends_with(s: Seq<char>, suffix: Seq<char>) -> bool {
    suffix.len() <= s.len() && s.subrange(s.len() - suffix.len(), s.len() as int) == suffix
}

/// The view of an optional string.
pub open spec fn option_view(o: Option<String>) -> Option<Seq<char>> {
    match o {
        Some(s) => Some(s@),
        None => None,
    }
}

/// The views of optional asset names.
pub open spec fn name_views(names: Seq<Option<String>>) -> Seq<Option<Seq<char>>> {
    names.map_values(|n: Option<String>| option_view(n))
}

/// The asset is named exactly like the jar.
pub open spec fn is_named_jar(name: Option<Seq<char>>) -> bool {
    match name {
        Some(n) => n == JAR_FILENAME@,
        None => false,
    }
}

/// The asset is an executable jar (`*-exec.jar`).
pub open spec fn is_exec_jar(name: Option<Seq<char>>) -> bool {
    match name {
        Some(n) => ends_with(n, "-exec.jar"@),
        None => false,
    }
}

/// Index of the first name in `names[i..]` satisfying `p`.
pub open spec fn first_index(
    names: Seq<Option<Seq<char>>>,
    p: spec_fn(Option<Seq<char>>) -> bool,
    i: int,
) -> Option<int>
    decreases names.len() - i,
{
    if i < 0 || i >= names.len() {
        None
    } else if p(names[i]) {
        Some(i)
    } else {
        first_index(names, p, i + 1)
    }
}

pub proof fn lemma_first_index(names: Seq<Option<Seq<char>>>, p: spec_fn(Option<Seq<char>>) -> bool, i: int)
    requires
        0 <= i,
    ensures
        first_index(names, p, i) matches Some(k) ==> i <= k < names.len() && p(names[k]),
        first_index(names, p, i) is None ==> forall|j: int| i <= j < names.len() ==> !p(#[trigger] names[j]),
    decreases names.len() - i,
{
    if i < names.len() && !p(names[i]) {
        lemma_first_index(names, p, i + 1);
    }
}

/// The asset to download: the first one named exactly like the jar, otherwise the first
/// `*-exec.jar`.
pub open spec fn jar_asset_index(names: Seq<Option<Seq<char>>>) -> Option<int> {
    match first_index(names, named_jar_test(), 0) {
        Some(i) => Some(i),
        None => first_index(names, exec_jar_test(), 0),
    }
}

/// `is_named_jar` as a function value.
pub open spec fn named_jar_test() -> spec_fn(Option<Seq<char>>) -> bool {
    |n: Option<Seq<char>>| is_named_jar(n)
}

/// `is_exec_jar` as a function value.
pub open spec fn exec_jar_test() -> spec_fn(Option<Seq<char>>) -> bool {
    |n: Option<Seq<char>>| is_exec_jar(n)
}

/// Message for a release without a usable jar asset.
pub open spec fn missing_asset_text(version: Seq<char>) -> Seq<char> {
    "no `"@ + JAR_FILENAME@ + "` or `*-exec.jar` asset found in release "@ + version + " of "@
        + BSL_REPOSITORY@
}

fn name_is_jar(name: &Option<String>, jar: &[char]) -> (res: bool)
    requires
        jar@ == JAR_FILENAME@,
    ensures
        res == is_named_jar(option_view(*name)),
{
    match name {
        Some(n) => {
            let chars = chars_of(n.as_str());
            chars_equal(chars.as_slice(), jar)
        },
        None => false,
    }
}

fn name_is_exec_jar(name: &Option<String>, suffix: &[char]) -> (res: bool)
    requires
        suffix@ == "-exec.jar"@,
    ensures
        res == is_exec_jar(option_view(*name)),
{
    match name {
        Some(n) => {
            let chars = chars_of(n.as_str());
            if suffix.len() > chars.len() {
                false
            } else {
                chars_match_at(chars.as_slice(), chars.len() - suffix.len(), suffix)
            }
        },
        None => false,
    }
}

impl BslJarDownloader {
    /// Index of the asset to download among assets named `names`.
    pub fn select_asset(names: &[Option<String>]) -> (res: Option<usize>)
        ensures
            res matches Some(i) ==> i < names@.len(),
            match res {
                Some(i) => jar_asset_index(name_views(names@)) == Some(i as int),
                None => jar_asset_index(name_views(names@)) is None,
            },
    {
        let ghost views = name_views(names@);
        let ghost named = named_jar_test();
        let ghost exec = exec_jar_test();
        let jar = chars_of(JAR_FILENAME);
        let mut i: usize = 0;
        while i < names.len()
            invariant
                i <= names@.len(),
                jar@ == JAR_FILENAME@,
                views == name_views(names@),
                views.len() == names@.len(),
                named == named_jar_test(),
                first_index(views, named, 0) == first_index(views, named, i as int),
            decreases names@.len() - i,
        {
            if name_is_jar(&names[i], jar.as_slice()) {
                assert(views[i as int] == option_view(names@[i as int]));
                return Some(i);
            }
            i += 1;
        }
        let suffix = chars_of("-exec.jar");
        let mut k: usize = 0;
        while k < names.len()
            invariant
                k <= names@.len(),
                suffix@ == "-exec.jar"@,
                views == name_views(names@),
                views.len() == names@.len(),
                first_index(views, named, 0) is None,
                exec == exec_jar_test(),
                named == named_jar_test(),
                first_index(views, exec, 0) == first_index(views, exec, k as int),
            decreases names@.len() - k,
        {
            if name_is_exec_jar(&names[k], suffix.as_slice()) {
                assert(views[k as int] == option_view(names@[k as int]));
                return Some(k);
            }
            k += 1;
        }
        None
    }

    /// Message for release `version` when it has no usable jar asset.
    pub fn missing_asset_message(version: &str) -> (res: String)
        ensures
            res@ == missing_asset_text(version@),
    {
        let mut message = String::from_str("no `");
        message.append(JAR_FILENAME);
        message.append("` or `*-exec.jar` asset found in release ");
        message.append(version);
        message.append(" of ");
        message.append(BSL_REPOSITORY);
        message
    }
}

/// The asset chosen is the first one named exactly like the jar; only when there is none is
/// it the first `*-exec.jar`; and no asset is chosen only when neither kind exists.
pub proof fn law_asset_choice(names: Seq<Option<Seq<char>>>)
    ensures
        jar_asset_index(names) matches Some(i) ==> 0 <= i < names.len() && ((is_named_jar(names[i])
            && forall|j: int| 0 <= j < i ==> !is_named_jar(#[trigger] names[j])) || ((forall|j: int|
            0 <= j < names.len() ==> !is_named_jar(#[trigger] names[j])) && is_exec_jar(names[i])
            && forall|j: int| 0 <= j < i ==> !is_exec_jar(#[trigger] names[j]))),
        jar_asset_index(names) is None <==> forall|j: int|
            0 <= j < names.len() ==> !is_named_jar(#[trigger] names[j]) && !is_exec_jar(names[j]),
{
    let named = named_jar_test();
    let exec = exec_jar_test();
    lemma_first_index(names, named, 0);
    lemma_first_index(names, exec, 0);
    lemma_first_index_is_first(names, named, 0);
    lemma_first_index_is_first(names, exec, 0);
    if jar_asset_index(names) is None {
        assert forall|j: int| 0 <= j < names.len() implies !is_named_jar(#[trigger] names[j])
            && !is_exec_jar(names[j]) by {
            assert(!named(names[j]));
            assert(!exec(names[j]));
        }
    } else {
        let i = jar_asset_index(names)->0;
        assert(!(!is_named_jar(names[i]) && !is_exec_jar(names[i])));
    }
}

/// When no asset is named exactly `bsl-language-server.jar`, the asset chosen is the first
/// whose name ends with `-exec.jar`; no other asset is ever chosen as the fallback, and none
/// is chosen only when no name ends with `-exec.jar`. When one is named exactly like the
/// jar, the first such is chosen.
pub proof fn law_exec_jar_is_the_fallback(names: Seq<Option<Seq<char>>>)
    ensures
        (forall|j: int| 0 <= j < names.len() ==> names[j] != Some("bsl-language-server.jar"@)) ==> {
            &&& jar_asset_index(names) matches Some(i) ==> {
                &&& 0 <= i < names.len()
                &&& names[i] is Some
                &&& names[i]->0.len() >= 9
                &&& names[i]->0.subrange(names[i]->0.len() - 9, names[i]->0.len() as int) == "-exec.jar"@
                &&& forall|j: int|
                    0 <= j < i ==> !(#[trigger] names[j] is Some && names[j]->0.len() >= 9
                        && names[j]->0.subrange(names[j]->0.len() - 9, names[j]->0.len() as int) == "-exec.jar"@)
            }
            &&& jar_asset_index(names) is None ==> forall|j: int|
                0 <= j < names.len() ==> !(#[trigger] names[j] is Some && names[j]->0.len() >= 9
                    && names[j]->0.subrange(names[j]->0.len() - 9, names[j]->0.len() as int) == "-exec.jar"@)
        },
        (exists|j: int| 0 <= j < names.len() && names[j] == Some("bsl-language-server.jar"@)) ==> {
            &&& jar_asset_index(names) is Some
            &&& 0 <= jar_asset_index(names)->0 < names.len()
            &&& names[jar_asset_index(names)->0] == Some("bsl-language-server.jar"@)
            &&& forall|j: int| 0 <= j < jar_asset_index(names)->0 ==> names[j] != Some("bsl-language-server.jar"@)
        },
{
    reveal_strlit("-exec.jar");
    assert("-exec.jar"@.len() == 9);
    law_asset_choice(names);
    assert forall|j: int| 0 <= j < names.len() implies (#[trigger] is_exec_jar(names[j]) <==> (names[j] is Some
        && names[j]->0.len() >= 9 && names[j]->0.subrange(names[j]->0.len() - 9, names[j]->0.len() as int)
        == "-exec.jar"@)) by {}
    assert forall|j: int| 0 <= j < names.len() implies (#[trigger] is_named_jar(names[j]) <==> names[j]
        == Some("bsl-language-server.jar"@)) by {}
    if exists|j: int| 0 <= j < names.len() && names[j] == Some("bsl-language-server.jar"@) {
        let j = choose|j: int| 0 <= j < names.len() && names[j] == Some("bsl-language-server.jar"@);
        assert(is_named_jar(names[j]));
    }
}

proof fn lemma_first_index_is_first(
    names: Seq<Option<Seq<char>>>,
    p: spec_fn(Option<Seq<char>>) -> bool,
    i: int,
)
    requires
        0 <= i,
    ensures
        first_index(names, p, i) matches Some(k) ==> forall|j: int| i <= j < k ==> !p(names[j]),
    decreases names.len() - i,
{
    lemma_first_index(names, p, i);
    if i < names.len() && !p(names[i]) {
        lemma_first_index_is_first(names, p, i + 1);
    }
}

/// An installation status shown in Zed.
pub enum InstallStatus {
    CheckingForUpdate,
    Downloading,
    Failed(String),
}

/// What downloading the jar waits for.
#[derive(Clone, Copy, Debug, PartialEq, Eq, Structural)]
pub enum DownloadStage {
    /// The report that updates are being checked.
    CheckingReported,
    /// The latest release.
    Release,
    /// The creation of the destination's directory.
    Directory,
    /// The report that the download starts.
    DownloadingReported,
    /// The download itself.
    File,
    /// The report that the download failed.
    FailureReported,
    /// Nothing: the outcome has been given.
    Done,
}

/// The outside work that downloading the jar asks for next.
pub enum DownloadStep {
    /// Show this status in Zed.
    Report(InstallStatus),
    /// Fetch the latest release of the language server.
    FetchRelease,
    /// Create this directory and its parents.
    CreateDirectory(String),
    /// Download the file at this URL to this path.
    DownloadFile(String, String),
    /// The outcome: done, or why not.
    Finish(Result<(), String>),
}

/// What the outside work asked for by a `DownloadStep` produced.
pub enum DownloadEvent {
    Reported,
    /// The release's version and, for each asset, its name and download URL.
    ReleaseFetched(Result<(String, Vec<(String, String)>), String>),
    DirectoryCreated(Result<(), String>),
    FileDownloaded(Result<(), String>),
}

/// The event that answers the step pending at `stage`.
pub open spec fn download_answers(stage: DownloadStage, event: DownloadEvent) -> bool {
    match stage {
        DownloadStage::CheckingReported | DownloadStage::DownloadingReported
        | DownloadStage::FailureReported => event is Reported,
        DownloadStage::Release => event is ReleaseFetched,
        DownloadStage::Directory => event is DirectoryCreated,
        DownloadStage::File => event is FileDownloaded,
        DownloadStage::Done => false,
    }
}

/// The names of release assets, each present.
pub open spec fn release_names(assets: Seq<(String, String)>) -> Seq<Option<Seq<char>>> {
    assets.map_values(|a: (String, String)| Some(a.0@))
}

/// Error when the destination's directory cannot be created.
pub open spec fn directory_error_text(directory: Seq<char>, error: Seq<char>) -> Seq<char> {
    "failed to create "@ + directory + " directory: "@ + error
}

/// Status shown when the download fails.
pub open spec fn download_failed_status(error: Seq<char>) -> Seq<char> {
    "Failed to download "@ + JAR_FILENAME@ + ": "@ + error
}

/// Error returned when the download fails.
pub open spec fn download_failed_text(error: Seq<char>) -> Seq<char> {
    "failed to download "@ + JAR_FILENAME@ + ": "@ + error
}

/// The decisions of downloading the latest jar to a destination, one outside result at a time.
pub struct DownloadPlan {
    stage: DownloadStage,
    destination: String,
    directory: Option<String>,
    url: String,
    error: String,
}

impl DownloadPlan {
    /// The directory step is only taken when there is a directory to create.
    #[verifier::type_invariant]
    spec fn directory_known(&self) -> bool {
        self.stage == DownloadStage::Directory ==> self.directory is Some
    }

    pub closed spec fn spec_stage(&self) -> DownloadStage {
        self.stage
    }

    pub closed spec fn spec_destination(&self) -> Seq<char> {
        self.destination@
    }

    pub closed spec fn spec_directory(&self) -> Option<String> {
        self.directory
    }

    pub closed spec fn spec_url(&self) -> Seq<char> {
        self.url@
    }

    pub closed spec fn spec_error(&self) -> Seq<char> {
        self.error@
    }

    /// Downloading to `destination`, whose directory is `directory` (`Path::parent`); the first
    /// step reports that updates are being checked.
    pub fn start(destination: &str, directory: Option<String>) -> (res: (Self, DownloadStep))
        ensures
            res.0.spec_stage() == DownloadStage::CheckingReported,
            res.0.spec_destination() == destination@,
            res.0.spec_directory() == directory,
            res.1 matches DownloadStep::Report(InstallStatus::CheckingForUpdate),
    {
        (
            DownloadPlan {
                stage: DownloadStage::CheckingReported,
                destination: String::from_str(destination),
                directory,
                url: String::new(),
                error: String::new(),
            },
            DownloadStep::Report(InstallStatus::CheckingForUpdate),
        )
    }

    /// The stage reached so far.
    pub fn stage(&self) -> (res: DownloadStage)
        ensures
            res == self.spec_stage(),
    {
        self.stage
    }

    /// Whether `event` answers the step pending now.
    pub fn accepts(&self, event: &DownloadEvent) -> (res: bool)
        ensures
            res == download_answers(self.spec_stage(), *event),
    {
        match self.stage {
            DownloadStage::CheckingReported | DownloadStage::DownloadingReported
            | DownloadStage::FailureReported => match event {
                DownloadEvent::Reported => true,
                _ => false,
            },
            DownloadStage::Release => match event {
                DownloadEvent::ReleaseFetched(_) => true,
                _ => false,
            },
            DownloadStage::Directory => match event {
                DownloadEvent::DirectoryCreated(_) => true,
                _ => false,
            },
            DownloadStage::File => match event {
                DownloadEvent::FileDownloaded(_) => true,
                _ => false,
            },
            DownloadStage::Done => false,
        }
    }

    /// The step after the asset is known: create the directory if there is one, else report
    /// that the download starts.
    fn after_asset(&mut self) -> (step: DownloadStep)
        ensures
            final(self).spec_destination() == old(self).spec_destination(),
            final(self).spec_directory() == old(self).spec_directory(),
            final(self).spec_url() == old(self).spec_url(),
            final(self).spec_error() == old(self).spec_error(),
            match old(self).spec_directory() {
                Some(d) => final(self).spec_stage() == DownloadStage::Directory && (step matches DownloadStep::CreateDirectory(p) && p@ == d@),
                None => final(self).spec_stage() == DownloadStage::DownloadingReported && (step matches DownloadStep::Report(InstallStatus::Downloading)),
            },
    {
        match &self.directory {
            Some(directory) => {
                let path = directory.clone();
                self.stage = DownloadStage::Directory;
                DownloadStep::CreateDirectory(path)
            },
            None => {
                self.stage = DownloadStage::DownloadingReported;
                DownloadStep::Report(InstallStatus::Downloading)
            },
        }
    }

    /// Takes the answer `event` to the pending step and returns the next step.
    pub fn advance(&mut self, event: DownloadEvent) -> (step: DownloadStep)
        requires
            download_answers(old(self).spec_stage(), event),
        ensures
            final(self).spec_destination() == old(self).spec_destination(),
            final(self).spec_directory() == old(self).spec_directory(),
            old(self).spec_stage() != DownloadStage::Release ==> final(self).spec_url() == old(self).spec_url(),
            old(self).spec_stage() != DownloadStage::File ==> final(self).spec_error() == old(self).spec_error(),
            match old(self).spec_stage() {
                DownloadStage::CheckingReported => step is FetchRelease && final(self).spec_stage() == DownloadStage::Release,
                DownloadStage::Release => match event {
                    DownloadEvent::ReleaseFetched(Err(e)) => step == DownloadStep::Finish(Err(e))
                        && final(self).spec_stage() == DownloadStage::Done,
                    DownloadEvent::ReleaseFetched(Ok((version, assets))) => match jar_asset_index(release_names(assets@)) {
                        None => (step matches DownloadStep::Finish(Err(m)) && m@ == missing_asset_text(version@))
                            && final(self).spec_stage() == DownloadStage::Done,
                        Some(i) => final(self).spec_url() == assets@[i].1@ && match old(self).spec_directory() {
                            Some(d) => final(self).spec_stage() == DownloadStage::Directory && (step matches DownloadStep::CreateDirectory(p) && p@ == d@),
                            None => final(self).spec_stage() == DownloadStage::DownloadingReported && (step matches DownloadStep::Report(InstallStatus::Downloading)),
                        },
                    },
                    _ => false,
                },
                DownloadStage::Directory => match event {
                    DownloadEvent::DirectoryCreated(Err(e)) => (step matches DownloadStep::Finish(Err(m))
                        && m@ == directory_error_text(old(self).spec_directory()->0@, e@))
                        && final(self).spec_stage() == DownloadStage::Done,
                    _ => (step matches DownloadStep::Report(InstallStatus::Downloading))
                        && final(self).spec_stage() == DownloadStage::DownloadingReported
                        && final(self).spec_url() == old(self).spec_url(),
                },
                DownloadStage::DownloadingReported => (step matches DownloadStep::DownloadFile(u, p)
                    && u@ == old(self).spec_url() && p@ == old(self).spec_destination())
                    && final(self).spec_stage() == DownloadStage::File,
                DownloadStage::File => match event {
                    DownloadEvent::FileDownloaded(Err(e)) => (step matches DownloadStep::Report(InstallStatus::Failed(m))
                        && m@ == download_failed_status(e@)) && final(self).spec_stage() == DownloadStage::FailureReported
                        && final(self).spec_error() == download_failed_text(e@),
                    _ => step == DownloadStep::Finish(Ok(())) && final(self).spec_stage() == DownloadStage::Done,
                },
                DownloadStage::FailureReported => (step matches DownloadStep::Finish(Err(m))
                    && m@ == old(self).spec_error()) && final(self).spec_stage() == DownloadStage::Done,
                DownloadStage::Done => false,
            },
    {
        proof {
            use_type_invariant(&*self);
        }
        match event {
            DownloadEvent::Reported => {
                if self.stage == DownloadStage::CheckingReported {
                    self.stage = DownloadStage::Release;
                    DownloadStep::FetchRelease
                } else if self.stage == DownloadStage::DownloadingReported {
                    self.stage = DownloadStage::File;
                    DownloadStep::DownloadFile(self.url.clone(), self.destination.clone())
                } else {
                    self.stage = DownloadStage::Done;
                    DownloadStep::Finish(Err(self.error.clone()))
                }
            },
            DownloadEvent::ReleaseFetched(fetched) => match fetched {
                Err(error) => {
                    self.stage = DownloadStage::Done;
                    DownloadStep::Finish(Err(error))
                },
                Ok((version, assets)) => {
                    let mut names: Vec<Option<String>> = Vec::new();
                    let mut i: usize = 0;
                    while i < assets.len()
                        invariant
                            i <= assets@.len(),
                            names@.len() == i,
                            name_views(names@) == release_names(assets@).take(i as int),
                        decreases assets@.len() - i,
                    {
                        names.push(Some(assets[i].0.clone()));
                        i += 1;
                        assert(name_views(names@) =~= release_names(assets@).take(i as int));
                    }
                    assert(release_names(assets@).take(assets@.len() as int) =~= release_names(assets@));
                    match BslJarDownloader::select_asset(names.as_slice()) {
                        None => {
                            self.stage = DownloadStage::Done;
                            DownloadStep::Finish(Err(BslJarDownloader::missing_asset_message(version.as_str())))
                        },
                        Some(index) => {
                            self.url = assets[index].1.clone();
                            self.after_asset()
                        },
                    }
                },
            },
            DownloadEvent::DirectoryCreated(created) => match created {
                Err(error) => {
                    self.stage = DownloadStage::Done;
                    let mut message = String::from_str("failed to create ");
                    match &self.directory {
                        Some(directory) => message.append(directory.as_str()),
                        None => {},
                    }
                    message.append(" directory: ");
                    message.append(error.as_str());
                    DownloadStep::Finish(Err(message))
                },
                Ok(()) => {
                    self.stage = DownloadStage::DownloadingReported;
                    DownloadStep::Report(InstallStatus::Downloading)
                },
            },
            DownloadEvent::FileDownloaded(downloaded) => match downloaded {
                Ok(()) => {
                    self.stage = DownloadStage::Done;
                    DownloadStep::Finish(Ok(()))
                },
                Err(error) => {
                    let mut status = String::from_str("Failed to download ");
                    status.append(JAR_FILENAME);
                    status.append(": ");
                    status.append(error.as_str());
                    let mut message = String::from_str("failed to download ");
                    message.append(JAR_FILENAME);
                    message.append(": ");
                    message.append(error.as_str());
                    self.error = message;
                    self.stage = DownloadStage::FailureReported;
                    DownloadStep::Report(InstallStatus::Failed(status))
                },
            },
        }
    }
}

} // verus!
