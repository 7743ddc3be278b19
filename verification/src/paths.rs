use vstd::prelude::*;

use crate::constants::{JAR_FILENAME, JAR_PATH_ENV, LANGUAGE_SERVER_NAME, MANAGED_JAR_DIRECTORY};
use crate::shell_env;
use crate::shell_env::env_value;
use crate::text::{chars_of, push_char, string_views};
use vstd::string::StringExecFns;

verus! {

/// `Path::join` on Unix: an absolute `part` replaces `base`; otherwise `part` is appended,
/// with a `/` in between unless `base` is empty or already ends in one.
pub open spec fn join_path(base: Seq<char>, part: Seq<char>) -> Seq<char> {
    if part.len() > 0 && part[0] == '/' {
        part
    } else if base.len() > 0 && base.last() != '/' {
        base + seq!['/'] + part
    } else {
        base + part
    }
}

/// Joins `part` onto `base` as `Path::join` does on Unix.
pub fn join(base: &str, part: &str) -> (res: String)
    ensures
        res@ == join_path(base@, part@),
{
    let p = chars_of(part);
    if p.len() > 0 && p[0] == '/' {
        return String::from_str(part);
    }
    let b = chars_of(base);
    let mut out = String::from_str(base);
    if b.len() > 0 && b[b.len() - 1] != '/' {
        push_char(&mut out, '/');
    }
    out.append(part);
    out
}

/// Where the extension keeps a jar it downloaded: `<extension_dir>/binaries/<jar>`.
pub open spec fn managed_jar(extension_dir: Seq<char>) -> Seq<char> {
    join_path(join_path(extension_dir, MANAGED_JAR_DIRECTORY@), JAR_FILENAME@)
}

/// The jar inside a `lib/bsl-language-server` directory below `root`, reached through `lib`.
pub open spec fn jar_below(root: Seq<char>, lib: Seq<char>) -> Seq<char> {
    join_path(join_path(join_path(root, lib), LANGUAGE_SERVER_NAME@), JAR_FILENAME@)
}

/// A one-element sequence when `o` is `Some`, else empty.
pub open spec fn option_seq(o: Option<Seq<char>>) -> Seq<Seq<char>> {
    match o {
        Some(v) => seq![v],
        None => seq![],
    }
}

/// The places where the jar may live, in priority order:
///   1. the `BSL_LANGUAGE_SERVER` environment variable,
///   2. `$HOME/.local/lib/bsl-language-server/`,
///   3. `$XDG_DATA_HOME/lib/bsl-language-server/`,
///   4. the managed copy in the extension directory.
pub open spec fn jar_candidates(vars: Seq<(String, String)>, extension_dir: Seq<char>) -> Seq<
    Seq<char>,
> {
    option_seq(env_value(vars, JAR_PATH_ENV@)) + option_seq(
        match env_value(vars, "HOME"@) {
            Some(home) => Some(jar_below(home, ".local/lib"@)),
            None => None,
        },
    ) + option_seq(
        match env_value(vars, "XDG_DATA_HOME"@) {
            Some(data_home) => Some(jar_below(data_home, "lib"@)),
            None => None,
        },
    ) + seq![managed_jar(extension_dir)]
}

/// The first candidate whose flag in `present` is set.
pub open spec fn first_present(candidates: Seq<Seq<char>>, present: Seq<bool>, i: int) -> Option<
    Seq<char>,
>
    decreases candidates.len() - i,
{
    if i < 0 || i >= candidates.len() {
        None
    } else if i < present.len() && present[i] {
        Some(candidates[i])
    } else {
        first_present(candidates, present, i + 1)
    }
}

/// Knows where the BSL language server jar can live and resolves the first existing copy.
pub struct JarRegistry {
    env_vars: Vec<(String, String)>,
    extension_dir: String,
}

/// Copies environment variables.
fn clone_vars(vars: &[(String, String)]) -> (res: Vec<(String, String)>)
    ensures
        res@ == vars@,
{
    let mut out: Vec<(String, String)> = Vec::new();
    let mut i: usize = 0;
    while i < vars.len()
        invariant
            i <= vars@.len(),
            out@ == vars@.take(i as int),
        decreases vars@.len() - i,
    {
        let name = vars[i].0.clone();
        let value = vars[i].1.clone();
        out.push((name, value));
        i += 1;
        assert(out@ =~= vars@.take(i as int));
    }
    assert(vars@.take(vars@.len() as int) =~= vars@);
    out
}

/// `dir/lib/bsl-language-server/bsl-language-server.jar`.
fn jar_below_dir(root: &str, lib: &str) -> (res: String)
    ensures
        res@ == jar_below(root@, lib@),
{
    let a = join(root, lib);
    let b = join(a.as_str(), LANGUAGE_SERVER_NAME);
    join(b.as_str(), JAR_FILENAME)
}

impl JarRegistry {
    /// The environment the registry reads.
    pub closed spec fn spec_env(&self) -> Seq<(String, String)> {
        self.env_vars@
    }

    /// The extension's own directory.
    pub closed spec fn spec_extension_dir(&self) -> Seq<char> {
        self.extension_dir@
    }

    /// A registry for the environment `env_vars` and the extension directory `extension_dir`.
    pub fn new(env_vars: &[(String, String)], extension_dir: &str) -> (res: Self)
        ensures
            res.spec_env() == env_vars@,
            res.spec_extension_dir() == extension_dir@,
    {
        JarRegistry { env_vars: clone_vars(env_vars), extension_dir: String::from_str(extension_dir) }
    }

    /// Where fresh downloads are placed inside the extension directory.
    pub fn managed_path(&self) -> (res: String)
        ensures
            res@ == managed_jar(self.spec_extension_dir()),
    {
        let dir = join(self.extension_dir.as_str(), MANAGED_JAR_DIRECTORY);
        join(dir.as_str(), JAR_FILENAME)
    }

    /// Every place the jar may live, in priority order.
    pub fn candidates(&self) -> (res: Vec<String>)
        ensures
            string_views(res@) == jar_candidates(self.spec_env(), self.spec_extension_dir()),
    {
        let mut candidates: Vec<String> = Vec::new();
        let ghost mut expected: Seq<Seq<char>> = seq![];
        if let Some(path) = shell_env::value(self.env_vars.as_slice(), JAR_PATH_ENV) {
            candidates.push(path);
        }
        proof {
            expected = option_seq(env_value(self.env_vars@, JAR_PATH_ENV@));
        }
        assert(string_views(candidates@) =~= expected);
        if let Some(home) = shell_env::value(self.env_vars.as_slice(), "HOME") {
            let path = jar_below_dir(home.as_str(), ".local/lib");
            let ghost before = candidates@;
            candidates.push(path);
            assert(string_views(candidates@) =~= string_views(before).push(path@));
        }
        proof {
            expected = expected + option_seq(
                match env_value(self.env_vars@, "HOME"@) {
                    Some(home) => Some(jar_below(home, ".local/lib"@)),
                    None => None,
                },
            );
        }
        assert(string_views(candidates@) =~= expected);
        if let Some(data_home) = shell_env::value(self.env_vars.as_slice(), "XDG_DATA_HOME") {
            let path = jar_below_dir(data_home.as_str(), "lib");
            let ghost before = candidates@;
            candidates.push(path);
            assert(string_views(candidates@) =~= string_views(before).push(path@));
        }
        proof {
            expected = expected + option_seq(
                match env_value(self.env_vars@, "XDG_DATA_HOME"@) {
                    Some(data_home) => Some(jar_below(data_home, "lib"@)),
                    None => None,
                },
            );
        }
        assert(string_views(candidates@) =~= expected);
        let managed = self.managed_path();
        let ghost before = candidates@;
        candidates.push(managed);
        assert(string_views(candidates@) =~= string_views(before).push(managed@));
        assert(string_views(candidates@) =~= jar_candidates(self.spec_env(), self.spec_extension_dir()));
        candidates
    }

    /// The first candidate that already exists on disk, where `present[i]` tells whether the
    /// `i`-th candidate (in the order of `candidates`) is an existing file.
    pub fn existing(&self, present: &[bool]) -> (res: Option<String>)
        ensures
            match res {
                Some(path) => first_present(
                    jar_candidates(self.spec_env(), self.spec_extension_dir()),
                    present@,
                    0,
                ) == Some(path@),
                None => first_present(
                    jar_candidates(self.spec_env(), self.spec_extension_dir()),
                    present@,
                    0,
                ) is None,
            },
    {
        let candidates = self.candidates();
        let ghost all = jar_candidates(self.spec_env(), self.spec_extension_dir());
        let mut i: usize = 0;
        while i < candidates.len()
            invariant
                i <= candidates@.len(),
                string_views(candidates@) == all,
                all.len() == candidates@.len(),
                all == jar_candidates(self.spec_env(), self.spec_extension_dir()),
                first_present(all, present@, 0) == first_present(all, present@, i as int),
            decreases candidates@.len() - i,
        {
            if i < present.len() && present[i] {
                assert(all[i as int] == candidates@[i as int]@);
                return Some(candidates[i].clone());
            }
            i += 1;
        }
        None
    }
}

/// The candidates come in priority order and always end with the managed copy: there are
/// between one and four of them, and an explicitly configured jar comes first.
pub proof fn law_candidates_end_with_managed_copy(vars: Seq<(String, String)>, extension_dir: Seq<char>)
    ensures
        1 <= jar_candidates(vars, extension_dir).len() <= 4,
        jar_candidates(vars, extension_dir).last() == managed_jar(extension_dir),
        env_value(vars, JAR_PATH_ENV@) matches Some(explicit) ==> jar_candidates(vars, extension_dir)[0]
            == explicit,
{
    let c = jar_candidates(vars, extension_dir);
    assert(c.last() == managed_jar(extension_dir));
    if let Some(explicit) = env_value(vars, JAR_PATH_ENV@) {
        assert(option_seq(env_value(vars, JAR_PATH_ENV@))[0] == explicit);
    }
}

proof fn lemma_first_present(candidates: Seq<Seq<char>>, present: Seq<bool>, i: int)
    requires
        0 <= i,
    ensures
        first_present(candidates, present, i) matches Some(p) ==> exists|k: int|
            i <= k < candidates.len() && k < present.len() && present[k] && candidates[k] == p
                && forall|j: int| i <= j < k ==> !(j < present.len() && #[trigger] present[j]),
        first_present(candidates, present, i) is None ==> forall|k: int|
            i <= k < candidates.len() ==> !(k < present.len() && #[trigger] present[k]),
    decreases candidates.len() - i,
{
    if i < candidates.len() && !(i < present.len() && present[i]) {
        lemma_first_present(candidates, present, i + 1);
        if let Some(p) = first_present(candidates, present, i + 1) {
            let k = choose|k: int|
                i + 1 <= k < candidates.len() && k < present.len() && present[k] && candidates[k]
                    == p && forall|j: int| i + 1 <= j < k ==> !(j < present.len() && #[trigger] present[j]);
            assert(forall|j: int| i <= j < k ==> !(j < present.len() && #[trigger] present[j]));
        }
    }
}

/// `existing` yields a candidate that is present, and every candidate before it is absent;
/// it yields nothing only when no candidate is present. In particular a present managed copy
/// is always found.
pub proof fn law_existing_is_first_present(candidates: Seq<Seq<char>>, present: Seq<bool>)
    ensures
        first_present(candidates, present, 0) matches Some(p) ==> exists|k: int|
            0 <= k < candidates.len() && k < present.len() && present[k] && candidates[k] == p
                && forall|j: int| 0 <= j < k ==> !(j < present.len() && #[trigger] present[j]),
        first_present(candidates, present, 0) is None <==> forall|k: int|
            0 <= k < candidates.len() ==> !(k < present.len() && #[trigger] present[k]),
        candidates.len() > 0 && present.len() >= candidates.len() && present[candidates.len() - 1]
            ==> first_present(candidates, present, 0) is Some,
{
    lemma_first_present(candidates, present, 0);
    if first_present(candidates, present, 0) is Some {
        let p = first_present(candidates, present, 0)->0;
        let k = choose|k: int|
            0 <= k < candidates.len() && k < present.len() && present[k] && candidates[k] == p
                && forall|j: int| 0 <= j < k ==> !(j < present.len() && #[trigger] present[j]);
        assert(!(forall|k: int|
            0 <= k < candidates.len() ==> !(k < present.len() && #[trigger] present[k])));
    }
}

} // verus!
