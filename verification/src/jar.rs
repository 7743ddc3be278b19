use vstd::prelude::*;
use vstd::slice::slice_subrange;
use vstd::string::StringExecFns;
use vstd::string::StringSliceAdditionalSpecFns;
use vstd::utf8::{decode_utf8, valid_utf8};

use crate::constants::{MAIN_CLASS_PATH, MANIFEST_PATH, MINIMUM_REQUIRED_JAVA};
use crate::text::{
    chars_equal, chars_of, find_char, find_char_from, first_some, lemma_find_char_from,
    lemma_first_some_step, line_at, lines, lines_from, parse_u32, parse_u32_chars, trim, trim_bounds,
};
use crate::zip::{end_record_fits, entry_data, lookup_entry, ArchiveEntry, ZipArchive};

verus! {

/// The text `String::from_utf8_lossy` makes of `bytes`.
pub uninterp spec fn lossy_text(bytes: Seq<u8>) -> Seq<char>;

/// `String::from_utf8_lossy`: decodes `bytes`, replacing invalid sequences with U+FFFD.
/// Claimed: the text is `lossy_text` of the bytes, and valid UTF-8 is decoded unchanged.
#[verifier::external_body]
pub(crate) fn decode_lossy(bytes: &[u8]) -> (res: String)
    ensures
        res@ == lossy_text(bytes@),
        valid_utf8(bytes@) ==> res@ == decode_utf8(bytes@),
{
    String::from_utf8_lossy(bytes).into_owned()
}

/// The major class-file version recorded in a class file: bytes 6 and 7, big-endian, provided
/// the data is at least 8 bytes long and starts with the class-file magic number.
pub open spec fn class_major(data: Seq<u8>) -> Option<u32> {
    if data.len() < 8 || data.take(4) != seq![0xCAu8, 0xFEu8, 0xBAu8, 0xBEu8] {
        None
    } else {
        Some((data[6] as nat * 256 + data[7] as nat) as u32)
    }
}

/// The `Build-Jdk-Spec` version a manifest line gives: the line must hold a `:`, the text
/// before it, trimmed, must be `Build-Jdk-Spec`, and the text after it, trimmed, must parse.
pub open spec fn manifest_line_version(line: Seq<char>) -> Option<u32> {
    let p = find_char_from(line, ':', 0);
    if p < line.len() && trim(line.take(p)) == "Build-Jdk-Spec"@ {
        parse_u32(trim(line.skip(p + 1)))
    } else {
        None
    }
}

/// `manifest_line_version` as a function value.
pub open spec fn manifest_line_reader() -> spec_fn(Seq<char>) -> Option<u32> {
    |line: Seq<char>| manifest_line_version(line)
}

/// The `Build-Jdk-Spec` version of a manifest: that of the first line that gives one.
pub open spec fn manifest_java(text: Seq<char>) -> Option<u32> {
    first_some(lines(text), manifest_line_reader())
}

/// Reads entry `name` of the archive and interprets its contents with `f`.
pub open spec fn read_entry<A>(
    path: Seq<char>,
    data: Seq<u8>,
    name: Seq<u8>,
    f: spec_fn(Seq<u8>) -> Option<A>,
) -> Result<Option<A>, Seq<char>> {
    match lookup_entry(path, data, name) {
        Err(m) => Err(m),
        Ok(None) => Ok(None),
        Ok(Some(entry)) => match entry_data(path, data, entry) {
            Err(m) => Err(m),
            Ok(contents) => Ok(f(contents)),
        },
    }
}

/// The major class-file version of the jar's main class.
pub open spec fn main_class_major(path: Seq<char>, data: Seq<u8>) -> Result<Option<u32>, Seq<char>> {
    read_entry(path, data, MAIN_CLASS_PATH.spec_bytes(), |contents: Seq<u8>| class_major(contents))
}

/// The `Build-Jdk-Spec` version in the jar's manifest.
pub open spec fn manifest_jdk(path: Seq<char>, data: Seq<u8>) -> Result<Option<u32>, Seq<char>> {
    read_entry(
        path,
        data,
        MANIFEST_PATH.spec_bytes(),
        |contents: Seq<u8>| manifest_java(lossy_text(contents)),
    )
}

/// Minimum Java version required to run the jar: the major class-file version of the main
/// class minus 44 when it is at least 49, otherwise the `Build-Jdk-Spec` manifest attribute
/// when it is at least 17; `None` when neither indicator is usable.
pub open spec fn required_java(path: Seq<char>, data: Seq<u8>) -> Result<Option<u32>, Seq<char>> {
    match main_class_major(path, data) {
        Err(m) => Err(m),
        Ok(major) => if major is Some && major->0 >= 49 {
            Ok(Some((major->0 - 44) as u32))
        } else {
            match manifest_jdk(path, data) {
                Err(m) => Err(m),
                Ok(version) => Ok(
                    if version is Some && version->0 >= MINIMUM_REQUIRED_JAVA {
                        version
                    } else {
                        None
                    },
                ),
            }
        },
    }
}

/// The version one manifest line gives; `key` holds the characters `Build-Jdk-Spec`.
fn manifest_line(line: &[char], key: &[char]) -> (res: Option<u32>)
    requires
        key@ == "Build-Jdk-Spec"@,
    ensures
        res == manifest_line_version(line@),
{
    let p = find_char(line, ':', 0);
    proof {
        lemma_find_char_from(line@, ':', 0);
    }
    if p >= line.len() {
        return None;
    }
    let name = slice_subrange(line, 0, p);
    assert(name@ =~= line@.take(p as int));
    let (a, b) = trim_bounds(name);
    if !chars_equal(slice_subrange(name, a, b), key) {
        return None;
    }
    let value = slice_subrange(line, p + 1, line.len());
    assert(value@ =~= line@.skip(p + 1));
    let (c, d) = trim_bounds(value);
    parse_u32_chars(slice_subrange(value, c, d))
}

/// The `Build-Jdk-Spec` version in the manifest `text`: that of the first line whose name,
/// trimmed, is `Build-Jdk-Spec` and whose trimmed value parses as a `u32`.
pub fn manifest_text_version(text: &str) -> (res: Option<u32>)
    ensures
        res == manifest_java(text@),
{
    let chars = chars_of(text);
    let v = chars.as_slice();
    let key = chars_of("Build-Jdk-Spec");
    let mut pos: usize = 0;
    while pos < v.len()
        invariant
            pos <= v@.len(),
            v@ == text@,
            key@ == "Build-Jdk-Spec"@,
            manifest_java(text@) == first_some(lines_from(v@, pos as int), manifest_line_reader()),
        decreases v@.len() - pos,
    {
        let (end, next) = line_at(v, pos);
        let line = slice_subrange(v, pos, end);
        proof {
            lemma_first_some_step(line@, lines_from(v@, next as int), manifest_line_reader());
        }
        match manifest_line(line, key.as_slice()) {
            Some(version) => {
                return Some(version);
            },
            None => {
                pos = next;
            },
        }
    }
    None
}

/// The major version stored in a class file.
fn class_file_major(data: &[u8]) -> (res: Option<u32>)
    ensures
        res == class_major(data@),
{
    if data.len() < 8 || data[0] != 0xCA || data[1] != 0xFE || data[2] != 0xBA || data[3] != 0xBE {
        proof {
            if data@.len() >= 8 {
                let magic = seq![0xCAu8, 0xFEu8, 0xBAu8, 0xBEu8];
                assert(data@.take(4) != magic) by {
                    if data@.take(4) == magic {
                        assert(data@.take(4)[0] == data@[0]);
                        assert(data@.take(4)[1] == data@[1]);
                        assert(data@.take(4)[2] == data@[2]);
                        assert(data@.take(4)[3] == data@[3]);
                    }
                }
            }
        }
        return None;
    }
    assert(data@.take(4) =~= seq![0xCAu8, 0xFEu8, 0xBAu8, 0xBEu8]);
    Some((data[6] as u32) * 256 + data[7] as u32)
}

/// The language server jar at `path`.
pub struct BslJar {
    path: String,
}

impl BslJar {
    /// The path of the jar.
    pub closed spec fn spec_path(&self) -> Seq<char> {
        self.path@
    }

    /// The jar at `path`.
    pub fn new(path: &str) -> (res: Self)
        ensures
            res.spec_path() == path@,
    {
        BslJar { path: String::from_str(path) }
    }

    /// Minimum Java version required to run this jar, whose bytes are `contents`: the major
    /// class-file version of the main class, falling back to the `Build-Jdk-Spec` manifest
    /// attribute. `None` when neither indicator is usable.
    pub fn java_version(&self, contents: Vec<u8>) -> (res: Result<Option<u32>, String>)
        requires
            end_record_fits(contents@),
        ensures
            match res {
                Ok(v) => required_java(self.spec_path(), contents@) == Ok::<Option<u32>, Seq<char>>(v),
                Err(m) => required_java(self.spec_path(), contents@) == Err::<Option<u32>, Seq<char>>(m@),
            },
    {
        let archive = ZipArchive::new(self.path.clone(), contents);
        if let Some(major) = self.class_version(&archive)? {
            if major >= 49 {
                return Ok(Some(major - 44));
            }
        }
        match self.manifest_version(&archive)? {
            Some(version) => if version >= MINIMUM_REQUIRED_JAVA {
                Ok(Some(version))
            } else {
                Ok(None)
            },
            None => Ok(None),
        }
    }

    fn class_version(&self, archive: &ZipArchive) -> (res: Result<Option<u32>, String>)
        requires
            end_record_fits(archive.spec_data()),
        ensures
            match res {
                Ok(v) => main_class_major(archive.spec_path(), archive.spec_data()) == Ok::<Option<u32>, Seq<char>>(v),
                Err(m) => main_class_major(archive.spec_path(), archive.spec_data()) == Err::<Option<u32>, Seq<char>>(m@),
            },
    {
        let entry = match archive.entry(MAIN_CLASS_PATH)? {
            Some(entry) => entry,
            None => {
                return Ok(None);
            },
        };
        let data = archive.entry_contents(&entry)?;
        Ok(class_file_major(data.as_slice()))
    }

    fn manifest_version(&self, archive: &ZipArchive) -> (res: Result<Option<u32>, String>)
        requires
            end_record_fits(archive.spec_data()),
        ensures
            match res {
                Ok(v) => manifest_jdk(archive.spec_path(), archive.spec_data()) == Ok::<Option<u32>, Seq<char>>(v),
                Err(m) => manifest_jdk(archive.spec_path(), archive.spec_data()) == Err::<Option<u32>, Seq<char>>(m@),
            },
    {
        let entry = match archive.entry(MANIFEST_PATH)? {
            Some(entry) => entry,
            None => {
                return Ok(None);
            },
        };
        let data = archive.entry_contents(&entry)?;
        let manifest = decode_lossy(data.as_slice());
        Ok(manifest_text_version(manifest.as_str()))
    }
}

/// A required Java version is never below Java 5 (class-file major 49), and one taken from
/// the manifest is never below the minimum of 17.
pub proof fn law_required_java_is_plausible(path: Seq<char>, data: Seq<u8>)
    ensures
        required_java(path, data) matches Ok(Some(v)) ==> v >= 5,
        (main_class_major(path, data) matches Ok(major) && !(major is Some && major->0 >= 49))
            ==> (required_java(path, data) matches Ok(Some(v)) ==> v >= MINIMUM_REQUIRED_JAVA),
{
}

/// When the jar's main class is found and its class file (magic `CA FE BA BE`) records a
/// major version of at least 49, the required Java version is that major version minus 44,
/// whatever the manifest says: the manifest is only read when the main class gives no usable
/// version.
pub proof fn law_main_class_version_wins(path: Seq<char>, data: Seq<u8>, entry: ArchiveEntry, class: Seq<u8>)
    requires
        lookup_entry(path, data, MAIN_CLASS_PATH.spec_bytes()) == Ok::<Option<ArchiveEntry>, Seq<char>>(Some(entry)),
        entry_data(path, data, entry) == Ok::<Seq<u8>, Seq<char>>(class),
        class.len() >= 8,
        class[0] == 0xCA && class[1] == 0xFE && class[2] == 0xBA && class[3] == 0xBE,
        class[6] * 256 + class[7] >= 49,
    ensures
        required_java(path, data) == Ok::<Option<u32>, Seq<char>>(Some((class[6] * 256 + class[7] - 44) as u32)),
{
    assert(class.take(4) =~= seq![0xCAu8, 0xFEu8, 0xBAu8, 0xBEu8]);
}

/// When the jar has no main class entry, the required Java version comes from the manifest's
/// `Build-Jdk-Spec`, and only when that is at least 17.
pub proof fn law_manifest_is_the_fallback(path: Seq<char>, data: Seq<u8>)
    requires
        lookup_entry(path, data, MAIN_CLASS_PATH.spec_bytes()) == Ok::<Option<ArchiveEntry>, Seq<char>>(None),
    ensures
        required_java(path, data) matches Ok(Some(v)) ==> v >= 17 && manifest_jdk(path, data) == Ok::<
            Option<u32>,
            Seq<char>,
        >(Some(v)),
{
}

} // verus!
