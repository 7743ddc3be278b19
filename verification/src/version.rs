use vstd::prelude::*;
use vstd::slice::slice_subrange;

use crate::text::{
    chars_of, contains, decimal, law_parse_u32_reads_decimal, law_trim_idempotent, is_digit, is_whitespace,
    lemma_decimal_digits, contains_chars, find_char, find_char_from, first_some, lemma_first_some_step,
    lemma_find_char_from, line_at, lines, lines_from, parse_u32, parse_u32_chars, trim, trim_bounds,
};

verus! {

/// The part of `v` before its first `.` (the first item of `split('.')`).
pub open spec fn leading_part(v: Seq<char>) -> Seq<char> {
    v.take(find_char_from(v, '.', 0))
}

/// The integer Java version named by a `java.specification.version` value such as `21`,
/// `17.0.1` or the legacy `1.8`: the value is trimmed, a leading `1.` is dropped, and the
/// part before the next `.` is read as a `u32`.
pub open spec fn java_version_number(value: Seq<char>) -> Option<u32> {
    let t = trim(value);
    if t.len() >= 2 && t[0] == '1' && t[1] == '.' {
        parse_u32(leading_part(t.skip(2)))
    } else {
        parse_u32(leading_part(t))
    }
}

/// The property whose value `parse_output` reads.
pub open spec fn specification_key() -> Seq<char> {
    "java.specification.version"@
}

/// The version a single probe line gives: the line must mention the key, and the text between
/// its first `=` and the next `=` (or the line's end), trimmed, must parse as a version.
pub open spec fn probe_line_version(line: Seq<char>) -> Option<u32> {
    if contains(line, specification_key()) {
        let p = find_char_from(line, '=', 0);
        if p < line.len() {
            let q = find_char_from(line, '=', p + 1);
            java_version_number(trim(line.subrange(p + 1, q)))
        } else {
            None
        }
    } else {
        None
    }
}

/// `probe_line_version` as a function value.
pub open spec fn probe_line_reader() -> spec_fn(Seq<char>) -> Option<u32> {
    |line: Seq<char>| probe_line_version(line)
}

/// The version that the output of `java -XshowSettings:properties -version` reports: that of
/// the first line that gives one.
pub open spec fn probe_version(probe: Seq<char>) -> Option<u32> {
    first_some(lines(probe), probe_line_reader())
}

/// Reads a version from the characters of a `java.specification.version` value.
pub fn version_of_chars(value: &[char]) -> (res: Option<u32>)
    ensures
        res == java_version_number(value@),
{
    let (a, b) = trim_bounds(value);
    let t = slice_subrange(value, a, b);
    if t.len() >= 2 && t[0] == '1' && t[1] == '.' {
        let rest = slice_subrange(t, 2, t.len());
        assert(rest@ =~= t@.skip(2));
        let p = find_char(rest, '.', 0);
        proof {
            lemma_find_char_from(rest@, '.', 0);
        }
        let part = slice_subrange(rest, 0, p);
        assert(part@ =~= leading_part(t@.skip(2)));
        parse_u32_chars(part)
    } else {
        let p = find_char(t, '.', 0);
        proof {
            lemma_find_char_from(t@, '.', 0);
        }
        let part = slice_subrange(t, 0, p);
        assert(part@ =~= leading_part(t@));
        parse_u32_chars(part)
    }
}

/// Parses a `java.specification.version` value such as `21`, `17.0.1` or the legacy `1.8`
/// into an integer Java version (8, 17, 21, ...).
pub fn parse_version(value: &str) -> (res: Option<u32>)
    ensures
        res == java_version_number(value@),
{
    let chars = chars_of(value);
    version_of_chars(chars.as_slice())
}

/// The version one probe line gives; `key` holds the characters of the property name.
fn line_version(line: &[char], key: &[char]) -> (res: Option<u32>)
    requires
        key@ == specification_key(),
    ensures
        res == probe_line_version(line@),
{
    if !contains_chars(line, key) {
        return None;
    }
    let p = find_char(line, '=', 0);
    proof {
        lemma_find_char_from(line@, '=', 0);
    }
    if p >= line.len() {
        return None;
    }
    let q = find_char(line, '=', p + 1);
    proof {
        lemma_find_char_from(line@, '=', p + 1);
    }
    let segment = slice_subrange(line, p + 1, q);
    let (a, b) = trim_bounds(segment);
    version_of_chars(slice_subrange(segment, a, b))
}

/// Extracts the Java specification version from the combined stderr + stdout output of
/// `java -XshowSettings:properties -version`.
pub fn parse_output(probe: &str) -> (res: Option<u32>)
    ensures
        res == probe_version(probe@),
{
    let chars = chars_of(probe);
    let v = chars.as_slice();
    let key = chars_of("java.specification.version");
    let mut pos: usize = 0;
    while pos < v.len()
        invariant
            pos <= v@.len(),
            v@ == probe@,
            key@ == specification_key(),
            probe_version(probe@) == first_some(lines_from(v@, pos as int), probe_line_reader()),
        decreases v@.len() - pos,
    {
        let (end, next) = line_at(v, pos);
        let line = slice_subrange(v, pos, end);
        proof {
            lemma_first_some_step(line@, lines_from(v@, next as int), probe_line_reader());
        }
        match line_version(line, key.as_slice()) {
            Some(version) => {
                return Some(version);
            },
            None => {
                pos = next;
            },
        }
    }
    None
}

/// A version value is read the same with or without surrounding whitespace.
pub proof fn law_version_ignores_surrounding_whitespace(value: Seq<char>)
    ensures
        java_version_number(trim(value)) == java_version_number(value),
{
    law_trim_idempotent(value);
}

proof fn lemma_decimal_is_plain(n: nat)
    ensures
        trim(decimal(n)) == decimal(n),
        find_char_from(decimal(n), '.', 0) == decimal(n).len(),
{
    lemma_decimal_digits(n);
    let d = decimal(n);
    assert(!is_whitespace(d[0])) by {
        assert(is_digit(d[0]));
    }
    assert(!is_whitespace(d.last())) by {
        assert(is_digit(d[d.len() - 1]));
    }
    lemma_find_char_from(d, '.', 0);
    if find_char_from(d, '.', 0) < d.len() {
        assert(is_digit(d[find_char_from(d, '.', 0)]));
    }
}

/// A version written as a plain number (`21`) or in the legacy form (`1.8`) is read back as
/// that number.
pub proof fn law_version_reads_plain_and_legacy_forms(n: u32)
    ensures
        java_version_number(decimal(n as nat)) == Some(n),
        java_version_number("1."@ + decimal(n as nat)) == Some(n),
{
    let d = decimal(n as nat);
    lemma_decimal_is_plain(n as nat);
    law_parse_u32_reads_decimal(n);
    assert(d.take(d.len() as int) =~= d);
    lemma_decimal_digits(n as nat);
    if d.len() >= 2 {
        assert(is_digit(d[1]));
    }
    reveal_strlit("1.");
    let l = "1."@ + d;
    assert(l[0] == '1' && l[1] == '.');
    assert(!is_whitespace(l[0]));
    assert(!is_whitespace(l.last())) by {
        assert(l.last() == d.last());
        assert(is_digit(d[d.len() - 1]));
    }
    assert(trim(l) == l);
    assert(l.skip(2) =~= d);
}

} // verus!
