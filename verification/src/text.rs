use vstd::prelude::*;

verus! {

/// The characters of `s`, in order.
pub fn chars_of(s: &str) -> (res: Vec<char>)
    ensures
        res@ == s@,
{
    let mut out: Vec<char> = Vec::new();
    for c in it: s.chars()
        invariant
            out@ == it.seq().take(it.index() as int),
            it.seq() == s@,
    {
        out.push(c);
    }
    out
}

/// `String::push`: appends one character to the end of the string.
#[verifier::external_body]
pub(crate) fn push_char(s: &mut String, c: char)
    ensures
        final(s)@ == old(s)@.push(c),
{
    s.push(c);
}

/// A `String` holding exactly the characters `chars[from..to]`.
pub fn string_of_range(chars: &[char], from: usize, to: usize) -> (res: String)
    requires
        from <= to <= chars@.len(),
    ensures
        res@ == chars@.subrange(from as int, to as int),
{
    let mut out = String::new();
    let mut i = from;
    while i < to
        invariant
            from <= i <= to <= chars@.len(),
            out@ == chars@.subrange(from as int, i as int),
        decreases to - i,
    {
        push_char(&mut out, chars[i]);
        i += 1;
        assert(out@ =~= chars@.subrange(from as int, i as int));
    }
    out
}

/// A `String` holding exactly the characters of `chars`.
pub fn string_of(chars: &[char]) -> (res: String)
    ensures
        res@ == chars@,
{
    let res = string_of_range(chars, 0, chars.len());
    assert(chars@.subrange(0, chars@.len() as int) =~= chars@);
    res
}

/// The ASCII digit for `d`, for `d < 10`.
pub open spec fn digit_char(d: nat) -> char {
    ((d + 48) as u8) as char
}

/// Decimal notation of `n`, without sign or leading zeros (as `{}` formats an integer).
pub open spec fn decimal(n: nat) -> Seq<char>
    decreases n,
{
    if n < 10 {
        seq![digit_char(n)]
    } else {
        decimal(n / 10).push(digit_char(n % 10))
    }
}

/// Appends the decimal notation of `n` to `out`.
pub fn push_decimal(out: &mut String, n: u64)
    ensures
        final(out)@ == old(out)@ + decimal(n as nat),
    decreases n,
{
    if n >= 10 {
        push_decimal(out, n / 10);
    }
    let d: u8 = (n % 10) as u8;
    push_char(out, (d + 48) as char);
    assert(out@ =~= old(out)@ + decimal(n as nat));
}

/// `char::is_whitespace`: the characters with the Unicode `White_Space` property.
pub open spec fn is_whitespace(c: char) -> bool {
    let u = c as u32;
    (0x09 <= u <= 0x0D) || u == 0x20 || u == 0x85 || u == 0xA0 || u == 0x1680 || (0x2000 <= u
        <= 0x200A) || u == 0x2028 || u == 0x2029 || u == 0x202F || u == 0x205F || u == 0x3000
}

/// Whether `c` is a whitespace character.
pub fn is_whitespace_char(c: char) -> (res: bool)
    ensures
        res == is_whitespace(c),
{
    let u = c as u32;
    (0x09 <= u && u <= 0x0D) || u == 0x20 || u == 0x85 || u == 0xA0 || u == 0x1680 || (0x2000 <= u
        && u <= 0x200A) || u == 0x2028 || u == 0x2029 || u == 0x202F || u == 0x205F || u == 0x3000
}

/// `s` without its leading whitespace.
pub open spec fn trim_start(s: Seq<char>) -> Seq<char>
    decreases s.len(),
{
    if s.len() > 0 && is_whitespace(s[0]) {
        trim_start(s.drop_first())
    } else {
        s
    }
}

/// `s` without its trailing whitespace.
pub open spec fn trim_end(s: Seq<char>) -> Seq<char>
    decreases s.len(),
{
    if s.len() > 0 && is_whitespace(s.last()) {
        trim_end(s.drop_last())
    } else {
        s
    }
}

/// `str::trim`: `s` without leading and trailing whitespace.
pub open spec fn trim(s: Seq<char>) -> Seq<char> {
    trim_end(trim_start(s))
}

/// Index `a` such that `s[a..]` is `s` without its leading whitespace.
pub fn trim_start_index(s: &[char]) -> (res: usize)
    ensures
        res <= s@.len(),
        s@.subrange(res as int, s@.len() as int) == trim_start(s@),
{
    let len = s.len();
    let mut a: usize = 0;
    assert(s@.subrange(0, len as int) =~= s@);
    while a < len && is_whitespace_char(s[a])
        invariant
            a <= len == s@.len(),
            trim_start(s@) == trim_start(s@.subrange(a as int, len as int)),
        decreases len - a,
    {
        assert(s@.subrange(a as int, len as int).drop_first() =~= s@.subrange(a + 1, len as int));
        a += 1;
    }
    a
}

/// Bounds `(a, b)` such that `s[a..b]` is `s` trimmed.
pub fn trim_bounds(s: &[char]) -> (res: (usize, usize))
    ensures
        res.0 <= res.1 <= s@.len(),
        s@.subrange(res.0 as int, res.1 as int) == trim(s@),
{
    let len = s.len();
    let a = trim_start_index(s);
    let mut b: usize = len;
    while b > a && is_whitespace_char(s[b - 1])
        invariant
            a <= b <= len == s@.len(),
            trim(s@) == trim_end(s@.subrange(a as int, b as int)),
        decreases b,
    {
        assert(s@.subrange(a as int, b as int).drop_last() =~= s@.subrange(a as int, b - 1));
        b -= 1;
    }
    (a, b)
}

/// Index of the first `c` in `s` at or after `i`, or `s.len()` when there is none.
pub open spec fn find_char_from(s: Seq<char>, c: char, i: int) -> int
    decreases s.len() - i,
{
    if i >= s.len() {
        s.len() as int
    } else if s[i] == c {
        i
    } else {
        find_char_from(s, c, i + 1)
    }
}

pub proof fn lemma_find_char_from(s: Seq<char>, c: char, i: int)
    requires
        0 <= i <= s.len(),
    ensures
        i <= find_char_from(s, c, i) <= s.len(),
        find_char_from(s, c, i) < s.len() ==> s[find_char_from(s, c, i)] == c,
        forall|k: int| i <= k < find_char_from(s, c, i) ==> s[k] != c,
    decreases s.len() - i,
{
    if i < s.len() && s[i] != c {
        lemma_find_char_from(s, c, i + 1);
    }
}

/// Index of the first `c` in `s` at or after `from`, or `s.len()`.
pub fn find_char(s: &[char], c: char, from: usize) -> (res: usize)
    requires
        from <= s@.len(),
    ensures
        res == find_char_from(s@, c, from as int),
{
    let mut i = from;
    while i < s.len() && s[i] != c
        invariant
            from <= i <= s@.len(),
            find_char_from(s@, c, from as int) == find_char_from(s@, c, i as int),
        decreases s@.len() - i,
    {
        i += 1;
    }
    i
}

/// One line of `s` starting at `i` and ending at the newline `e` (or the end of `s`):
/// a carriage return just before a newline is not part of the line.
pub open spec fn line_content(s: Seq<char>, i: int, e: int) -> Seq<char> {
    let raw = s.subrange(i, e);
    if e < s.len() && raw.len() > 0 && raw.last() == '\r' {
        raw.drop_last()
    } else {
        raw
    }
}

/// `str::lines` applied to `s[i..]`.
pub open spec fn lines_from(s: Seq<char>, i: int) -> Seq<Seq<char>>
    decreases s.len() - i,
{
    if i < 0 || i >= s.len() {
        seq![]
    } else {
        let e = find_char_from(s, '\n', i);
        proof {
            lemma_find_char_from(s, '\n', i);
        }
        if e < s.len() {
            seq![line_content(s, i, e)] + lines_from(s, e + 1)
        } else {
            seq![line_content(s, i, e)]
        }
    }
}

/// `str::lines`: the lines of `s`, split at `\n` or `\r\n`; a final line ending is optional.
pub open spec fn lines(s: Seq<char>) -> Seq<Seq<char>> {
    lines_from(s, 0)
}

/// The first `Some` that `f` gives for an element of `items`, in order (`find_map`).
pub open spec fn first_some<A>(items: Seq<Seq<char>>, f: spec_fn(Seq<char>) -> Option<A>) -> Option<A>
    decreases items.len(),
{
    if items.len() == 0 {
        None
    } else {
        match f(items[0]) {
            Some(v) => Some(v),
            None => first_some(items.drop_first(), f),
        }
    }
}

/// The line of `s` that starts at `i`: where its content ends, and where the next line starts.
pub fn line_at(s: &[char], i: usize) -> (res: (usize, usize))
    requires
        i < s@.len(),
    ensures
        i <= res.0 <= res.1 <= s@.len(),
        res.1 > i,
        s@.subrange(i as int, res.0 as int) == line_content(s@, i as int, find_char_from(s@, '\n', i as int)),
        lines_from(s@, i as int) == seq![s@.subrange(i as int, res.0 as int)] + lines_from(s@, res.1 as int),
{
    let e = find_char(s, '\n', i);
    proof {
        lemma_find_char_from(s@, '\n', i as int);
    }
    let end = if e < s.len() && e > i && s[e - 1] == '\r' { e - 1 } else { e };
    assert(s@.subrange(i as int, end as int) =~= line_content(s@, i as int, e as int));
    let next = if e < s.len() { e + 1 } else { e };
    assert(lines_from(s@, next as int) == if e < s.len() { lines_from(s@, e + 1) } else { seq![] });
    assert(seq![s@.subrange(i as int, end as int)] + Seq::<Seq<char>>::empty() =~= seq![s@.subrange(i as int, end as int)]);
    (end, next)
}

/// The first `Some` that `f` gives for an element of `items ++ rest`, item by item.
pub proof fn lemma_first_some_step<A>(
    line: Seq<char>,
    rest: Seq<Seq<char>>,
    f: spec_fn(Seq<char>) -> Option<A>,
)
    ensures
        first_some(seq![line] + rest, f) == match f(line) {
            Some(v) => Some(v),
            None => first_some(rest, f),
        },
{
    assert((seq![line] + rest).drop_first() =~= rest);
    assert((seq![line] + rest)[0] == line);
}

/// `c` is an ASCII decimal digit.
pub open spec fn is_digit(c: char) -> bool {
    48 <= (c as u32) <= 57
}

/// Every character of `s` is an ASCII digit.
pub open spec fn all_digits(s: Seq<char>) -> bool {
    forall|i: int| 0 <= i < s.len() ==> is_digit(#[trigger] s[i])
}

/// The number written by the digits `s`.
pub open spec fn digits_value(s: Seq<char>) -> nat
    decreases s.len(),
{
    if s.len() == 0 {
        0
    } else {
        digits_value(s.drop_last()) * 10 + ((s.last() as u32) - 48) as nat
    }
}

/// `s` without one leading `+`.
pub open spec fn unsigned_digits(s: Seq<char>) -> Seq<char> {
    if s.len() > 0 && s[0] == '+' {
        s.drop_first()
    } else {
        s
    }
}

/// `str::parse::<u32>`: an optional `+` followed by at least one ASCII digit, with a value
/// that fits in `u32`.
pub open spec fn parse_u32(s: Seq<char>) -> Option<u32> {
    let digits = unsigned_digits(s);
    if digits.len() > 0 && all_digits(digits) && digits_value(digits) <= u32::MAX {
        Some(digits_value(digits) as u32)
    } else {
        None
    }
}

proof fn lemma_digits_value_grows(s: Seq<char>, k: int)
    requires
        all_digits(s),
        0 <= k <= s.len(),
    ensures
        digits_value(s.take(k)) <= digits_value(s),
    decreases s.len(),
{
    if k < s.len() {
        assert(all_digits(s.drop_last()));
        assert(s.drop_last().take(k) =~= s.take(k));
        lemma_digits_value_grows(s.drop_last(), k);
    } else {
        assert(s.take(k) =~= s);
    }
}

/// Parses `s` as `str::parse::<u32>` does.
pub fn parse_u32_chars(s: &[char]) -> (res: Option<u32>)
    ensures
        res == parse_u32(s@),
{
    let len = s.len();
    let start: usize = if len > 0 && s[0] == '+' { 1 } else { 0 };
    let ghost digits = unsigned_digits(s@);
    assert(digits =~= s@.subrange(start as int, len as int));
    if start == len {
        return None;
    }
    let mut acc: u64 = 0;
    let mut i = start;
    while i < len
        invariant
            start <= i <= len == s@.len(),
            digits == s@.subrange(start as int, len as int),
            digits == unsigned_digits(s@),
            all_digits(digits.take(i - start)),
            acc == digits_value(digits.take(i - start)),
            acc <= u32::MAX,
        decreases len - i,
    {
        let u = s[i] as u32;
        if u < 48 || u > 57 {
            assert(digits[i - start] == s@[i as int]);
            assert(!is_digit(digits[i - start]));
            assert(!all_digits(digits));
            return None;
        }
        acc = acc * 10 + (u - 48) as u64;
        assert(digits.take(i + 1 - start).drop_last() =~= digits.take(i - start));
        assert(digits.take(i + 1 - start).last() == s@[i as int]);
        assert(acc == digits_value(digits.take(i + 1 - start)));
        assert(all_digits(digits.take(i + 1 - start)));
        if acc > u32::MAX as u64 {
            proof {
                if all_digits(digits) {
                    lemma_digits_value_grows(digits, i + 1 - start);
                }
            }
            return None;
        }
        i += 1;
    }
    assert(digits.take(len - start) =~= digits);
    Some(acc as u32)
}

/// `pattern` occurs in `s` at position `i`.
pub open spec fn occurs_at(s: Seq<char>, pattern: Seq<char>, i: int) -> bool {
    0 <= i && i + pattern.len() <= s.len() && s.subrange(i, i + pattern.len()) == pattern
}

/// `str::contains`: `pattern` occurs somewhere in `s`.
pub open spec fn contains(s: Seq<char>, pattern: Seq<char>) -> bool {
    exists|i: int| occurs_at(s, pattern, i)
}

/// Whether `s[start..start + pattern.len()]` is `pattern`.
pub fn chars_match_at(s: &[char], start: usize, pattern: &[char]) -> (res: bool)
    requires
        start + pattern@.len() <= s.len(),
    ensures
        res == (s@.subrange(start as int, start + pattern@.len()) == pattern@),
{
    let mut i: usize = 0;
    while i < pattern.len()
        invariant
            start + pattern@.len() <= s.len(),
            i <= pattern@.len(),
            s@.subrange(start as int, start + i) == pattern@.subrange(0, i as int),
        decreases pattern@.len() - i,
    {
        if s[start + i] != pattern[i] {
            assert(s@.subrange(start as int, start + pattern@.len())[i as int] != pattern@[i as int]);
            return false;
        }
        i += 1;
        assert(s@.subrange(start as int, start + i) =~= pattern@.subrange(0, i as int));
    }
    assert(pattern@.subrange(0, i as int) =~= pattern@);
    true
}

/// Whether `pattern` occurs in `s`.
pub fn contains_chars(s: &[char], pattern: &[char]) -> (res: bool)
    ensures
        res == contains(s@, pattern@),
{
    if pattern.len() > s.len() {
        assert forall|i: int| !occurs_at(s@, pattern@, i) by {}
        return false;
    }
    let last = s.len() - pattern.len();
    let mut i: usize = 0;
    loop
        invariant
            i <= last,
            last + pattern@.len() == s@.len(),
            forall|k: int| 0 <= k < i ==> !occurs_at(s@, pattern@, k),
        decreases last - i,
    {
        if chars_match_at(s, i, pattern) {
            assert(occurs_at(s@, pattern@, i as int));
            return true;
        }
        if i == last {
            assert forall|k: int| !occurs_at(s@, pattern@, k) by {
                if 0 <= k && k + pattern@.len() <= s@.len() && k != i {
                    assert(k < i);
                }
            }
            return false;
        }
        i += 1;
    }
}

/// Whether `s` and `t` hold the same characters.
pub fn chars_equal(s: &[char], t: &[char]) -> (res: bool)
    ensures
        res == (s@ == t@),
{
    if s.len() != t.len() {
        return false;
    }
    let res = chars_match_at(s, 0, t);
    assert(s@.subrange(0, t@.len() as int) =~= s@);
    res
}

/// The views of a sequence of strings.
pub open spec fn string_views(v: Seq<String>) -> Seq<Seq<char>> {
    v.map_values(|s: String| s@)
}

/// Reading `s` left to right: the words completed so far, and the word in progress.
pub open spec fn word_state(s: Seq<char>) -> (Seq<Seq<char>>, Seq<char>)
    decreases s.len(),
{
    if s.len() == 0 {
        (seq![], seq![])
    } else {
        let (done, current) = word_state(s.drop_last());
        if is_whitespace(s.last()) {
            if current.len() > 0 {
                (done.push(current), seq![])
            } else {
                (done, seq![])
            }
        } else {
            (done, current.push(s.last()))
        }
    }
}

/// `str::split_whitespace`: the maximal runs of non-whitespace characters of `s`, in order.
pub open spec fn split_whitespace(s: Seq<char>) -> Seq<Seq<char>> {
    let (done, current) = word_state(s);
    if current.len() > 0 {
        done.push(current)
    } else {
        done
    }
}

/// Splits `s` at whitespace into owned words.
pub fn split_words(s: &str) -> (res: Vec<String>)
    ensures
        string_views(res@) == split_whitespace(s@),
{
    let chars = chars_of(s);
    let v = chars.as_slice();
    let mut words: Vec<String> = Vec::new();
    let mut start: usize = 0;
    let mut i: usize = 0;
    assert(v@.take(0) =~= Seq::<char>::empty());
    while i < v.len()
        invariant
            v@ == s@,
            start <= i <= v@.len(),
            word_state(v@.take(i as int)) == (string_views(words@), v@.subrange(start as int, i as int)),
        decreases v@.len() - i,
    {
        assert(v@.take(i + 1).drop_last() =~= v@.take(i as int));
        assert(v@.take(i + 1).last() == v@[i as int]);
        if is_whitespace_char(v[i]) {
            if start < i {
                let word = string_of_range(v, start, i);
                let ghost before = words@;
                words.push(word);
                assert(string_views(words@) =~= string_views(before).push(word@));
            }
            start = i + 1;
            assert(v@.subrange(start as int, i + 1) =~= Seq::<char>::empty());
        } else {
            assert(v@.subrange(start as int, i + 1) =~= v@.subrange(start as int, i as int).push(v@[i as int]));
        }
        i += 1;
    }
    assert(v@.take(v@.len() as int) =~= v@);
    if start < v.len() {
        let word = string_of_range(v, start, v.len());
        let ghost before = words@;
        words.push(word);
        assert(string_views(words@) =~= string_views(before).push(word@));
    }
    words
}

/// Copies a vector of strings.
pub fn clone_strings(v: &Vec<String>) -> (res: Vec<String>)
    ensures
        res@ == v@,
{
    let mut out: Vec<String> = Vec::new();
    let mut i: usize = 0;
    while i < v.len()
        invariant
            i <= v@.len(),
            out@ == v@.take(i as int),
        decreases v@.len() - i,
    {
        out.push(v[i].clone());
        i += 1;
        assert(out@ =~= v@.take(i as int));
    }
    assert(v@.take(v@.len() as int) =~= v@);
    out
}

/// Splitting off the head of `seq![x] + rest` gives back `x` and `rest`.
pub proof fn lemma_cons<A>(x: A, rest: Seq<A>)
    ensures
        (seq![x] + rest)[0] == x,
        (seq![x] + rest).drop_first() == rest,
        (seq![x] + rest).len() == rest.len() + 1,
{
    assert((seq![x] + rest).drop_first() =~= rest);
}

/// Every character of the decimal notation of `n` is a digit, and the digits spell `n`.
pub proof fn lemma_decimal_digits(n: nat)
    ensures
        decimal(n).len() > 0,
        all_digits(decimal(n)),
        digits_value(decimal(n)) == n,
    decreases n,
{
    if n >= 10 {
        lemma_decimal_digits(n / 10);
        let d = decimal(n);
        assert(d.drop_last() =~= decimal(n / 10));
        assert(forall|i: int| 0 <= i < d.len() - 1 ==> d[i] == decimal(n / 10)[i]);
        assert(d.last() == digit_char(n % 10));
        assert((digit_char(n % 10) as u32) - 48 == n % 10);
        assert(n / 10 * 10 + n % 10 == n);
        assert(digits_value(d) == digits_value(d.drop_last()) * 10 + ((d.last() as u32) - 48) as nat);
        assert(digits_value(d.drop_last()) == n / 10);
    } else {
        let d = decimal(n);
        assert(d.drop_last() =~= Seq::<char>::empty());
        assert((digit_char(n) as u32) - 48 == n);
        assert(digits_value(d) == digits_value(d.drop_last()) * 10 + ((d.last() as u32) - 48) as nat);
    }
}

/// Reading back the decimal notation of a `u32` gives the number: `str::parse::<u32>`
/// undoes formatting with `{}`.
pub proof fn law_parse_u32_reads_decimal(n: u32)
    ensures
        parse_u32(decimal(n as nat)) == Some(n),
{
    lemma_decimal_digits(n as nat);
    let d = decimal(n as nat);
    assert(d[0] != '+') by {
        assert(is_digit(d[0]));
    }
    assert(unsigned_digits(d) == d);
}

/// Trimming twice is trimming once.
pub proof fn lemma_trim_start_idempotent(s: Seq<char>)
    ensures
        trim_start(trim_start(s)) == trim_start(s),
        trim_start(s).len() == 0 || !is_whitespace(trim_start(s)[0]),
    decreases s.len(),
{
    if s.len() > 0 && is_whitespace(s[0]) {
        lemma_trim_start_idempotent(s.drop_first());
    }
}

/// Trimming the end does not bring back leading whitespace.
pub proof fn lemma_trim_end_keeps_start(s: Seq<char>)
    requires
        s.len() == 0 || !is_whitespace(s[0]),
    ensures
        trim_end(s).len() == 0 || !is_whitespace(trim_end(s)[0]),
        trim_end(trim_end(s)) == trim_end(s),
        trim_end(s).len() == 0 || !is_whitespace(trim_end(s).last()),
    decreases s.len(),
{
    if s.len() > 0 && is_whitespace(s.last()) {
        let t = s.drop_last();
        assert(t.len() == 0 || t[0] == s[0]);
        lemma_trim_end_keeps_start(t);
    }
}

/// `str::trim` is idempotent: a trimmed text has no whitespace left to remove.
pub proof fn law_trim_idempotent(s: Seq<char>)
    ensures
        trim(trim(s)) == trim(s),
{
    lemma_trim_start_idempotent(s);
    let a = trim_start(s);
    lemma_trim_end_keeps_start(a);
    let b = trim_end(a);
    assert(trim_start(b) == b);
}

/// No word of `split_whitespace` is empty, and no word holds whitespace.
pub proof fn law_words_are_nonempty_runs(s: Seq<char>)
    ensures
        forall|i: int| 0 <= i < split_whitespace(s).len() ==> #[trigger] split_whitespace(s)[i].len() > 0,
        forall|i: int, j: int|
            0 <= i < split_whitespace(s).len() && 0 <= j < split_whitespace(s)[i].len()
                ==> !is_whitespace(#[trigger] split_whitespace(s)[i][j]),
{
    lemma_word_state(s);
}

proof fn lemma_word_state(s: Seq<char>)
    ensures
        forall|i: int| 0 <= i < word_state(s).0.len() ==> #[trigger] word_state(s).0[i].len() > 0,
        forall|i: int, j: int|
            0 <= i < word_state(s).0.len() && 0 <= j < word_state(s).0[i].len()
                ==> !is_whitespace(#[trigger] word_state(s).0[i][j]),
        forall|j: int| 0 <= j < word_state(s).1.len() ==> !is_whitespace(#[trigger] word_state(s).1[j]),
    decreases s.len(),
{
    if s.len() > 0 {
        let t = s.drop_last();
        lemma_word_state(t);
        let (done, current) = word_state(t);
        if is_whitespace(s.last()) {
            if current.len() > 0 {
                assert(word_state(s).0 == done.push(current));
                assert forall|i: int| 0 <= i < done.push(current).len() implies #[trigger] done.push(
                    current,
                )[i].len() > 0 by {
                    if i < done.len() {
                        assert(done.push(current)[i] == done[i]);
                    }
                }
                assert forall|i: int, j: int|
                    0 <= i < done.push(current).len() && 0 <= j < done.push(current)[i].len()
                        implies !is_whitespace(#[trigger] done.push(current)[i][j]) by {
                    if i < done.len() {
                        assert(done.push(current)[i] == done[i]);
                    } else {
                        assert(done.push(current)[i] == current);
                    }
                }
            }
        } else {
            assert(word_state(s) == (done, current.push(s.last())));
            assert forall|j: int| 0 <= j < current.push(s.last()).len() implies !is_whitespace(
                #[trigger] current.push(s.last())[j],
            ) by {
                if j < current.len() {
                    assert(current.push(s.last())[j] == current[j]);
                }
            }
        }
    }
}

} // verus!
