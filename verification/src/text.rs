//! Character-level helpers on strings, with their specifications.

use vstd::prelude::*;

verus! {

/// Unicode `White_Space` code points, the set that `char::is_whitespace` tests.
pub open spec fn is_white_space(c: char) -> bool {
    let u = c as u32;
    ||| 0x09 <= u <= 0x0d
    ||| u == 0x20
    ||| u == 0x85
    ||| u == 0xa0
    ||| u == 0x1680
    ||| 0x2000 <= u <= 0x200a
    ||| u == 0x2028
    ||| u == 0x2029
    ||| u == 0x202f
    ||| u == 0x205f
    ||| u == 0x3000
}

/// `s` without its leading white space.
pub open spec fn trim_start_spec(s: Seq<char>) -> Seq<char>
    decreases s.len(),
{
    if s.len() > 0 && is_white_space(s[0]) {
        trim_start_spec(s.drop_first())
    } else {
        s
    }
}

/// `s` without its trailing white space.
pub open spec fn trim_end_spec(s: Seq<char>) -> Seq<char>
    decreases s.len(),
{
    if s.len() > 0 && is_white_space(s.last()) {
        trim_end_spec(s.drop_last())
    } else {
        s
    }
}

/// `s` without leading and trailing white space, as `str::trim` gives it.
pub open spec fn trim_spec(s: Seq<char>) -> Seq<char> {
    trim_end_spec(trim_start_spec(s))
}

/// A path separator: `/` or `\`.
pub open spec fn is_separator(c: char) -> bool {
    c == '/' || c == '\\'
}

/// `s` without its trailing path separators.
pub open spec fn trim_end_separators_spec(s: Seq<char>) -> Seq<char>
    decreases s.len(),
{
    if s.len() > 0 && is_separator(s.last()) {
        trim_end_separators_spec(s.drop_last())
    } else {
        s
    }
}

/// The code of `c` after ASCII lower-casing (other characters keep their code).
pub open spec fn ascii_lower(c: char) -> u32 {
    if 'A' <= c <= 'Z' {
        (c as u32 + 32) as u32
    } else {
        c as u32
    }
}

/// `a` and `b` are equal once ASCII letters are lower-cased.
pub open spec fn eq_ignore_ascii_case_spec(a: Seq<char>, b: Seq<char>) -> bool {
    &&& a.len() == b.len()
    &&& forall|i: int| 0 <= i < a.len() ==> #[trigger] ascii_lower(a[i]) == ascii_lower(b[i])
}

/// Whether `c` has the Unicode `White_Space` property, as `char::is_whitespace`
/// decides.
pub fn char_is_whitespace(c: char) -> (r: bool)
    ensures
        r == is_white_space(c),
{
    let u = c as u32;
    (0x09 <= u && u <= 0x0d) || u == 0x20 || u == 0x85 || u == 0xa0 || u == 0x1680 || (0x2000 <= u
        && u <= 0x200a) || u == 0x2028 || u == 0x2029 || u == 0x202f || u == 0x205f || u == 0x3000
}

/// `String::push`: appends `c` to `s`.
#[verifier::external_body]
pub(crate) fn push_char(s: &mut String, c: char)
    ensures
        final(s)@ == old(s)@.push(c),
{
    s.push(c)
}

/// The characters of `s`, in order.
pub fn chars_of(s: &str) -> (v: Vec<char>)
    ensures
        v@ == s@,
{
    let mut v: Vec<char> = Vec::new();
    for c in it: s.chars()
        invariant
            v@ == it.seq().take(it.index() as int),
    {
        v.push(c);
    }
    v
}

/// The string made of `chars[from..to]`.
pub fn string_of(chars: &[char], from: usize, to: usize) -> (s: String)
    requires
        from <= to <= chars@.len(),
    ensures
        s@ == chars@.subrange(from as int, to as int),
{
    let mut s = String::new();
    let mut i = from;
    while i < to
        invariant
            from <= i <= to <= chars@.len(),
            s@ == chars@.subrange(from as int, i as int),
        decreases to - i,
    {
        push_char(&mut s, chars[i]);
        assert(chars@.subrange(from as int, i + 1) =~= chars@.subrange(from as int, i as int).push(
            chars@[i as int],
        ));
        i = i + 1;
    }
    s
}

/// Trimming the start drops leading white space only: the result is a
/// suffix of `s` that is empty or starts with a character that is not white
/// space, and everything dropped is white space.
pub proof fn law_trim_start_drops_only_leading_white_space(s: Seq<char>)
    ensures
        exists|k: int|
            0 <= k <= s.len() && trim_start_spec(s) == s.skip(k) && (forall|i: int|
                0 <= i < k ==> is_white_space(#[trigger] s[i])),
        trim_start_spec(s).len() > 0 ==> !is_white_space(trim_start_spec(s)[0]),
    decreases s.len(),
{
    if s.len() > 0 && is_white_space(s[0]) {
        law_trim_start_drops_only_leading_white_space(s.drop_first());
        let k = choose|k: int|
            0 <= k <= s.drop_first().len() && trim_start_spec(s.drop_first()) == s.drop_first().skip(
                k,
            ) && (forall|i: int| 0 <= i < k ==> is_white_space(#[trigger] s.drop_first()[i]));
        assert(s.drop_first().skip(k) =~= s.skip(k + 1));
        assert forall|i: int| 0 <= i < k + 1 implies is_white_space(#[trigger] s[i]) by {
            if i > 0 {
                assert(s[i] == s.drop_first()[i - 1]);
            }
        }
    } else {
        assert(s.skip(0) =~= s);
    }
}

/// Trimming the end drops trailing white space only: the result is a prefix
/// of `s` that is empty or ends with a character that is not white space,
/// and everything dropped is white space.
pub proof fn law_trim_end_drops_only_trailing_white_space(s: Seq<char>)
    ensures
        exists|k: int|
            0 <= k <= s.len() && trim_end_spec(s) == s.take(k) && (forall|i: int|
                k <= i < s.len() ==> is_white_space(#[trigger] s[i])),
        trim_end_spec(s).len() > 0 ==> !is_white_space(trim_end_spec(s).last()),
    decreases s.len(),
{
    if s.len() > 0 && is_white_space(s.last()) {
        law_trim_end_drops_only_trailing_white_space(s.drop_last());
        let k = choose|k: int|
            0 <= k <= s.drop_last().len() && trim_end_spec(s.drop_last()) == s.drop_last().take(k)
                && (forall|i: int|
                k <= i < s.drop_last().len() ==> is_white_space(#[trigger] s.drop_last()[i]));
        assert(s.drop_last().take(k) =~= s.take(k));
        assert forall|i: int| k <= i < s.len() implies is_white_space(#[trigger] s[i]) by {
            if i < s.len() - 1 {
                assert(s[i] == s.drop_last()[i]);
            }
        }
    } else {
        assert(s.take(s.len() as int) =~= s);
    }
}

/// Trimming trailing separators drops trailing `/` and `\` only: the result
/// is a prefix of `s` that is empty or does not end with a separator, and
/// everything dropped is a separator.
pub proof fn law_trim_end_separators_drops_only_separators(s: Seq<char>)
    ensures
        exists|k: int|
            0 <= k <= s.len() && trim_end_separators_spec(s) == s.take(k) && (forall|i: int|
                k <= i < s.len() ==> is_separator(#[trigger] s[i])),
        trim_end_separators_spec(s).len() > 0 ==> !is_separator(
            trim_end_separators_spec(s).last(),
        ),
    decreases s.len(),
{
    if s.len() > 0 && is_separator(s.last()) {
        law_trim_end_separators_drops_only_separators(s.drop_last());
        let k = choose|k: int|
            0 <= k <= s.drop_last().len() && trim_end_separators_spec(s.drop_last())
                == s.drop_last().take(k) && (forall|i: int|
                k <= i < s.drop_last().len() ==> is_separator(#[trigger] s.drop_last()[i]));
        assert(s.drop_last().take(k) =~= s.take(k));
        assert forall|i: int| k <= i < s.len() implies is_separator(#[trigger] s[i]) by {
            if i < s.len() - 1 {
                assert(s[i] == s.drop_last()[i]);
            }
        }
    } else {
        assert(s.take(s.len() as int) =~= s);
    }
}

proof fn lemma_trim_start_skip(s: Seq<char>, i: int)
    requires
        0 <= i < s.len(),
        is_white_space(s[i]),
    ensures
        trim_start_spec(s.skip(i)) == trim_start_spec(s.skip(i + 1)),
{
    assert(s.skip(i).drop_first() =~= s.skip(i + 1));
}

proof fn lemma_trim_end_take(s: Seq<char>, j: int)
    requires
        0 < j <= s.len(),
        is_white_space(s[j - 1]),
    ensures
        trim_end_spec(s.take(j)) == trim_end_spec(s.take(j - 1)),
{
    assert(s.take(j).drop_last() =~= s.take(j - 1));
}

proof fn lemma_trim_end_separators_take(s: Seq<char>, j: int)
    requires
        0 < j <= s.len(),
        is_separator(s[j - 1]),
    ensures
        trim_end_separators_spec(s.take(j)) == trim_end_separators_spec(s.take(j - 1)),
{
    assert(s.take(j).drop_last() =~= s.take(j - 1));
}

/// `chars` with leading and trailing white space removed, then trailing
/// path separators removed: the text that a raw exclusion entry stands for.
pub fn trim_entry(chars: &[char]) -> (t: Vec<char>)
    ensures
        t@ == trim_end_separators_spec(trim_spec(chars@)),
{
    let n = chars.len();
    let mut start: usize = 0;
    assert(chars@.skip(0) =~= chars@);
    while start < n && char_is_whitespace(chars[start])
        invariant
            n == chars@.len(),
            start <= n,
            trim_start_spec(chars@.skip(start as int)) == trim_start_spec(chars@),
        decreases n - start,
    {
        proof {
            lemma_trim_start_skip(chars@, start as int);
        }
        start = start + 1;
    }
    let ghost rest = chars@.skip(start as int);
    assert(trim_start_spec(rest) == rest);
    let mut end: usize = n;
    assert(rest.take(n - start) =~= rest);
    while end > start && char_is_whitespace(chars[end - 1])
        invariant
            n == chars@.len(),
            start <= end <= n,
            rest == chars@.skip(start as int),
            trim_end_spec(rest.take(end - start)) == trim_end_spec(rest),
        decreases end,
    {
        proof {
            assert(rest[end - start - 1] == chars@[end - 1]);
            lemma_trim_end_take(rest, end - start);
        }
        end = end - 1;
    }
    let ghost trimmed = rest.take(end - start);
    assert(trim_end_spec(trimmed) == trimmed);
    let mut last: usize = end;
    assert(trimmed.take(end - start) =~= trimmed);
    while last > start && (chars[last - 1] == '/' || chars[last - 1] == '\\')
        invariant
            n == chars@.len(),
            start <= last <= end <= n,
            trimmed == chars@.subrange(start as int, end as int),
            trim_end_separators_spec(trimmed.take(last - start)) == trim_end_separators_spec(
                trimmed,
            ),
        decreases last,
    {
        proof {
            assert(trimmed[last - start - 1] == chars@[last - 1]);
            lemma_trim_end_separators_take(trimmed, last - start);
        }
        last = last - 1;
    }
    assert(trimmed =~= chars@.subrange(start as int, end as int));
    assert(trimmed.take(end - start) =~= trimmed);
    let t = slice_range(chars, start, last);
    assert(t@ =~= trimmed.take(last - start));
    t
}

/// `chars[from..to]` as a vector.
pub fn slice_range(chars: &[char], from: usize, to: usize) -> (v: Vec<char>)
    requires
        from <= to <= chars@.len(),
    ensures
        v@ == chars@.subrange(from as int, to as int),
{
    let mut v: Vec<char> = Vec::new();
    let mut i = from;
    while i < to
        invariant
            from <= i <= to <= chars@.len(),
            v@ == chars@.subrange(from as int, i as int),
        decreases to - i,
    {
        v.push(chars[i]);
        assert(chars@.subrange(from as int, i + 1) =~= chars@.subrange(from as int, i as int).push(
            chars@[i as int],
        ));
        i = i + 1;
    }
    v
}

/// Whether `c` occurs in `chars`.
pub fn contains_char(chars: &[char], c: char) -> (r: bool)
    ensures
        r == chars@.contains(c),
{
    let mut i: usize = 0;
    while i < chars.len()
        invariant
            i <= chars@.len(),
            forall|j: int| 0 <= j < i ==> chars@[j] != c,
        decreases chars.len() - i,
    {
        if chars[i] == c {
            assert(chars@[i as int] == c);
            return true;
        }
        i = i + 1;
    }
    false
}

/// The lower-cased ASCII code of `c`, as `ascii_lower` specifies.
fn ascii_lower_exec(c: char) -> (r: u32)
    ensures
        r == ascii_lower(c),
{
    if 'A' <= c && c <= 'Z' {
        c as u32 + 32
    } else {
        c as u32
    }
}

/// ASCII case folding identifies exactly a capital letter with its small
/// letter: two characters fold alike when they are equal, or one is a letter
/// from `A` to `Z` and the other is that letter's small form (32 code points
/// further); every other pair stays apart.
pub proof fn law_ascii_folding_pairs_capitals_with_small_letters(a: char, b: char)
    ensures
        ascii_lower(a) == ascii_lower(b) <==> (a == b || ('A' <= a <= 'Z' && b as u32 == a as u32
            + 32) || ('A' <= b <= 'Z' && a as u32 == b as u32 + 32)),
{
    if a as u32 == b as u32 {
        assert(a == b);
    }
}

/// Strings that differ only in the case of ASCII letters match, and a
/// string matches its own ASCII-lowered form: where `b` is `a` with some
/// capitals `A`-`Z` replaced by their small letters, the two match.
pub proof fn law_ascii_case_variants_match(a: Seq<char>, b: Seq<char>)
    requires
        a.len() == b.len(),
        forall|i: int|
            0 <= i < a.len() ==> a[i] == b[i] || ('A' <= a[i] <= 'Z' && b[i] as u32 == a[i] as u32
                + 32) || ('A' <= b[i] <= 'Z' && a[i] as u32 == b[i] as u32 + 32),
    ensures
        eq_ignore_ascii_case_spec(a, b),
{
    assert forall|i: int| 0 <= i < a.len() implies #[trigger] ascii_lower(a[i]) == ascii_lower(
        b[i],
    ) by {
        law_ascii_folding_pairs_capitals_with_small_letters(a[i], b[i]);
    }
}

/// `str::eq_ignore_ascii_case`: whether `a` and `b` match once ASCII letters
/// are lower-cased.
pub fn eq_ignore_ascii_case(a: &str, b: &str) -> (r: bool)
    ensures
        r == eq_ignore_ascii_case_spec(a@, b@),
{
    let x = chars_of(a);
    let y = chars_of(b);
    if x.len() != y.len() {
        return false;
    }
    let mut i: usize = 0;
    while i < x.len()
        invariant
            x@ == a@,
            y@ == b@,
            x@.len() == y@.len(),
            i <= x@.len(),
            forall|j: int| 0 <= j < i ==> #[trigger] ascii_lower(x@[j]) == ascii_lower(y@[j]),
        decreases x.len() - i,
    {
        if ascii_lower_exec(x[i]) != ascii_lower_exec(y[i]) {
            return false;
        }
        i = i + 1;
    }
    true
}

} // verus!
