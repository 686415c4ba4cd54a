//! Character-level text operations: literal search and replacement.
//!
//! Texts are modelled as sequences of characters. The executable functions
//! work on `Vec<char>`; `chars_of` and `string_of` convert from and to
//! strings.

use vstd::prelude::*;
use vstd::string::*;

verus! {

/// `pattern` is not empty and stands in `text` at position `at`.
pub open spec fn matches_at(text: Seq<char>, pattern: Seq<char>, at: int) -> bool {
    &&& pattern.len() > 0
    &&& 0 <= at
    &&& at + pattern.len() <= text.len()
    &&& text.subrange(at, at + pattern.len()) == pattern
}

/// `pattern` is not empty and stands somewhere in `text`.
pub open spec fn occurs_in(text: Seq<char>, pattern: Seq<char>) -> bool {
    exists|at: int| matches_at(text, pattern, at)
}

/// `text` contains `pattern`; the empty pattern is contained in every text.
pub open spec fn contains(text: Seq<char>, pattern: Seq<char>) -> bool {
    pattern.len() == 0 || occurs_in(text, pattern)
}

/// The text from position `from` on, with every match of `pattern` replaced
/// by `replacement`. Matches are taken from left to right and do not
/// overlap; what was put in is not searched again.
pub open spec fn replace_from(
    text: Seq<char>,
    pattern: Seq<char>,
    replacement: Seq<char>,
    from: int,
) -> Seq<char>
    decreases text.len() - from,
{
    if from < 0 || from >= text.len() {
        Seq::empty()
    } else if matches_at(text, pattern, from) {
        replacement + replace_from(text, pattern, replacement, from + pattern.len())
    } else {
        seq![text[from]] + replace_from(text, pattern, replacement, from + 1)
    }
}

/// `text` with every match of `pattern` replaced by `replacement`. An empty
/// pattern matches nowhere.
pub open spec fn replace_all(text: Seq<char>, pattern: Seq<char>, replacement: Seq<char>) -> Seq<
    char,
> {
    replace_from(text, pattern, replacement, 0)
}

/// The part of `text` before the first `stop`, or all of it where there is
/// none.
pub open spec fn before_first(text: Seq<char>, stop: char) -> Seq<char>
    decreases text.len(),
{
    if text.len() == 0 || text[0] == stop {
        Seq::empty()
    } else {
        seq![text[0]] + before_first(text.drop_first(), stop)
    }
}

/// `c` is white space: one of the characters with the Unicode property
/// White_Space.
pub open spec fn white_space(c: char) -> bool {
    let code = c as u32;
    ||| 0x09 <= code <= 0x0d
    ||| code == 0x20
    ||| code == 0x85
    ||| code == 0xa0
    ||| code == 0x1680
    ||| 0x2000 <= code <= 0x200a
    ||| code == 0x2028
    ||| code == 0x2029
    ||| code == 0x202f
    ||| code == 0x205f
    ||| code == 0x3000
}

/// The text is blank: it holds nothing but white space, so nothing is left
/// of it once the white space at its ends is cut off.
pub open spec fn blank(text: Seq<char>) -> bool {
    forall|i: int| 0 <= i < text.len() ==> white_space(#[trigger] text[i])
}

/// `c` is no character of `text`.
pub open spec fn lacks(text: Seq<char>, c: char) -> bool {
    forall|k: int| 0 <= k < text.len() ==> text[k] != c
}

/// `inset` cannot be taken for a part of `pattern`: it holds neither the
/// first nor the last character of the pattern, and it holds a character
/// that the pattern lacks.
pub open spec fn foreign_to(inset: Seq<char>, pattern: Seq<char>) -> bool {
    &&& pattern.len() > 0
    &&& lacks(inset, pattern.first())
    &&& lacks(inset, pattern.last())
    &&& exists|k: int| 0 <= k < inset.len() && lacks(pattern, #[trigger] inset[k])
}

/// Where the pattern matches nowhere from `from` on, replacing leaves the
/// rest of the text as it is.
pub proof fn lemma_replace_absent(
    text: Seq<char>,
    pattern: Seq<char>,
    replacement: Seq<char>,
    from: int,
)
    requires
        0 <= from <= text.len(),
        forall|at: int| from <= at ==> !matches_at(text, pattern, at),
    ensures
        replace_from(text, pattern, replacement, from) == text.subrange(from, text.len() as int),
    decreases text.len() - from,
{
    if from < text.len() {
        assert(!matches_at(text, pattern, from));
        lemma_replace_absent(text, pattern, replacement, from + 1);
        assert(seq![text[from]] + text.subrange(from + 1, text.len() as int) =~= text.subrange(
            from,
            text.len() as int,
        ));
    } else {
        assert(text.subrange(from, text.len() as int) =~= Seq::<char>::empty());
    }
}

/// A text in which the pattern does not occur is left as it is.
pub proof fn lemma_replace_all_absent(text: Seq<char>, pattern: Seq<char>, replacement: Seq<char>)
    requires
        !occurs_in(text, pattern),
    ensures
        replace_all(text, pattern, replacement) == text,
{
    lemma_replace_absent(text, pattern, replacement, 0);
    assert(text.subrange(0, text.len() as int) =~= text);
}

/// A piece `found` at the start of the replaced rest of the text, to which
/// the replacement is foreign, was copied from the text: it stands in the
/// text at `from`, and the pattern does not match there.
proof fn lemma_prefix_untouched(
    text: Seq<char>,
    pattern: Seq<char>,
    replacement: Seq<char>,
    found: Seq<char>,
    from: int,
    witness: int,
)
    requires
        0 <= from,
        found.len() > 0,
        lacks(replacement, found.last()),
        0 <= witness < replacement.len(),
        lacks(found, replacement[witness]),
        found.len() <= replace_from(text, pattern, replacement, from).len(),
        replace_from(text, pattern, replacement, from).subrange(0, found.len() as int) == found,
    ensures
        from + found.len() <= text.len(),
        text.subrange(from, from + found.len()) == found,
        !matches_at(text, pattern, from),
    decreases found.len(),
{
    let replaced = replace_from(text, pattern, replacement, from);
    let n = found.len() as int;
    assert(from < text.len());
    if matches_at(text, pattern, from) {
        let rest = replace_from(text, pattern, replacement, from + pattern.len());
        assert(replaced == replacement + rest);
        if n <= replacement.len() {
            assert(found[n - 1] == replaced.subrange(0, n)[n - 1]);
            assert(replaced[n - 1] == replacement[n - 1]);
            assert(false);
        } else {
            assert(found[witness] == replaced.subrange(0, n)[witness]);
            assert(replaced[witness] == replacement[witness]);
            assert(false);
        }
    } else {
        let rest = replace_from(text, pattern, replacement, from + 1);
        assert(replaced == seq![text[from]] + rest);
        assert(found[0] == replaced.subrange(0, n)[0]);
        assert(found[0] == text[from]);
        if n == 1 {
            assert(text.subrange(from, from + 1) =~= found);
        } else {
            let tail = found.subrange(1, n);
            assert(tail.last() == found.last());
            assert forall|k: int| 0 <= k < tail.len() implies tail[k] != replacement[witness] by {
                assert(tail[k] == found[k + 1]);
            }
            assert(rest.subrange(0, n - 1) =~= tail) by {
                assert forall|k: int| 0 <= k < n - 1 implies rest.subrange(0, n - 1)[k]
                    == tail[k] by {
                    assert(rest[k] == replaced[k + 1]);
                    assert(found[k + 1] == replaced.subrange(0, n)[k + 1]);
                }
            }
            lemma_prefix_untouched(text, pattern, replacement, tail, from + 1, witness);
            assert(text.subrange(from, from + n) =~= found) by {
                assert forall|k: int| 0 <= k < n implies text.subrange(from, from + n)[k]
                    == found[k] by {
                    if k > 0 {
                        assert(text.subrange(from + 1, from + 1 + tail.len())[k - 1] == tail[k
                            - 1]);
                    }
                }
            }
        }
    }
}

/// A piece `found` that stands in the replaced rest of the text, and to
/// which the replacement is foreign, stands in the text itself, at a
/// position where the pattern does not match.
pub proof fn lemma_match_survives(
    text: Seq<char>,
    pattern: Seq<char>,
    replacement: Seq<char>,
    found: Seq<char>,
    from: int,
    at: int,
)
    requires
        0 <= from,
        foreign_to(replacement, found),
        matches_at(replace_from(text, pattern, replacement, from), found, at),
    ensures
        exists|origin: int|
            from <= origin && #[trigger] matches_at(text, found, origin) && !matches_at(
                text,
                pattern,
                origin,
            ),
    decreases text.len() - from,
{
    let replaced = replace_from(text, pattern, replacement, from);
    let n = found.len() as int;
    assert(from < text.len());
    if matches_at(text, pattern, from) {
        let rest = replace_from(text, pattern, replacement, from + pattern.len());
        assert(replaced == replacement + rest);
        if at < replacement.len() {
            assert(replaced.subrange(at, at + n)[0] == found[0]);
            assert(replaced[at] == replacement[at]);
            assert(false);
        } else {
            assert(rest.subrange(at - replacement.len(), at - replacement.len() + n)
                =~= replaced.subrange(at, at + n));
            lemma_match_survives(
                text,
                pattern,
                replacement,
                found,
                from + pattern.len(),
                at - replacement.len(),
            );
        }
    } else {
        let rest = replace_from(text, pattern, replacement, from + 1);
        assert(replaced == seq![text[from]] + rest);
        if at == 0 {
            let witness = choose|k: int|
                0 <= k < replacement.len() && lacks(found, #[trigger] replacement[k]);
            lemma_prefix_untouched(text, pattern, replacement, found, from, witness);
            assert(matches_at(text, found, from));
        } else {
            assert(rest.subrange(at - 1, at - 1 + n) =~= replaced.subrange(at, at + n));
            lemma_match_survives(text, pattern, replacement, found, from + 1, at - 1);
        }
    }
}

/// After a replacement that is foreign to its own pattern, the pattern no
/// longer occurs.
pub proof fn lemma_replaced_pattern_gone(
    text: Seq<char>,
    pattern: Seq<char>,
    replacement: Seq<char>,
)
    requires
        foreign_to(replacement, pattern),
    ensures
        !occurs_in(replace_all(text, pattern, replacement), pattern),
{
    if occurs_in(replace_all(text, pattern, replacement), pattern) {
        let at = choose|at: int| matches_at(replace_all(text, pattern, replacement), pattern, at);
        lemma_match_survives(text, pattern, replacement, pattern, 0, at);
    }
}

/// A replacement brings no piece into the text to which it is foreign.
pub proof fn lemma_replaced_brings_nothing(
    text: Seq<char>,
    pattern: Seq<char>,
    replacement: Seq<char>,
    other: Seq<char>,
)
    requires
        foreign_to(replacement, other),
        !occurs_in(text, other),
    ensures
        !occurs_in(replace_all(text, pattern, replacement), other),
{
    if occurs_in(replace_all(text, pattern, replacement), other) {
        let at = choose|at: int| matches_at(replace_all(text, pattern, replacement), other, at);
        lemma_match_survives(text, pattern, replacement, other, 0, at);
    }
}

/// `String::push` of std: the character is added at the end.
#[verifier::external_body]
fn push_char(text: &mut String, c: char)
    ensures
        final(text)@ == old(text)@.push(c),
{
    text.push(c)
}

/// Tells whether `c` is white space.
pub fn is_white_space(c: char) -> (yes: bool)
    ensures
        yes == white_space(c),
{
    let code = c as u32;
    (0x09 <= code && code <= 0x0d) || code == 0x20 || code == 0x85 || code == 0xa0 || code
        == 0x1680 || (0x2000 <= code && code <= 0x200a) || code == 0x2028 || code == 0x2029
        || code == 0x202f || code == 0x205f || code == 0x3000
}

/// Tells whether `text` is blank.
pub fn is_blank(text: &str) -> (yes: bool)
    ensures
        yes == blank(text@),
{
    let chars = chars_of(text);
    let mut i: usize = 0;
    while i < chars.len()
        invariant
            i <= chars.len(),
            chars@ == text@,
            forall|k: int| 0 <= k < i ==> white_space(#[trigger] chars@[k]),
        decreases chars.len() - i,
    {
        if !is_white_space(chars[i]) {
            return false;
        }
        i += 1;
    }
    true
}

/// The characters of `text`.
pub fn chars_of(text: &str) -> (chars: Vec<char>)
    ensures
        chars@ == text@,
{
    let n = text.unicode_len();
    let mut chars: Vec<char> = Vec::new();
    let mut i: usize = 0;
    while i < n
        invariant
            i <= n,
            n == text@.len(),
            chars@ == text@.subrange(0, i as int),
        decreases n - i,
    {
        chars.push(text.get_char(i));
        assert(chars@ =~= text@.subrange(0, i + 1));
        i += 1;
    }
    assert(text@.subrange(0, n as int) =~= text@);
    chars
}

/// The string made of `chars`.
pub fn string_of(chars: &Vec<char>) -> (text: String)
    ensures
        text@ == chars@,
{
    let mut text = String::new();
    let mut i: usize = 0;
    while i < chars.len()
        invariant
            i <= chars.len(),
            text@ == chars@.subrange(0, i as int),
        decreases chars.len() - i,
    {
        push_char(&mut text, chars[i]);
        assert(text@ =~= chars@.subrange(0, i + 1));
        i += 1;
    }
    assert(chars@.subrange(0, chars.len() as int) =~= chars@);
    text
}

/// Adds the characters of `tail` to `out`.
pub fn push_all(out: &mut Vec<char>, tail: &Vec<char>)
    ensures
        final(out)@ == old(out)@ + tail@,
{
    let mut i: usize = 0;
    while i < tail.len()
        invariant
            i <= tail.len(),
            out@ == old(out)@ + tail@.subrange(0, i as int),
        decreases tail.len() - i,
    {
        out.push(tail[i]);
        assert(out@ =~= old(out)@ + tail@.subrange(0, i + 1));
        i += 1;
    }
    assert(tail@.subrange(0, tail.len() as int) =~= tail@);
}

/// Tells whether `pattern` stands in `text` at position `at`.
pub fn is_match_at(text: &Vec<char>, pattern: &Vec<char>, at: usize) -> (found: bool)
    ensures
        found == matches_at(text@, pattern@, at as int),
{
    let m = pattern.len();
    if m == 0 || at > text.len() || m > text.len() - at {
        return false;
    }
    let mut k: usize = 0;
    while k < m
        invariant
            k <= m,
            m == pattern.len(),
            at + m <= text.len(),
            forall|j: int| 0 <= j < k ==> text@[at + j] == pattern@[j],
        decreases m - k,
    {
        if text[at + k] != pattern[k] {
            assert(text@.subrange(at as int, at + m)[k as int] != pattern@[k as int]);
            return false;
        }
        k += 1;
    }
    assert(text@.subrange(at as int, at + m) =~= pattern@);
    true
}

/// Tells whether `text` contains `pattern`.
pub fn has_match(text: &Vec<char>, pattern: &Vec<char>) -> (found: bool)
    ensures
        found == contains(text@, pattern@),
{
    if pattern.len() == 0 {
        return true;
    }
    let mut i: usize = 0;
    while i < text.len()
        invariant
            i <= text.len(),
            pattern.len() > 0,
            forall|at: int| 0 <= at < i ==> !matches_at(text@, pattern@, at),
        decreases text.len() - i,
    {
        if is_match_at(text, pattern, i) {
            return true;
        }
        i += 1;
    }
    false
}

/// Replaces every match of `pattern` in `text` by `replacement`.
pub fn replace_chars(text: &Vec<char>, pattern: &Vec<char>, replacement: &Vec<char>) -> (out: Vec<
    char,
>)
    ensures
        out@ == replace_all(text@, pattern@, replacement@),
{
    let n = text.len();
    let mut out: Vec<char> = Vec::new();
    let mut i: usize = 0;
    while i < n
        invariant
            i <= n,
            n == text.len(),
            out@ + replace_from(text@, pattern@, replacement@, i as int) == replace_all(
                text@,
                pattern@,
                replacement@,
            ),
        decreases n - i,
    {
        let ghost before = out@;
        let ghost here = i as int;
        if is_match_at(text, pattern, i) {
            push_all(&mut out, replacement);
            i += pattern.len();
            assert(out@ + replace_from(text@, pattern@, replacement@, i as int) =~= before
                + replace_from(text@, pattern@, replacement@, here));
        } else {
            out.push(text[i]);
            i += 1;
            assert(out@ + replace_from(text@, pattern@, replacement@, i as int) =~= before
                + replace_from(text@, pattern@, replacement@, here));
        }
    }
    assert(out@ + Seq::<char>::empty() =~= out@);
    out
}

/// Replaces every match of `pattern` in `text` by `replacement`; an empty
/// pattern leaves the text as it is.
pub fn replace(text: &str, pattern: &str, replacement: &str) -> (out: String)
    ensures
        out@ == replace_all(text@, pattern@, replacement@),
{
    let chars = chars_of(text);
    let pattern_chars = chars_of(pattern);
    let replacement_chars = chars_of(replacement);
    let replaced = replace_chars(&chars, &pattern_chars, &replacement_chars);
    string_of(&replaced)
}

/// The part of `text` before the first `stop`.
pub fn prefix_before(text: &str, stop: char) -> (prefix: String)
    ensures
        prefix@ == before_first(text@, stop),
{
    let chars = chars_of(text);
    let mut out: Vec<char> = Vec::new();
    let mut i: usize = 0;
    assert(text@.subrange(0, text@.len() as int) =~= text@);
    while i < chars.len() && chars[i] != stop
        invariant
            i <= chars.len(),
            chars@ == text@,
            out@ + before_first(text@.subrange(i as int, text@.len() as int), stop) == before_first(
                text@,
                stop,
            ),
        decreases chars.len() - i,
    {
        let ghost rest = text@.subrange(i as int, text@.len() as int);
        assert(rest.drop_first() =~= text@.subrange(i + 1, text@.len() as int));
        let ghost before = out@;
        out.push(chars[i]);
        assert(out@ + before_first(rest.drop_first(), stop) =~= before + before_first(rest, stop));
        i += 1;
    }
    assert(out@ + Seq::<char>::empty() =~= out@);
    string_of(&out)
}

/// Joins two texts.
pub fn concat2(a: &str, b: &str) -> (out: String)
    ensures
        out@ == a@ + b@,
{
    let mut out = String::from_str(a);
    out.append(b);
    out
}

/// Joins three texts.
pub fn concat3(a: &str, b: &str, c: &str) -> (out: String)
    ensures
        out@ == a@ + b@ + c@,
{
    let mut out = String::from_str(a);
    out.append(b);
    out.append(c);
    out
}

} // verus!
