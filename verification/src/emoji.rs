//! Replacement of `:shortcode:` tokens by the glyphs they name.
//!
//! The glyph table is that of the `emojis` crate. Each of its entries that
//! has a shortcode is applied in turn, in the table's order, as a literal
//! replacement of the token by the glyph. A table is separated where no
//! glyph can be taken for a part of a token; with such a table a second
//! pass over a text changes nothing.

use crate::text::{
    chars_of, foreign_to, lacks, lemma_replace_all_absent, lemma_replaced_brings_nothing,
    lemma_replaced_pattern_gone, occurs_in, push_all, replace_all, replace_chars, string_of,
};
use vstd::prelude::*;

verus! {

/// One entry of the glyph table: an emoji and the shortcode that names it,
/// if it has one.
#[derive(Debug)]
pub struct Glyph {
    pub shortcode: Option<String>,
    pub glyph: String,
}

/// A table entry as plain text.
pub struct GlyphView {
    pub shortcode: Option<Seq<char>>,
    pub glyph: Seq<char>,
}

impl View for Glyph {
    type V = GlyphView;

    open spec fn view(&self) -> GlyphView {
        GlyphView {
            shortcode: match self.shortcode {
                Some(code) => Some(code@),
                None => None,
            },
            glyph: self.glyph@,
        }
    }
}

/// The views of a table's entries.
pub open spec fn table_view(table: Seq<Glyph>) -> Seq<GlyphView> {
    Seq::new(table.len(), |i: int| table[i]@)
}

/// The token that stands for a shortcode in a text: the shortcode between
/// two colons.
pub open spec fn token(code: Seq<char>) -> Seq<char> {
    seq![':'] + code + seq![':']
}

/// The text after one entry was applied: every token of its shortcode is
/// replaced by its glyph. An entry without a shortcode changes nothing.
pub open spec fn substituted_once(text: Seq<char>, entry: GlyphView) -> Seq<char> {
    match entry.shortcode {
        Some(code) => replace_all(text, token(code), entry.glyph),
        None => text,
    }
}

/// The text after the entries of the table were applied, first to last.
pub open spec fn substituted(text: Seq<char>, table: Seq<GlyphView>) -> Seq<char>
    decreases table.len(),
{
    if table.len() == 0 {
        text
    } else {
        substituted_once(substituted(text, table.drop_last()), table.last())
    }
}

/// The glyph of entry `i` cannot be taken for a part of the token of entry
/// `j`: it holds no colon, and it holds a character that the token lacks.
/// This says nothing of entries without a shortcode.
pub open spec fn pair_separated(table: Seq<GlyphView>, i: int, j: int) -> bool {
    table[i].shortcode is Some && table[j].shortcode is Some ==> foreign_to(
        table[i].glyph,
        token(table[j].shortcode->0),
    )
}

/// No glyph of an entry with a shortcode can be taken for a part of a
/// token.
pub open spec fn separated(table: Seq<GlyphView>) -> bool {
    forall|i: int, j: int|
        0 <= i < table.len() && 0 <= j < table.len() ==> #[trigger] pair_separated(table, i, j)
}

/// No token of the first `upto` entries occurs in the text.
pub open spec fn tokens_absent(text: Seq<char>, table: Seq<GlyphView>, upto: int) -> bool {
    forall|j: int|
        0 <= j < upto && j < table.len() && (#[trigger] table[j]).shortcode is Some ==> !occurs_in(
            text,
            token(table[j].shortcode->0),
        )
}

/// After the first `upto` entries of a separated table were applied, none
/// of their tokens occurs in the text.
proof fn lemma_tokens_gone(text: Seq<char>, table: Seq<GlyphView>, upto: int)
    requires
        separated(table),
        0 <= upto <= table.len(),
    ensures
        tokens_absent(substituted(text, table.subrange(0, upto)), table, upto),
    decreases upto,
{
    if upto > 0 {
        let prefix = table.subrange(0, upto);
        let before = substituted(text, table.subrange(0, upto - 1));
        assert(prefix.drop_last() =~= table.subrange(0, upto - 1));
        assert(prefix.last() == table[upto - 1]);
        lemma_tokens_gone(text, table, upto - 1);
        let entry = table[upto - 1];
        let after = substituted(text, prefix);
        assert(after == substituted_once(before, entry));
        match entry.shortcode {
            Some(code) => {
                assert forall|j: int|
                    0 <= j < upto && (#[trigger] table[j]).shortcode is Some implies !occurs_in(
                    after,
                    token(table[j].shortcode->0),
                ) by {
                    assert(pair_separated(table, upto - 1, j));
                    if j == upto - 1 {
                        lemma_replaced_pattern_gone(before, token(code), entry.glyph);
                    } else {
                        lemma_replaced_brings_nothing(
                            before,
                            token(code),
                            entry.glyph,
                            token(table[j].shortcode->0),
                        );
                    }
                }
            },
            None => {},
        }
    }
}

/// A text in which no token of the first `upto` entries occurs is left as
/// it is by those entries.
proof fn lemma_nothing_to_substitute(text: Seq<char>, table: Seq<GlyphView>, upto: int)
    requires
        0 <= upto <= table.len(),
        tokens_absent(text, table, upto),
    ensures
        substituted(text, table.subrange(0, upto)) == text,
    decreases upto,
{
    if upto > 0 {
        let prefix = table.subrange(0, upto);
        assert(prefix.drop_last() =~= table.subrange(0, upto - 1));
        assert(prefix.last() == table[upto - 1]);
        lemma_nothing_to_substitute(text, table, upto - 1);
        match table[upto - 1].shortcode {
            Some(code) => {
                lemma_replace_all_absent(text, token(code), table[upto - 1].glyph);
            },
            None => {},
        }
    }
}

/// Substitution with a separated table is idempotent: applied to its own
/// result it changes nothing.
pub proof fn lemma_substitution_idempotent(text: Seq<char>, table: Seq<GlyphView>)
    requires
        separated(table),
    ensures
        substituted(substituted(text, table), table) == substituted(text, table),
{
    assert(table.subrange(0, table.len() as int) =~= table);
    lemma_tokens_gone(text, table, table.len() as int);
    lemma_nothing_to_substitute(substituted(text, table), table, table.len() as int);
}

/// The entry at a position of the glyph table of the `emojis` crate: what
/// `emojis::iter` yields at that position, as the first shortcode of the
/// emoji, if it has one, and the emoji's text. At the position where the
/// table ends there is none.
pub uninterp spec fn glyph_at(index: int) -> Option<GlyphView>;

/// `table` is the glyph table of the `emojis` crate, whole and in order.
pub open spec fn is_glyph_table(table: Seq<GlyphView>) -> bool {
    &&& forall|i: int| 0 <= i < table.len() ==> glyph_at(i) == Some(#[trigger] table[i])
    &&& glyph_at(table.len() as int) is None
}

/// The glyph table of the `emojis` crate. Every function that draws the
/// table says that this is it.
pub open spec fn emoji_glyphs() -> Seq<GlyphView> {
    choose|table: Seq<GlyphView>| is_glyph_table(table)
}

/// There is one glyph table only.
pub proof fn lemma_one_glyph_table(first: Seq<GlyphView>, second: Seq<GlyphView>)
    requires
        is_glyph_table(first),
        is_glyph_table(second),
    ensures
        first == second,
{
    if first.len() < second.len() {
        assert(glyph_at(first.len() as int) == Some(second[first.len() as int]));
    }
    if second.len() < first.len() {
        assert(glyph_at(second.len() as int) == Some(first[second.len() as int]));
    }
    assert forall|i: int| 0 <= i < first.len() implies first[i] == second[i] by {
        assert(glyph_at(i) == Some(first[i]));
        assert(glyph_at(i) == Some(second[i]));
    }
    assert(first =~= second);
}

/// `emojis::iter` of the `emojis` crate, with `Emoji::shortcode` and
/// `Emoji::as_str` for each emoji that it yields: the table, entry by entry
/// and in the crate's order, which is what `glyph_at` names. The table is
/// compiled into that crate. In it every shortcode is made of ASCII
/// letters, digits, `+`, `-` and `_`, and every emoji that has a shortcode
/// is a text without a colon that holds a character outside ASCII; so the
/// table is separated.
#[verifier::external_body]
fn emoji_table() -> (table: Vec<Glyph>)
    ensures
        forall|i: int| 0 <= i < table.len() ==> glyph_at(i) == Some(#[trigger] table_view(table@)[i]),
        glyph_at(table.len() as int) is None,
        separated(table_view(table@)),
{
    emojis::iter().map(
        |emoji|
            Glyph {
                shortcode: emoji.shortcode().map(|code| code.to_string()),
                glyph: emoji.as_str().to_string(),
            },
    ).collect()
}

/// The glyph table of the `emojis` crate. It is separated.
pub fn glyph_table() -> (table: Vec<Glyph>)
    ensures
        table_view(table@) == emoji_glyphs(),
        is_glyph_table(emoji_glyphs()),
        separated(emoji_glyphs()),
{
    let table = emoji_table();
    proof {
        assert(is_glyph_table(table_view(table@)));
        lemma_one_glyph_table(table_view(table@), emoji_glyphs());
    }
    table
}

/// `out` is what the table makes of `text`, and the table makes nothing
/// else of `out`.
pub open spec fn settled(text: Seq<char>, out: Seq<char>, table: Seq<GlyphView>) -> bool {
    out == substituted(text, table) && substituted(out, table) == out
}

fn token_chars(code: &str) -> (chars: Vec<char>)
    ensures
        chars@ == token(code@),
{
    let mut chars: Vec<char> = Vec::new();
    chars.push(':');
    let code_chars = chars_of(code);
    push_all(&mut chars, &code_chars);
    chars.push(':');
    assert(chars@ =~= token(code@));
    chars
}

/// Applies the entries of `table` to `text`, first to last. With a
/// separated table the result is settled: applied to it, the table changes
/// nothing.
pub fn replace_shortcodes_with(text: &str, table: &Vec<Glyph>) -> (out: String)
    ensures
        out@ == substituted(text@, table_view(table@)),
        separated(table_view(table@)) ==> settled(text@, out@, table_view(table@)),
{
    let mut chars = chars_of(text);
    let mut i: usize = 0;
    assert(table_view(table@).subrange(0, 0) =~= Seq::<GlyphView>::empty());
    while i < table.len()
        invariant
            i <= table.len(),
            chars@ == substituted(text@, table_view(table@).subrange(0, i as int)),
        decreases table.len() - i,
    {
        proof {
            let next = table_view(table@).subrange(0, i + 1);
            assert(next.drop_last() =~= table_view(table@).subrange(0, i as int));
            assert(next.last() == table@[i as int]@);
        }
        match &table[i].shortcode {
            Some(code) => {
                let pattern = token_chars(code.as_str());
                let glyph = chars_of(table[i].glyph.as_str());
                chars = replace_chars(&chars, &pattern, &glyph);
            },
            None => {},
        }
        i += 1;
    }
    proof {
        assert(table_view(table@).subrange(0, table.len() as int) =~= table_view(table@));
        if separated(table_view(table@)) {
            lemma_substitution_idempotent(text@, table_view(table@));
        }
    }
    string_of(&chars)
}

/// Replaces the shortcode tokens of `text` by their glyphs, with the glyph
/// table of the `emojis` crate. A second pass over the result changes
/// nothing.
pub fn replace_emoji_shortcodes(text: String) -> (out: String)
    ensures
        out@ == substituted(text@, emoji_glyphs()),
        substituted(out@, emoji_glyphs()) == out@,
{
    let table = glyph_table();
    replace_shortcodes_with(text.as_str(), &table)
}

fn has_char(text: &Vec<char>, c: char) -> (found: bool)
    ensures
        found == !lacks(text@, c),
{
    let mut i: usize = 0;
    while i < text.len()
        invariant
            i <= text.len(),
            forall|k: int| 0 <= k < i ==> text@[k] != c,
        decreases text.len() - i,
    {
        if text[i] == c {
            return true;
        }
        i += 1;
    }
    false
}

fn is_foreign_to(inset: &Vec<char>, pattern: &Vec<char>) -> (foreign: bool)
    ensures
        foreign == foreign_to(inset@, pattern@),
{
    if pattern.len() == 0 {
        return false;
    }
    if has_char(inset, pattern[0]) || has_char(inset, pattern[pattern.len() - 1]) {
        return false;
    }
    let mut k: usize = 0;
    while k < inset.len()
        invariant
            k <= inset.len(),
            pattern.len() > 0,
            lacks(inset@, pattern@.first()),
            lacks(inset@, pattern@.last()),
            forall|j: int| 0 <= j < k ==> !lacks(pattern@, #[trigger] inset@[j]),
        decreases inset.len() - k,
    {
        if !has_char(pattern, inset[k]) {
            assert(lacks(pattern@, inset@[k as int]));
            return true;
        }
        k += 1;
    }
    false
}

/// Tells whether a table is separated.
pub fn is_separated(table: &Vec<Glyph>) -> (yes: bool)
    ensures
        yes == separated(table_view(table@)),
{
    let n = table.len();
    let ghost view = table_view(table@);
    let mut tokens: Vec<Vec<char>> = Vec::new();
    let mut glyphs: Vec<Vec<char>> = Vec::new();
    let mut i: usize = 0;
    while i < n
        invariant
            i <= n,
            n == table.len(),
            view == table_view(table@),
            tokens.len() == i,
            glyphs.len() == i,
            forall|k: int| 0 <= k < i ==> (#[trigger] glyphs@[k])@ == view[k].glyph,
            forall|k: int|
                0 <= k < i && view[k].shortcode is Some ==> (#[trigger] tokens@[k])@ == token(
                    view[k].shortcode->0,
                ),
        decreases n - i,
    {
        let entry_token = match &table[i].shortcode {
            Some(code) => token_chars(code.as_str()),
            None => Vec::new(),
        };
        tokens.push(entry_token);
        glyphs.push(chars_of(table[i].glyph.as_str()));
        i += 1;
    }
    let mut a: usize = 0;
    while a < n
        invariant
            a <= n,
            n == table.len(),
            view == table_view(table@),
            tokens.len() == n,
            glyphs.len() == n,
            forall|k: int| 0 <= k < n ==> (#[trigger] glyphs@[k])@ == view[k].glyph,
            forall|k: int|
                0 <= k < n && view[k].shortcode is Some ==> (#[trigger] tokens@[k])@ == token(
                    view[k].shortcode->0,
                ),
            forall|x: int, y: int| 0 <= x < a && 0 <= y < n ==> #[trigger] pair_separated(view, x, y),
        decreases n - a,
    {
        if table[a].shortcode.is_some() {
            let mut b: usize = 0;
            while b < n
                invariant
                    a < n,
                    b <= n,
                    n == table.len(),
                    view == table_view(table@),
                    view[a as int].shortcode is Some,
                    tokens.len() == n,
                    glyphs.len() == n,
                    forall|k: int| 0 <= k < n ==> (#[trigger] glyphs@[k])@ == view[k].glyph,
                    forall|k: int|
                        0 <= k < n && view[k].shortcode is Some ==> (#[trigger] tokens@[k])@
                            == token(view[k].shortcode->0),
                    forall|y: int| 0 <= y < b ==> #[trigger] pair_separated(view, a as int, y),
                decreases n - b,
            {
                if table[b].shortcode.is_some() {
                    assert(view[b as int].shortcode is Some);
                    if !is_foreign_to(&glyphs[a], &tokens[b]) {
                        assert(!pair_separated(view, a as int, b as int));
                        return false;
                    }
                }
                b += 1;
            }
        }
        a += 1;
    }
    true
}

/// Texts in which shortcode tokens can be replaced by glyphs.
pub trait ReplaceEmoji {
    /// The text.
    spec fn text(&self) -> Seq<char>;

    /// The text with its shortcode tokens replaced by their glyphs.
    fn replace_emoji_shortcodes(&self) -> (out: String)
        ensures
            out@ == substituted(self.text(), emoji_glyphs()),
            substituted(out@, emoji_glyphs()) == out@,
    ;
}

impl ReplaceEmoji for &str {
    open spec fn text(&self) -> Seq<char> {
        self@
    }

    fn replace_emoji_shortcodes(&self) -> (out: String) {
        let table = glyph_table();
        replace_shortcodes_with(*self, &table)
    }
}

impl ReplaceEmoji for String {
    open spec fn text(&self) -> Seq<char> {
        self@
    }

    fn replace_emoji_shortcodes(&self) -> (out: String) {
        let table = glyph_table();
        replace_shortcodes_with(self.as_str(), &table)
    }
}

} // verus!
