//! Removal of Unicode tag characters, which can hide a payload inside text
//! that looks harmless when displayed.

use vstd::prelude::*;

verus! {

/// First code point of the Unicode tag block.
pub const TAG_BLOCK_FIRST: u32 = 0xE0000;

/// Last code point of the Unicode tag block.
pub const TAG_BLOCK_LAST: u32 = 0xE007F;

/// Whether `c` lies in the Unicode tag block.
pub open spec fn is_tag_char(c: char) -> bool {
    TAG_BLOCK_FIRST <= c as int <= TAG_BLOCK_LAST
}

/// `text` without its tag characters; everything else stays, in order.
pub open spec fn strip_tags(text: Seq<char>) -> Seq<char> {
    text.filter(|c: char| !is_tag_char(c))
}

/// Decides whether `c` is a tag character.
pub fn is_tag(c: char) -> (r: bool)
    ensures
        r == is_tag_char(c),
{
    let n: u32 = c as u32;
    TAG_BLOCK_FIRST <= n && n <= TAG_BLOCK_LAST
}

/// Removes every tag character from `text` and keeps every other code
/// point unchanged and in its place.
pub fn sanitize_unicode_tags(text: &str) -> (out: String)
    ensures
        out@ == strip_tags(text@),
{
    let mut out = String::new();
    proof {
        lemma_strip_tags_empty();
    }
    for c in it: text.chars()
        invariant
            it.seq() == text@,
            out@ == strip_tags(text@.take(it.index())),
    {
        proof {
            lemma_strip_tags_step(text@, it.index());
        }
        if !is_tag(c) {
            out.push(c);
        }
    }
    assert(text@.take(text@.len() as int) == text@);
    out
}

/// Nothing remains of the empty text.
pub proof fn lemma_strip_tags_empty()
    ensures
        strip_tags(Seq::<char>::empty()) == Seq::<char>::empty(),
{
    reveal(Seq::filter);
}

/// Reading one more code point appends it to the result unless it is a tag.
pub proof fn lemma_strip_tags_step(text: Seq<char>, i: int)
    requires
        0 <= i < text.len(),
    ensures
        strip_tags(text.take(i + 1)) == if is_tag_char(text[i]) {
            strip_tags(text.take(i))
        } else {
            strip_tags(text.take(i)).push(text[i])
        },
{
    text.lemma_take_succ_push(i);
    text.take(i).lemma_filter_push(text[i], |c: char| !is_tag_char(c));
}

/// Whether no code point of `text` is a tag character.
pub open spec fn tag_free(text: Seq<char>) -> bool {
    forall|i: int| 0 <= i < text.len() ==> !is_tag_char(#[trigger] text[i])
}

/// Whether every code point of `text` is a tag character.
pub open spec fn all_tags(text: Seq<char>) -> bool {
    forall|i: int| 0 <= i < text.len() ==> is_tag_char(#[trigger] text[i])
}

/// The result holds no tag character.
pub proof fn lemma_strip_tags_is_tag_free(text: Seq<char>)
    ensures
        tag_free(strip_tags(text)),
{
    let keep = |c: char| !is_tag_char(c);
    assert forall|i: int| 0 <= i < strip_tags(text).len() implies !is_tag_char(
        #[trigger] strip_tags(text)[i],
    ) by {
        text.lemma_filter_pred(keep, i);
        assert(keep(text.filter(keep)[i]));
    }
}

/// Text without tag characters passes unchanged.
pub proof fn lemma_strip_tags_of_tag_free(text: Seq<char>)
    requires
        tag_free(text),
    ensures
        strip_tags(text) == text,
    decreases text.len(),
{
    reveal(Seq::filter);
    if text.len() > 0 {
        assert(tag_free(text.drop_last())) by {
            assert forall|i: int| 0 <= i < text.drop_last().len() implies !is_tag_char(
                #[trigger] text.drop_last()[i],
            ) by {
                assert(text.drop_last()[i] == text[i]);
            }
        }
        lemma_strip_tags_of_tag_free(text.drop_last());
        assert(!is_tag_char(text[text.len() - 1]));
        assert(text.drop_last().push(text.last()) =~= text);
    }
}

/// Nothing remains of text that consists of tag characters.
pub proof fn lemma_strip_tags_of_tags(text: Seq<char>)
    requires
        all_tags(text),
    ensures
        strip_tags(text) == Seq::<char>::empty(),
    decreases text.len(),
{
    reveal(Seq::filter);
    if text.len() > 0 {
        assert(all_tags(text.drop_last())) by {
            assert forall|i: int| 0 <= i < text.drop_last().len() implies is_tag_char(
                #[trigger] text.drop_last()[i],
            ) by {
                assert(text.drop_last()[i] == text[i]);
            }
        }
        lemma_strip_tags_of_tags(text.drop_last());
        assert(is_tag_char(text[text.len() - 1]));
    }
}

/// Sanitizing twice is sanitizing once.
pub proof fn lemma_strip_tags_idempotent(text: Seq<char>)
    ensures
        strip_tags(strip_tags(text)) == strip_tags(text),
{
    lemma_strip_tags_is_tag_free(text);
    lemma_strip_tags_of_tag_free(strip_tags(text));
}

/// Sanitizing works piece by piece.
pub proof fn lemma_strip_tags_concat(a: Seq<char>, b: Seq<char>)
    ensures
        strip_tags(a + b) == strip_tags(a) + strip_tags(b),
{
    Seq::filter_distributes_over_add(a, b, |c: char| !is_tag_char(c));
}

/// A run of tag characters embedded anywhere in otherwise clean text
/// disappears, and the text around it stays as it is.
pub proof fn lemma_strip_tags_embedded(before: Seq<char>, tags: Seq<char>, after: Seq<char>)
    requires
        tag_free(before),
        all_tags(tags),
        tag_free(after),
    ensures
        strip_tags(before + tags + after) == before + after,
{
    lemma_strip_tags_concat(before + tags, after);
    lemma_strip_tags_concat(before, tags);
    lemma_strip_tags_of_tag_free(before);
    lemma_strip_tags_of_tags(tags);
    lemma_strip_tags_of_tag_free(after);
    assert(before + Seq::<char>::empty() =~= before);
}

/// A tag character embedded anywhere in any text disappears, and the text
/// on both sides is sanitized as it would be alone.
pub proof fn lemma_strip_tags_drops_tag(before: Seq<char>, tag: char, after: Seq<char>)
    requires
        is_tag_char(tag),
    ensures
        strip_tags(before.push(tag) + after) == strip_tags(before) + strip_tags(after),
{
    lemma_strip_tags_concat(before.push(tag), after);
    before.lemma_filter_push(tag, |c: char| !is_tag_char(c));
}

} // verus!
