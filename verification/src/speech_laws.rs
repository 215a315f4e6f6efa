//! What holds of cleaned text: it carries no parenthesis and no whitespace
//! behind it, so that cleaning it again can only trim its front and remove
//! more repeats.

use crate::speech::{
    cleaned, collapsed, deduplicated, effects_replaced, first_long_prefix, first_space,
    in_parentheses, is_ascii_space, merged, same_token_repeated, tokens, trim_end, trim_start,
    trimmed,
};
use vstd::prelude::*;

verus! {

/// No character of `s` is a parenthesis.
pub open spec fn no_parentheses(s: Seq<char>) -> bool {
    forall|k: int| 0 <= k < s.len() ==> #[trigger] s[k] != '(' && s[k] != ')'
}

/// `s` neither begins nor ends with ASCII whitespace.
pub open spec fn is_trim(s: Seq<char>) -> bool {
    s.len() == 0 || (!is_ascii_space(s.first()) && !is_ascii_space(s.last()))
}

/// `s` does not end with ASCII whitespace.
pub open spec fn ends_clean(s: Seq<char>) -> bool {
    s.len() == 0 || !is_ascii_space(s.last())
}

/// `part` is what is left of `whole` when some of its front is taken off.
pub open spec fn is_end_of(part: Seq<char>, whole: Seq<char>) -> bool {
    exists|off: int| 0 <= off <= whole.len() && part == #[trigger] whole.skip(off)
}

/// Replacing the parenthesised regions leaves no parenthesis.
pub proof fn lemma_replaced_has_no_parentheses(s: Seq<char>)
    ensures
        no_parentheses(effects_replaced(s)),
    decreases s.len(),
{
    if s.len() > 0 {
        lemma_replaced_has_no_parentheses(s.drop_last());
    }
}

/// A text without parentheses has no region to replace.
pub proof fn lemma_no_parentheses_unchanged(s: Seq<char>)
    requires
        no_parentheses(s),
    ensures
        effects_replaced(s) == s,
        !in_parentheses(s),
    decreases s.len(),
{
    if s.len() > 0 {
        let front = s.drop_last();
        assert forall|k: int| 0 <= k < front.len() implies #[trigger] front[k] != '(' && front[k]
            != ')' by {
            assert(front[k] == s[k]);
        }
        lemma_no_parentheses_unchanged(front);
        assert(s.last() == s[s.len() - 1]);
        assert(front.push(s.last()) =~= s);
    } else {
        assert(effects_replaced(s) =~= s);
    }
}

proof fn lemma_trim_start_shape(s: Seq<char>)
    ensures
        exists|lo: int|
            0 <= lo <= s.len() && trim_start(s) == #[trigger] s.skip(lo) && (lo < s.len()
                ==> !is_ascii_space(s[lo])),
    decreases s.len(),
{
    if s.len() > 0 && is_ascii_space(s.first()) {
        let rest = s.drop_first();
        lemma_trim_start_shape(rest);
        let lo = choose|lo: int|
            0 <= lo <= rest.len() && trim_start(rest) == #[trigger] rest.skip(lo) && (lo
                < rest.len() ==> !is_ascii_space(rest[lo]));
        assert(rest.skip(lo) =~= s.skip(lo + 1));
    } else {
        assert(s.skip(0) =~= s);
    }
}

proof fn lemma_trim_end_shape(s: Seq<char>)
    ensures
        exists|hi: int|
            0 <= hi <= s.len() && trim_end(s) == #[trigger] s.take(hi) && (hi > 0
                ==> !is_ascii_space(s[hi - 1])),
    decreases s.len(),
{
    if s.len() > 0 && is_ascii_space(s.last()) {
        let front = s.drop_last();
        lemma_trim_end_shape(front);
        let hi = choose|hi: int|
            0 <= hi <= front.len() && trim_end(front) == #[trigger] front.take(hi) && (hi > 0
                ==> !is_ascii_space(front[hi - 1]));
        assert(front.take(hi) =~= s.take(hi));
    } else {
        assert(s.take(s.len() as int) =~= s);
    }
}

/// Trimming cuts a stretch out of the text that neither begins nor ends
/// with whitespace.
pub proof fn lemma_trimmed_shape(s: Seq<char>)
    ensures
        is_trim(trimmed(s)),
        exists|lo: int, hi: int|
            0 <= lo <= hi <= s.len() && trimmed(s) == #[trigger] s.subrange(lo, hi),
{
    lemma_trim_start_shape(s);
    let lo = choose|lo: int|
        0 <= lo <= s.len() && trim_start(s) == #[trigger] s.skip(lo) && (lo < s.len()
            ==> !is_ascii_space(s[lo]));
    let front = s.skip(lo);
    lemma_trim_end_shape(front);
    let n = choose|hi: int|
        0 <= hi <= front.len() && trim_end(front) == #[trigger] front.take(hi) && (hi > 0
            ==> !is_ascii_space(front[hi - 1]));
    assert(front.take(n) =~= s.subrange(lo, lo + n));
}

proof fn lemma_first_space_bound(s: Seq<char>)
    ensures
        first_space(s) <= s.len(),
        forall|k: int| 0 <= k < first_space(s) ==> s[k] != ' ',
    decreases s.len(),
{
    if !(s.len() == 0 || s.first() == ' ') {
        let rest = s.drop_first();
        lemma_first_space_bound(rest);
        assert forall|k: int| 0 <= k < first_space(s) implies s[k] != ' ' by {
            if k > 0 {
                assert(rest[k - 1] == s[k]);
            }
        }
    }
}

/// The last piece of a text is the end of the text.
proof fn lemma_last_token_is_suffix(s: Seq<char>)
    ensures
        tokens(s).len() >= 1,
        tokens(s).last().len() <= s.len(),
        tokens(s).last() == s.skip(s.len() - tokens(s).last().len()),
    decreases s.len(),
{
    lemma_first_space_bound(s);
    let at = first_space(s) as int;
    if at >= s.len() {
        assert(s.skip(0) =~= s);
    } else {
        let rest = s.skip(at + 1);
        lemma_last_token_is_suffix(rest);
        let last = tokens(rest).last();
        assert(tokens(s).last() == last);
        assert(rest.skip(rest.len() - last.len()) =~= s.skip(s.len() - last.len()));
    }
}

proof fn lemma_collapsed_is_end(whole: Seq<char>, text: Seq<char>, p: Seq<char>)
    requires
        is_end_of(text, whole),
    ensures
        is_end_of(collapsed(text, p), whole),
    decreases text.len(),
{
    if p.len() > 0 && (p + p).is_prefix_of(text) {
        let off = choose|off: int| 0 <= off <= whole.len() && text == #[trigger] whole.skip(off);
        let next = text.skip(2 * p.len() as int);
        assert(next =~= whole.skip(off + 2 * p.len()));
        lemma_collapsed_is_end(whole, next, p);
    }
}

/// Taking the doubled beginning off a text leaves an end of the text.
pub proof fn lemma_deduplicated_is_end(s: Seq<char>)
    ensures
        is_end_of(deduplicated(s), s),
{
    assert(s.skip(0) =~= s);
    match first_long_prefix(s, 0) {
        Some(n) => {
            lemma_collapsed_is_end(s, s, s.take(n as int));
        },
        None => {},
    }
}

/// Removing repeats from a text without parentheses that does not end with
/// whitespace leaves such a text.
pub proof fn lemma_merged_keeps_shape(s: Seq<char>)
    requires
        no_parentheses(s),
        ends_clean(s),
    ensures
        no_parentheses(merged(s)),
        ends_clean(merged(s)),
{
    if same_token_repeated(s) {
        lemma_first_space_bound(s);
        lemma_last_token_is_suffix(s);
        let word = tokens(s)[0];
        let at = first_space(s) as int;
        assert(word == s.take(at));
        assert(tokens(s).last() == word);
        assert forall|k: int| 0 <= k < word.len() implies #[trigger] word[k] != '(' && word[k]
            != ')' by {
            assert(word[k] == s[k]);
        }
        if word.len() > 0 {
            assert(word.last() == s.skip(s.len() - word.len())[word.len() - 1]);
            assert(word.last() == s.last());
        }
    } else {
        lemma_deduplicated_is_end(s);
        let left = merged(s);
        let off = choose|off: int| 0 <= off <= s.len() && left == #[trigger] s.skip(off);
        assert forall|k: int| 0 <= k < left.len() implies #[trigger] left[k] != '(' && left[k]
            != ')' by {
            assert(left[k] == s[off + k]);
        }
        if left.len() > 0 {
            assert(left.last() == s.last());
        }
    }
}

/// A cleaned text carries no parenthesis and does not end with whitespace.
/// It may begin with whitespace: what stood behind a doubled beginning.
pub proof fn lemma_cleaned_shape(x: Seq<char>)
    ensures
        no_parentheses(cleaned(x)),
        ends_clean(cleaned(x)),
{
    let replaced = effects_replaced(x);
    lemma_replaced_has_no_parentheses(x);
    lemma_trimmed_shape(replaced);
    let t = trimmed(replaced);
    let (lo, hi) = choose|lo: int, hi: int|
        0 <= lo <= hi <= replaced.len() && t == #[trigger] replaced.subrange(lo, hi);
    assert forall|k: int| 0 <= k < t.len() implies #[trigger] t[k] != '(' && t[k] != ')' by {
        assert(t[k] == replaced[lo + k]);
    }
    lemma_merged_keeps_shape(t);
}

/// Cleaning a cleaned text trims its front and removes repeats from what is
/// left: there is no parenthesised region to replace and no whitespace
/// behind it to trim.
pub proof fn lemma_clean_again(x: Seq<char>)
    ensures
        cleaned(cleaned(x)) == merged(trim_start(cleaned(x))),
{
    let c = cleaned(x);
    lemma_cleaned_shape(x);
    lemma_no_parentheses_unchanged(c);
    lemma_trim_start_shape(c);
    let lo = choose|lo: int|
        0 <= lo <= c.len() && trim_start(c) == #[trigger] c.skip(lo) && (lo < c.len()
            ==> !is_ascii_space(c[lo]));
    if lo < c.len() {
        assert(c.skip(lo).last() == c.last());
    }
}

/// Cleaning is idempotent on every text whose cleaned form has no
/// whitespace in front and holds no repeat that a second pass would remove.
pub proof fn lemma_clean_idempotent(x: Seq<char>)
    requires
        merged(trim_start(cleaned(x))) == cleaned(x),
    ensures
        cleaned(cleaned(x)) == cleaned(x),
{
    lemma_clean_again(x);
}

} // verus!
