//! Transcript text: cleaning what the recogniser returns for a segment and
//! choosing which of it is shown.

use crate::ring::Sample;
use crate::text::{chars_of, same_chars, string_of};
use vstd::prelude::*;

verus! {

/// Whether the end of `s` lies inside a parenthesised region: the last
/// parenthesis in `s`, if there is one, is an opening one.
pub open spec fn in_parentheses(s: Seq<char>) -> bool
    decreases s.len(),
{
    if s.len() == 0 {
        false
    } else if s.last() == '(' {
        true
    } else if s.last() == ')' {
        false
    } else {
        in_parentheses(s.drop_last())
    }
}

/// `s` without its parenthesised regions. An opening parenthesis starts a
/// region and is dropped with what follows it; a closing parenthesis ends
/// the region, if one is open, and leaves one space.
pub open spec fn effects_replaced(s: Seq<char>) -> Seq<char>
    decreases s.len(),
{
    if s.len() == 0 {
        Seq::empty()
    } else {
        let front = s.drop_last();
        let c = s.last();
        if c == '(' {
            effects_replaced(front)
        } else if c == ')' {
            effects_replaced(front).push(' ')
        } else if in_parentheses(front) {
            effects_replaced(front)
        } else {
            effects_replaced(front).push(c)
        }
    }
}

/// Space, tab, line feed, form feed or carriage return.
pub open spec fn is_ascii_space(c: char) -> bool {
    c == ' ' || c == '\t' || c == '\n' || c == '\x0C' || c == '\r'
}

/// `s` without the ASCII whitespace in front of it.
pub open spec fn trim_start(s: Seq<char>) -> Seq<char>
    decreases s.len(),
{
    if s.len() > 0 && is_ascii_space(s.first()) {
        trim_start(s.drop_first())
    } else {
        s
    }
}

/// `s` without the ASCII whitespace behind it.
pub open spec fn trim_end(s: Seq<char>) -> Seq<char>
    decreases s.len(),
{
    if s.len() > 0 && is_ascii_space(s.last()) {
        trim_end(s.drop_last())
    } else {
        s
    }
}

/// `s` without the ASCII whitespace around it.
pub open spec fn trimmed(s: Seq<char>) -> Seq<char> {
    trim_end(trim_start(s))
}

/// Index of the first space in `s`, or the length of `s` if it has none.
pub open spec fn first_space(s: Seq<char>) -> nat
    decreases s.len(),
{
    if s.len() == 0 || s.first() == ' ' {
        0
    } else {
        1 + first_space(s.drop_first())
    }
}

/// The pieces into which the spaces of `s` cut it. Each space cuts, so two
/// spaces in a row have an empty piece between them, and there is always at
/// least one piece.
pub open spec fn tokens(s: Seq<char>) -> Seq<Seq<char>>
    decreases s.len(),
{
    let at = first_space(s) as int;
    if at >= s.len() {
        seq![s]
    } else {
        seq![s.take(at)] + tokens(s.skip(at + 1))
    }
}

/// `s` is one word said two or more times with single spaces between.
pub open spec fn same_token_repeated(s: Seq<char>) -> bool {
    let pieces = tokens(s);
    pieces.len() >= 2 && forall|k: int| 0 <= k < pieces.len() ==> #[trigger] pieces[k] == pieces[0]
}

/// Bytes that `c` takes in UTF-8.
pub open spec fn utf8_width(c: char) -> nat {
    if (c as u32) < 0x80 {
        1
    } else if (c as u32) < 0x800 {
        2
    } else if (c as u32) < 0x1_0000 {
        3
    } else {
        4
    }
}

/// Bytes that `s` takes in UTF-8.
pub open spec fn byte_len(s: Seq<char>) -> nat
    decreases s.len(),
{
    if s.len() == 0 {
        0
    } else {
        byte_len(s.drop_last()) + utf8_width(s.last())
    }
}

/// The length, in characters, of the shortest beginning of `s` that takes
/// more than four bytes, looked for among the beginnings of `n` characters
/// and more; `None` if `s` has no such beginning.
pub open spec fn first_long_prefix(s: Seq<char>, n: nat) -> Option<nat>
    decreases s.len() - n,
{
    if n > s.len() {
        None
    } else if byte_len(s.take(n as int)) > 4 {
        Some(n)
    } else if n == s.len() {
        None
    } else {
        first_long_prefix(s, n + 1)
    }
}

/// `text` after `p` twice over has been taken from its front for as long
/// as it began with `p` twice over.
pub open spec fn collapsed(text: Seq<char>, p: Seq<char>) -> Seq<char>
    decreases text.len(),
{
    if p.len() > 0 && (p + p).is_prefix_of(text) {
        collapsed(text.skip(2 * p.len() as int), p)
    } else {
        text
    }
}

/// `s` without the doubled beginning in front of it. The beginning that is
/// tried is the shortest one that takes more than four bytes, and it is
/// tried only if its last character stands no further in than half the
/// byte length of `s`; otherwise, and if `s` has no such beginning, `s` is
/// left as it is.
pub open spec fn deduplicated(s: Seq<char>) -> Seq<char> {
    match first_long_prefix(s, 0) {
        Some(n) => if n - 1 <= byte_len(s) / 2 {
            collapsed(s, s.take(n as int))
        } else {
            s
        },
        None => s,
    }
}

/// `s` with repeated content removed: a word said over and over becomes the
/// word; otherwise a beginning that is said twice over is removed.
pub open spec fn merged(s: Seq<char>) -> Seq<char> {
    if same_token_repeated(s) {
        tokens(s)[0]
    } else {
        deduplicated(s)
    }
}

/// The text that is shown for what the recogniser returned.
pub open spec fn cleaned(s: Seq<char>) -> Seq<char> {
    merged(trimmed(effects_replaced(s)))
}

/// How the recogniser is to be run.
pub struct SpeechConfig<'a> {
    /// Threads it may use.
    pub threads: i32,
    /// The language spoken, as a code; `None` leaves it to the recogniser.
    pub lang: Option<&'a str>,
}

impl<'a> Default for SpeechConfig<'a> {
    fn default() -> (config: Self)
        ensures
            config.threads == 4,
            config.lang matches Some(lang) && lang@ == "en"@,
    {
        SpeechConfig { threads: 4, lang: Some("en") }
    }
}

impl<'a> SpeechConfig<'a> {
    pub fn new(threads: i32, lang: Option<&'a str>) -> (config: SpeechConfig<'a>)
        ensures
            config.threads == threads,
            config.lang == lang,
    {
        SpeechConfig { threads, lang }
    }
}

/// One segment of audio with the configuration to recognise it under.
pub struct WhisperPayload<'a> {
    audio_data: &'a [Sample],
    config: SpeechConfig<'a>,
}

impl<'a> WhisperPayload<'a> {
    /// The samples that are to be recognised.
    pub closed spec fn samples(&self) -> Seq<Sample> {
        self.audio_data@
    }

    /// The configuration.
    pub closed spec fn settings(&self) -> SpeechConfig<'a> {
        self.config
    }

    pub fn new(audio_data: &'a Vec<Sample>, config: SpeechConfig<'a>) -> (payload: WhisperPayload<
        'a,
    >)
        ensures
            payload.samples() == audio_data@,
            payload.settings() == config,
    {
        WhisperPayload { audio_data: audio_data.as_slice(), config }
    }

    pub fn audio_data(&self) -> (samples: &'a [Sample])
        ensures
            samples@ == self.samples(),
    {
        self.audio_data
    }

    pub fn config(&self) -> (config: &SpeechConfig<'a>)
        ensures
            *config == self.settings(),
    {
        &self.config
    }
}

/// A piece of text with the time at which it starts, in milliseconds.
pub struct TimedText {
    pub text: String,
    pub start: i64,
}

impl View for TimedText {
    type V = (Seq<char>, int);

    open spec fn view(&self) -> (Seq<char>, int) {
        (self.text@, self.start as int)
    }
}

/// The pieces as text and time.
pub open spec fn views(pieces: Seq<TimedText>) -> Seq<(Seq<char>, int)> {
    Seq::new(pieces.len(), |i: int| pieces[i]@)
}

/// The text of the piece before the last one, as the recogniser gave it;
/// empty if the last piece is the first.
pub open spec fn previous_raw(pieces: Seq<(Seq<char>, int)>) -> Seq<char> {
    if pieces.len() >= 2 {
        pieces[pieces.len() - 2].0
    } else {
        Seq::empty()
    }
}

/// Whether the last of `pieces` is shown: its cleaned text is not empty and
/// is not the text that the recogniser gave for the piece before it.
pub open spec fn last_is_shown(pieces: Seq<(Seq<char>, int)>) -> bool {
    let text = cleaned(pieces.last().0);
    text.len() > 0 && text != previous_raw(pieces)
}

/// What is shown of the pieces that the recogniser returned for one
/// segment: each piece that is shown, cleaned, with its start.
pub open spec fn shown(pieces: Seq<(Seq<char>, int)>) -> Seq<(Seq<char>, int)>
    decreases pieces.len(),
{
    if pieces.len() == 0 {
        Seq::empty()
    } else if last_is_shown(pieces) {
        shown(pieces.drop_last()).push((cleaned(pieces.last().0), pieces.last().1))
    } else {
        shown(pieces.drop_last())
    }
}

/// Replaces each parenthesised region of `input`, such as the note of a
/// sound, by one space.
pub fn replace_effect_segment_to_space(input: &str) -> (result: String)
    ensures
        result@ == effects_replaced(input@),
{
    let mut result = String::new();
    let mut inside = false;
    for c in it: input.chars()
        invariant
            it.seq() == input@,
            result@ == effects_replaced(input@.take(it.index() as int)),
            inside == in_parentheses(input@.take(it.index() as int)),
    {
        proof {
            let read = input@.take(it.index() + 1);
            assert(read.drop_last() =~= input@.take(it.index() as int));
            assert(read.last() == c);
        }
        if c == '(' {
            inside = true;
        } else if c == ')' {
            inside = false;
            result.push(' ');
        } else if !inside {
            result.push(c);
        }
    }
    assert(input@.take(input@.len() as int) =~= input@);
    result
}

fn is_space(c: char) -> (space: bool)
    ensures
        space == is_ascii_space(c),
{
    c == ' ' || c == '\t' || c == '\n' || c == '\x0C' || c == '\r'
}

/// Where `s` without the whitespace around it begins and ends.
fn trim_bounds(s: &Vec<char>) -> (bounds: (usize, usize))
    ensures
        bounds.0 <= bounds.1 <= s@.len(),
        s@.subrange(bounds.0 as int, bounds.1 as int) == trimmed(s@),
{
    let mut lo: usize = 0;
    assert(s@.skip(0) =~= s@);
    while lo < s.len() && is_space(s[lo])
        invariant
            lo <= s@.len(),
            trim_start(s@) == trim_start(s@.skip(lo as int)),
        decreases s@.len() - lo,
    {
        assert(s@.skip(lo as int).drop_first() =~= s@.skip(lo + 1));
        lo += 1;
    }
    assert(trim_start(s@) == s@.skip(lo as int));
    let mut hi: usize = s.len();
    assert(s@.subrange(lo as int, hi as int) =~= s@.skip(lo as int));
    while hi > lo && is_space(s[hi - 1])
        invariant
            lo <= hi <= s@.len(),
            trimmed(s@) == trim_end(s@.subrange(lo as int, hi as int)),
        decreases hi,
    {
        assert(s@.subrange(lo as int, hi as int).drop_last() =~= s@.subrange(
            lo as int,
            hi - 1,
        ));
        hi -= 1;
    }
    (lo, hi)
}

proof fn lemma_first_space(s: Seq<char>, at: int)
    requires
        0 <= at <= s.len(),
        forall|k: int| 0 <= k < at ==> s[k] != ' ',
        at == s.len() || s[at] == ' ',
    ensures
        first_space(s) == at,
    decreases at,
{
    if at > 0 {
        lemma_first_space(s.drop_first(), at - 1);
    }
}

/// Where the first space at or behind `from` stands.
fn first_space_from(s: &Vec<char>, from: usize) -> (at: usize)
    requires
        from <= s@.len(),
    ensures
        from <= at <= s@.len(),
        at - from == first_space(s@.skip(from as int)),
{
    let mut at: usize = from;
    while at < s.len() && s[at] != ' '
        invariant
            from <= at <= s@.len(),
            forall|k: int| from <= k < at ==> s@[k] != ' ',
        decreases s@.len() - at,
    {
        at += 1;
    }
    proof {
        lemma_first_space(s@.skip(from as int), at - from);
    }
    at
}

/// The length of the first piece of `s`, if `s` is that piece said two or
/// more times.
fn repeated_token(s: &Vec<char>) -> (first: Option<usize>)
    ensures
        first.is_some() == same_token_repeated(s@),
        first matches Some(f) ==> f <= s@.len() && tokens(s@)[0] == s@.take(f as int),
{
    let n = s.len();
    assert(s@.skip(0) =~= s@);
    let f = first_space_from(s, 0);
    if f == n {
        return None;
    }
    let ghost word = s@.take(f as int);
    let ghost mut done: Seq<Seq<char>> = seq![word];
    let mut p: usize = f + 1;
    loop
        invariant
            n == s@.len(),
            f < p <= n,
            word == s@.take(f as int),
            done.len() >= 1,
            forall|k: int| 0 <= k < done.len() ==> done[k] == word,
            tokens(s@) == done + tokens(s@.skip(p as int)),
        decreases n - p,
    {
        let q = first_space_from(s, p);
        let ghost rest = s@.skip(p as int);
        proof {
            assert(rest.take(q - p) =~= s@.subrange(p as int, q as int));
            assert(s@.subrange(0, f as int) =~= word);
        }
        if !same_chars(s, 0, f, s, p, q) {
            assert(tokens(s@)[done.len() as int] == tokens(rest)[0]);
            assert(tokens(s@)[0] == word);
            return None;
        }
        if q == n {
            assert(rest =~= s@.subrange(p as int, q as int));
            assert(tokens(s@) =~= done.push(word));
            return Some(f);
        }
        proof {
            assert(rest.skip(q - p + 1) =~= s@.skip(q + 1));
            assert(done + (seq![word] + tokens(s@.skip(q + 1))) =~= done.push(word) + tokens(
                s@.skip(q + 1),
            ));
            done = done.push(word);
        }
        p = q + 1;
    }
}

fn width(c: char) -> (w: u128)
    ensures
        w == utf8_width(c),
{
    let code: u32 = c as u32;
    if code < 0x80 {
        1
    } else if code < 0x800 {
        2
    } else if code < 0x1_0000 {
        3
    } else {
        4
    }
}

fn byte_count(s: &Vec<char>) -> (bytes: u128)
    ensures
        bytes == byte_len(s@),
{
    let mut bytes: u128 = 0;
    let mut i: usize = 0;
    while i < s.len()
        invariant
            i <= s@.len(),
            bytes == byte_len(s@.take(i as int)),
            bytes <= 4 * i,
        decreases s@.len() - i,
    {
        assert(s@.take(i + 1).drop_last() =~= s@.take(i as int));
        bytes += width(s[i]);
        i += 1;
    }
    assert(s@.take(i as int) =~= s@);
    bytes
}

/// Whether the text that begins at `off` begins with the first `plen`
/// characters of `s` twice over.
fn begins_twice(s: &Vec<char>, off: usize, plen: usize) -> (twice: bool)
    requires
        off <= s@.len(),
        0 < plen <= s@.len(),
    ensures
        twice == (s@.take(plen as int) + s@.take(plen as int)).is_prefix_of(s@.skip(off as int)),
        twice ==> off + 2 * plen <= s@.len(),
{
    let ghost p = s@.take(plen as int);
    let ghost text = s@.skip(off as int);
    let n = s.len();
    if plen > (n - off) / 2 {
        return false;
    }
    let mut j: usize = 0;
    while j < plen
        invariant
            n == s@.len(),
            j <= plen,
            0 < plen,
            off + 2 * plen <= s@.len(),
            p == s@.take(plen as int),
            text == s@.skip(off as int),
            forall|k: int| 0 <= k < j ==> text[k] == p[k] && text[plen + k] == p[k],
        decreases plen - j,
    {
        if s[off + j] != s[j] || s[off + plen + j] != s[j] {
            assert(text[j as int] != (p + p)[j as int] || text[plen + j] != (p + p)[plen + j]);
            return false;
        }
        j += 1;
    }
    assert((p + p) =~= text.subrange(0, (p + p).len() as int));
    true
}

/// Where the text that is left of `s`, once its doubled beginning has been
/// taken off, begins.
fn deduplicated_offset(s: &Vec<char>) -> (off: usize)
    ensures
        off <= s@.len(),
        s@.skip(off as int) == deduplicated(s@),
{
    let n = s.len();
    let half: u128 = byte_count(s) / 2;
    let mut plen: usize = 0;
    let mut bytes: u128 = 0;
    assert(s@.skip(0) =~= s@);
    assert(s@.take(0) =~= Seq::<char>::empty());
    while plen < n && bytes <= 4
        invariant
            n == s@.len(),
            plen <= n,
            bytes == byte_len(s@.take(plen as int)),
            bytes <= 4 * plen,
            first_long_prefix(s@, 0) == first_long_prefix(s@, plen as nat),
        decreases n - plen,
    {
        assert(s@.take(plen + 1).drop_last() =~= s@.take(plen as int));
        bytes += width(s[plen]);
        plen += 1;
    }
    if bytes <= 4 || (plen - 1) as u128 > half {
        return 0;
    }
    let ghost p = s@.take(plen as int);
    let mut off: usize = 0;
    while begins_twice(s, off, plen)
        invariant
            n == s@.len(),
            0 < plen <= n,
            off <= n,
            p == s@.take(plen as int),
            collapsed(s@, p) == collapsed(s@.skip(off as int), p),
        decreases n - off,
    {
        assert(s@.skip(off as int).skip(2 * p.len() as int) =~= s@.skip(off + 2 * plen));
        off += 2 * plen;
    }
    off
}

/// Where `merged` of `s` lies in `s`.
fn merge_bounds(s: &Vec<char>) -> (bounds: (usize, usize))
    ensures
        bounds.0 <= bounds.1 <= s@.len(),
        s@.subrange(bounds.0 as int, bounds.1 as int) == merged(s@),
{
    match repeated_token(s) {
        Some(f) => (0, f),
        None => {
            let off = deduplicated_offset(s);
            (off, s.len())
        },
    }
}

/// Removes repeated content from `input`. If `input`, cut at its spaces,
/// is one piece two or more times, that piece is returned. Otherwise the
/// shortest beginning of `input` longer than four bytes is tried, if it
/// ends within the first half of `input`: while the text begins with it
/// twice over, both copies are taken off the front.
pub fn merge_duplicate_segment(input: &str) -> (result: String)
    ensures
        result@ == merged(input@),
{
    let chars = chars_of(input);
    let (lo, hi) = merge_bounds(&chars);
    string_of(&chars, lo, hi)
}

fn copy_of(s: &Vec<char>, lo: usize, hi: usize) -> (part: Vec<char>)
    requires
        lo <= hi <= s@.len(),
    ensures
        part@ == s@.subrange(lo as int, hi as int),
{
    let mut part: Vec<char> = Vec::new();
    let mut i: usize = lo;
    while i < hi
        invariant
            lo <= i <= hi <= s@.len(),
            part@ == s@.subrange(lo as int, i as int),
        decreases hi - i,
    {
        part.push(s[i]);
        i += 1;
        assert(part@ =~= s@.subrange(lo as int, i as int));
    }
    part
}

/// Cleans the text of one recognised piece: parenthesised regions become a
/// space, the whitespace around the text goes, and repeated content is
/// removed. Nothing is trimmed after that, so what stood behind a doubled
/// beginning may leave whitespace in front.
pub fn process_segment(segment: &str) -> (result: String)
    ensures
        result@ == cleaned(segment@),
{
    let replaced = replace_effect_segment_to_space(segment);
    let chars = chars_of(replaced.as_str());
    let (lo, hi) = trim_bounds(&chars);
    let body = copy_of(&chars, lo, hi);
    let (from, to) = merge_bounds(&body);
    string_of(&body, from, to)
}

/// Chooses what is shown of the pieces that the recogniser returned for one
/// segment, in their order. Each piece is cleaned. A piece whose cleaned
/// text is empty is not shown, nor is one whose cleaned text is the text,
/// as the recogniser gave it, of the piece before.
pub fn process(pieces: &Vec<TimedText>) -> (lines: Vec<TimedText>)
    ensures
        views(lines@) == shown(views(pieces@)),
{
    let mut lines: Vec<TimedText> = Vec::new();
    let mut i: usize = 0;
    assert(views(pieces@).take(0) =~= Seq::<(Seq<char>, int)>::empty());
    assert(views(lines@) =~= Seq::<(Seq<char>, int)>::empty());
    while i < pieces.len()
        invariant
            i <= pieces@.len(),
            views(lines@) == shown(views(pieces@).take(i as int)),
        decreases pieces@.len() - i,
    {
        let ghost read = views(pieces@).take(i + 1);
        let ghost before = views(lines@);
        assert(read.drop_last() =~= views(pieces@).take(i as int));
        assert(read.last() == pieces@[i as int]@);
        let text = process_segment(pieces[i].text.as_str());
        let fresh = if i == 0 {
            true
        } else {
            assert(previous_raw(read) == pieces@[i - 1].text@);
            text != pieces[i - 1].text
        };
        if fresh && !text.as_str().is_empty() {
            lines.push(TimedText { text, start: pieces[i].start });
            assert(views(lines@) =~= before.push((cleaned(read.last().0), read.last().1)));
        }
        i += 1;
    }
    assert(views(pieces@).take(i as int) =~= views(pieces@));
    lines
}

} // verus!
