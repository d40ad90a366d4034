//! Spoken commands.
use vstd::prelude::*;

use crate::letters::{
    ascii, ascii_lower, ascii_punctuation, is_alphanumeric, is_whitespace, letter_or_number,
    lower_char, lowered, to_lowercase, unended, white_space, without_final_sigma, FINAL_SIGMA,
    SMALL_SIGMA,
};
use crate::settings::{elapsed, span_of, VOICE_COOLDOWN};

verus! {

/// What a character does for the words of an utterance.
#[derive(Clone, Copy, Debug, PartialEq, Eq, Structural)]
pub enum Glyph {
    /// Part of a word.
    Letter(char),
    /// Ends a word.
    Space,
    /// Neither: punctuation and the like.
    Other,
}

/// What a character does for the words of an utterance.
pub open spec fn glyph(c: char) -> Glyph {
    if white_space(c) {
        Glyph::Space
    } else if letter_or_number(c) {
        Glyph::Letter(c)
    } else {
        Glyph::Other
    }
}

/// The glyphs of a text, in order.
pub open spec fn glyphs_of(text: Seq<char>) -> Seq<Glyph> {
    Seq::new(text.len(), |i: int| glyph(text[i]))
}

/// The words that a space has ended, and the word still being spelled.
pub open spec fn spelled(glyphs: Seq<Glyph>) -> (Seq<Seq<char>>, Seq<char>)
    decreases glyphs.len(),
{
    if glyphs.len() == 0 {
        (Seq::empty(), Seq::empty())
    } else {
        let (done, word) = spelled(glyphs.drop_last());
        match glyphs.last() {
            Glyph::Letter(c) => (done, word.push(c)),
            Glyph::Other => (done, word),
            Glyph::Space => if word.len() == 0 {
                (done, word)
            } else {
                (done.push(word), Seq::empty())
            },
        }
    }
}

/// The words of an utterance.
pub open spec fn words_of(glyphs: Seq<Glyph>) -> Seq<Seq<char>> {
    let (done, word) = spelled(glyphs);
    if word.len() == 0 {
        done
    } else {
        done.push(word)
    }
}

/// Whether the command starts at this word: "shutdown now", or "shut down now".
pub open spec fn command_at(words: Seq<Seq<char>>, start: int) -> bool {
    ||| start + 2 <= words.len() && words[start] == "shutdown"@ && words[start + 1] == "now"@
    ||| start + 3 <= words.len() && words[start] == "shut"@ && words[start + 1] == "down"@
        && words[start + 2] == "now"@
}

/// Whether the words of the command follow each other somewhere.
pub open spec fn commands(words: Seq<Seq<char>>) -> bool {
    exists|start: int| 0 <= start && #[trigger] command_at(words, start)
}

/// Whether an utterance, in lower case, holds the command.
pub open spec fn lower_holds_command(lower: Seq<char>) -> bool {
    commands(words_of(glyphs_of(lower)))
}

/// Whether an utterance holds the command, whatever the case of its letters.
pub open spec fn holds_command(utterance: Seq<char>) -> bool {
    lower_holds_command(lowered(utterance))
}

/// The words, each taken by its characters.
pub open spec fn spelled_out(words: Seq<Vec<char>>) -> Seq<Seq<char>> {
    Seq::new(words.len(), |i: int| words[i]@)
}

/// Sorts the characters of a text into letters, spaces and the rest.
pub fn sort_characters(text: &str) -> (glyphs: Vec<Glyph>)
    ensures
        glyphs@ == glyphs_of(text@),
{
    let mut glyphs: Vec<Glyph> = Vec::new();
    for c in it: text.chars()
        invariant
            it.seq() == text@,
            glyphs@ == glyphs_of(text@.take(it.index() as int)),
    {
        let next = if is_whitespace(c) {
            Glyph::Space
        } else if is_alphanumeric(c) {
            Glyph::Letter(c)
        } else {
            Glyph::Other
        };
        let ghost before = text@.take(it.index() as int);
        glyphs.push(next);
        assert(text@.take(it.index() as int + 1) == before.push(c));
        assert(next == glyph(c));
        assert(glyphs@ == glyphs_of(before).push(next));
        assert(glyphs@ =~= glyphs_of(before.push(c)));
    }
    assert(text@.take(text@.len() as int) == text@);
    glyphs
}

/// Splits glyphs into words.
pub fn split_words(glyphs: &Vec<Glyph>) -> (words: Vec<Vec<char>>)
    ensures
        spelled_out(words@) == words_of(glyphs@),
{
    let mut words: Vec<Vec<char>> = Vec::new();
    let mut word: Vec<char> = Vec::new();
    let mut i: usize = 0;
    assert(glyphs@.take(0) == Seq::<Glyph>::empty());
    while i < glyphs.len()
        invariant
            i <= glyphs.len(),
            spelled_out(words@) == spelled(glyphs@.take(i as int)).0,
            word@ == spelled(glyphs@.take(i as int)).1,
        decreases glyphs.len() - i,
    {
        assert(glyphs@.take(i + 1).drop_last() == glyphs@.take(i as int));
        match glyphs[i] {
            Glyph::Letter(c) => {
                word.push(c);
            },
            Glyph::Other => {},
            Glyph::Space => {
                if word.len() > 0 {
                    let ghost before = words@;
                    let ghost done = word@;
                    words.push(word);
                    word = Vec::new();
                    assert(spelled_out(words@) =~= spelled_out(before).push(done));
                }
            },
        }
        i = i + 1;
    }
    assert(glyphs@.take(glyphs@.len() as int) == glyphs@);
    if word.len() > 0 {
        let ghost before = words@;
        let ghost done = word@;
        words.push(word);
        assert(spelled_out(words@) =~= spelled_out(before).push(done));
    }
    words
}

/// Whether a word has exactly the characters of a text.
fn word_is(word: &Vec<char>, text: &str) -> (result: bool)
    ensures
        result == (word@ == text@),
{
    let mut i: usize = 0;
    for c in it: text.chars()
        invariant
            it.seq() == text@,
            i == it.index(),
            i <= word.len(),
            forall|j: int| 0 <= j < i ==> word@[j] == text@[j],
    {
        if i >= word.len() || word[i] != c {
            assert(word@.len() <= i || word@[i as int] != text@[i as int]);
            return false;
        }
        i = i + 1;
    }
    assert(word@.len() == text@.len() ==> word@ =~= text@);
    i == word.len()
}

/// Whether the words of the command follow each other somewhere.
pub fn says_command(words: &Vec<Vec<char>>) -> (result: bool)
    ensures
        result == commands(spelled_out(words@)),
{
    let ghost texts = spelled_out(words@);
    let count: usize = words.len();
    let mut start: usize = 0;
    while start < count
        invariant
            start <= count,
            count == words.len(),
            texts == spelled_out(words@),
            forall|s: int| 0 <= s < start ==> !#[trigger] command_at(texts, s),
        decreases count - start,
    {
        let mut found = false;
        if count - start >= 2 {
            assert(texts[start as int] == words@[start as int]@);
            assert(texts[start + 1] == words@[start + 1]@);
            if word_is(&words[start], "shutdown") && word_is(&words[start + 1], "now") {
                found = true;
            } else if count - start >= 3 {
                assert(texts[start + 2] == words@[start + 2]@);
                found = word_is(&words[start], "shut") && word_is(&words[start + 1], "down")
                    && word_is(&words[start + 2], "now");
            }
        }
        assert(found == command_at(texts, start as int));
        if found {
            return true;
        }
        start = start + 1;
    }
    false
}

/// Whether an utterance holds the command to power off, whatever the case of its
/// letters and whatever punctuation stands in it.
pub fn match_voice_command(utterance: &str) -> (result: bool)
    ensures
        result == holds_command(utterance@),
{
    let lower = to_lowercase(utterance);
    proof {
        lemma_final_sigma_is_no_matter(lower@);
        lemma_final_sigma_is_no_matter(lowered(utterance@));
    }
    let glyphs = sort_characters(lower.as_str());
    let words = split_words(&glyphs);
    says_command(&words)
}

/// One line from the speech recogniser: a final text, or a partial one that may
/// still grow.
pub struct VoiceEvent {
    pub text: String,
    pub partial: bool,
}

/// What an utterance leads to.
#[derive(Clone, Copy, Debug, PartialEq, Eq, Structural)]
pub enum VoiceVerdict {
    /// Too soon after the last command.
    Cooling,
    /// Not a command.
    Unmatched,
    /// Count down, then power off.
    ShutDown,
}

/// When the last spoken command was obeyed.
#[derive(Clone, Copy, Debug, PartialEq, Eq, Structural)]
pub struct VoiceState {
    pub last_shutdown: Option<u64>,
}

impl VoiceState {
    /// Whether the last command is too recent for another one.
    pub open spec fn cooling(self, now: u64) -> bool {
        self.last_shutdown matches Some(t) && span_of(now, t) < VOICE_COOLDOWN
    }

    /// What an utterance leads to, given whether it holds the command.
    pub open spec fn answer(self, matched: bool, now: u64) -> VoiceVerdict {
        if self.cooling(now) {
            VoiceVerdict::Cooling
        } else if matched {
            VoiceVerdict::ShutDown
        } else {
            VoiceVerdict::Unmatched
        }
    }

    /// The state after an utterance.
    pub open spec fn after(self, matched: bool, now: u64) -> VoiceState {
        if self.answer(matched, now) == VoiceVerdict::ShutDown {
            VoiceState { last_shutdown: Some(now) }
        } else {
            self
        }
    }

    /// Whether the last command is too recent for another one.
    pub fn is_cooling(&self, now: u64) -> (result: bool)
        ensures
            result == self.cooling(now),
    {
        match self.last_shutdown {
            Some(t) => elapsed(now, t) < VOICE_COOLDOWN,
            None => false,
        }
    }

    /// Decides what to do about an utterance, given whether it holds the command.
    pub fn decide(&mut self, matched: bool, now: u64) -> (verdict: VoiceVerdict)
        ensures
            verdict == old(self).answer(matched, now),
            *final(self) == old(self).after(matched, now),
    {
        if self.is_cooling(now) {
            return VoiceVerdict::Cooling;
        }
        if !matched {
            return VoiceVerdict::Unmatched;
        }
        self.last_shutdown = Some(now);
        VoiceVerdict::ShutDown
    }
}

/// The state after utterances, each with whether it holds the command and when
/// it was heard.
pub open spec fn after_utterances(start: VoiceState, heard: Seq<(bool, u64)>) -> VoiceState
    decreases heard.len(),
{
    if heard.len() == 0 {
        start
    } else {
        after_utterances(start, heard.drop_last()).after(heard.last().0, heard.last().1)
    }
}

/// What the utterance at this position leads to.
pub open spec fn answer_at(start: VoiceState, heard: Seq<(bool, u64)>, i: int) -> VoiceVerdict {
    after_utterances(start, heard.take(i)).answer(heard[i].0, heard[i].1)
}

proof fn lemma_last_shutdown_is_latest(start: VoiceState, heard: Seq<(bool, u64)>, i: int)
    requires
        0 <= i < heard.len(),
        answer_at(start, heard, i) == VoiceVerdict::ShutDown,
    ensures
        after_utterances(start, heard).last_shutdown matches Some(t) && heard[i].1 <= t,
    decreases heard.len(),
{
    let before = heard.drop_last();
    if i < before.len() {
        assert(before.take(i) == heard.take(i));
        lemma_last_shutdown_is_latest(start, before, i);
    } else {
        assert(heard.take(i) == before);
    }
}

/// Spoken shutdowns never come closer than the cooldown, so a final text that
/// follows a partial one which fired cannot fire again.
pub proof fn law_voice_shutdowns_keep_their_distance(
    start: VoiceState,
    heard: Seq<(bool, u64)>,
    i: int,
    j: int,
)
    requires
        0 <= i < j < heard.len(),
        answer_at(start, heard, i) == VoiceVerdict::ShutDown,
        answer_at(start, heard, j) == VoiceVerdict::ShutDown,
    ensures
        heard[j].1 - heard[i].1 >= VOICE_COOLDOWN,
{
    assert(heard.take(j).take(i) == heard.take(i));
    lemma_last_shutdown_is_latest(start, heard.take(j), i);
}

proof fn lemma_other_glyph_is_silent(a: Seq<Glyph>, b: Seq<Glyph>)
    ensures
        spelled(a + seq![Glyph::Other] + b) == spelled(a + b),
    decreases b.len(),
{
    if b.len() == 0 {
        assert((a + seq![Glyph::Other] + b).drop_last() == a);
        assert(a + b == a);
    } else {
        let rest = b.drop_last();
        lemma_other_glyph_is_silent(a, rest);
        assert((a + seq![Glyph::Other] + b).drop_last() == a + seq![Glyph::Other] + rest);
        assert((a + b).drop_last() == a + rest);
        assert((a + b).last() == b.last());
    }
}

/// Punctuation is ignored: a character that is neither a letter, a number nor
/// white space changes nothing, wherever it stands in the lower-case utterance.
pub proof fn law_punctuation_is_ignored(a: Seq<char>, c: char, b: Seq<char>)
    requires
        !letter_or_number(c),
        !white_space(c),
    ensures
        words_of(glyphs_of(a + seq![c] + b)) == words_of(glyphs_of(a + b)),
        lower_holds_command(a + seq![c] + b) == lower_holds_command(a + b),
{
    let ga = glyphs_of(a);
    let gb = glyphs_of(b);
    assert(glyphs_of(a + seq![c] + b) =~= ga + seq![Glyph::Other] + gb);
    assert(glyphs_of(a + b) =~= ga + gb);
    lemma_other_glyph_is_silent(ga, gb);
}

/// An utterance without its ASCII punctuation, and with its ASCII letters in lower
/// case.
pub open spec fn plain(utterance: Seq<char>) -> Seq<char>
    decreases utterance.len(),
{
    if utterance.len() == 0 {
        Seq::empty()
    } else {
        let before = plain(utterance.drop_last());
        if ascii_punctuation(utterance.last()) {
            before
        } else {
            before.push(ascii_lower(utterance.last()))
        }
    }
}

proof fn lemma_spelling_goes_on(a: Seq<Glyph>, b: Seq<Glyph>, more: Seq<Glyph>)
    requires
        spelled(a) == spelled(b),
    ensures
        spelled(a + more) == spelled(b + more),
    decreases more.len(),
{
    if more.len() == 0 {
        assert(a + more == a);
        assert(b + more == b);
    } else {
        lemma_spelling_goes_on(a, b, more.drop_last());
        assert((a + more).drop_last() == a + more.drop_last());
        assert((b + more).drop_last() == b + more.drop_last());
    }
}

proof fn lemma_plain_spells_alike(utterance: Seq<char>)
    ensures
        spelled(glyphs_of(lowered(utterance))) == spelled(glyphs_of(lowered(plain(utterance)))),
    decreases utterance.len(),
{
    if utterance.len() > 0 {
        let before = utterance.drop_last();
        let c = utterance.last();
        lemma_plain_spells_alike(before);
        let a = glyphs_of(lowered(before));
        let b = glyphs_of(lowered(plain(before)));
        let more = glyphs_of(lower_char(c));
        assert(glyphs_of(lowered(utterance)) =~= a + more);
        if ascii_punctuation(c) {
            assert(more =~= seq![Glyph::Other]);
            assert((a + more).drop_last() == a);
        } else {
            let after = plain(before).push(ascii_lower(c));
            assert(after.drop_last() == plain(before));
            assert(lower_char(ascii_lower(c)) =~= lower_char(c));
            assert(glyphs_of(lowered(after)) =~= b + more);
            lemma_spelling_goes_on(a, b, more);
        }
    }
}

/// Case and punctuation are ignored: utterances that differ in nothing but the case
/// of ASCII letters and in ASCII punctuation, wherever it stands and whatever else
/// they hold, are matched or rejected together.
pub proof fn law_case_and_punctuation_are_ignored(a: Seq<char>, b: Seq<char>)
    requires
        plain(a) == plain(b),
    ensures
        words_of(glyphs_of(lowered(a))) == words_of(glyphs_of(lowered(b))),
        holds_command(a) == holds_command(b),
{
    lemma_plain_spells_alike(a);
    lemma_plain_spells_alike(b);
}

/// A glyph, with the final sigma taken for the one inside a word.
spec fn unended_glyph(g: Glyph) -> Glyph {
    match g {
        Glyph::Letter(c) => Glyph::Letter(unended(c)),
        _ => g,
    }
}

spec fn unended_glyphs(glyphs: Seq<Glyph>) -> Seq<Glyph> {
    Seq::new(glyphs.len(), |i: int| unended_glyph(glyphs[i]))
}

spec fn unended_words(words: Seq<Seq<char>>) -> Seq<Seq<char>> {
    Seq::new(words.len(), |i: int| without_final_sigma(words[i]))
}

proof fn lemma_unended_spelling(glyphs: Seq<Glyph>)
    ensures
        spelled(unended_glyphs(glyphs)).0 == unended_words(spelled(glyphs).0),
        spelled(unended_glyphs(glyphs)).1 == without_final_sigma(spelled(glyphs).1),
    decreases glyphs.len(),
{
    if glyphs.len() == 0 {
        assert(spelled(glyphs).0 =~= Seq::<Seq<char>>::empty());
        assert(unended_words(spelled(glyphs).0) =~= Seq::<Seq<char>>::empty());
        assert(without_final_sigma(spelled(glyphs).1) =~= Seq::<char>::empty());
    } else {
        let before = glyphs.drop_last();
        lemma_unended_spelling(before);
        assert(unended_glyphs(glyphs).drop_last() =~= unended_glyphs(before));
        let (done, word) = spelled(before);
        match glyphs.last() {
            Glyph::Letter(c) => {
                assert(without_final_sigma(word.push(c)) =~= without_final_sigma(word).push(
                    unended(c),
                ));
            },
            Glyph::Other => {},
            Glyph::Space => {
                assert(unended_words(done.push(word)) =~= unended_words(done).push(
                    without_final_sigma(word),
                ));
                assert(without_final_sigma(Seq::<char>::empty()) =~= Seq::<char>::empty());
            },
        }
    }
}

proof fn lemma_unended_word(word: Seq<char>, text: Seq<char>)
    requires
        forall|i: int| 0 <= i < text.len() ==> ascii(#[trigger] text[i]),
    ensures
        (without_final_sigma(word) == text) == (word == text),
{
    let folded = without_final_sigma(word);
    if folded == text {
        assert forall|i: int| 0 <= i < word.len() implies word[i] == text[i] by {
            assert(folded[i] == unended(word[i]));
            assert(ascii(text[i]));
        }
        assert(word =~= text);
    }
    if word == text {
        assert forall|i: int| 0 <= i < word.len() implies folded[i] == text[i] by {
            assert(ascii(text[i]));
        }
        assert(folded =~= text);
    }
}

proof fn lemma_unended_command(words: Seq<Seq<char>>, start: int)
    requires
        0 <= start,
    ensures
        command_at(unended_words(words), start) == command_at(words, start),
{
    reveal_strlit("shutdown");
    reveal_strlit("shut");
    reveal_strlit("down");
    reveal_strlit("now");
    if start + 1 < words.len() {
        lemma_unended_word(words[start], "shutdown"@);
        lemma_unended_word(words[start], "shut"@);
        lemma_unended_word(words[start + 1], "now"@);
        lemma_unended_word(words[start + 1], "down"@);
    }
    if start + 2 < words.len() {
        lemma_unended_word(words[start + 2], "now"@);
    }
}

/// The command holds no sigma, so it does not matter which form a sigma has.
proof fn lemma_final_sigma_is_no_matter(lower: Seq<char>)
    ensures
        lower_holds_command(without_final_sigma(lower)) == lower_holds_command(lower),
{
    let glyphs = glyphs_of(lower);
    let words = words_of(glyphs);
    let folded = words_of(glyphs_of(without_final_sigma(lower)));
    assert(glyph(FINAL_SIGMA) == Glyph::Letter(FINAL_SIGMA));
    assert(glyph(SMALL_SIGMA) == Glyph::Letter(SMALL_SIGMA));
    assert(glyphs_of(without_final_sigma(lower)) =~= unended_glyphs(glyphs));
    lemma_unended_spelling(glyphs);
    let (done, word) = spelled(glyphs);
    assert(unended_words(done.push(word)) =~= unended_words(done).push(without_final_sigma(word)));
    assert(folded == unended_words(words));
    if commands(words) {
        let start = choose|start: int| 0 <= start && #[trigger] command_at(words, start);
        lemma_unended_command(words, start);
        assert(command_at(folded, start));
    }
    if commands(folded) {
        let start = choose|start: int| 0 <= start && #[trigger] command_at(folded, start);
        lemma_unended_command(words, start);
        assert(command_at(words, start));
    }
}

/// The command is found inside a longer utterance: words before and after it do
/// not hide it.
pub proof fn law_command_is_found_in_context(
    before: Seq<Seq<char>>,
    words: Seq<Seq<char>>,
    behind: Seq<Seq<char>>,
)
    requires
        commands(words),
    ensures
        commands(before + words + behind),
{
    let start = choose|start: int| 0 <= start && #[trigger] command_at(words, start);
    let all = before + words + behind;
    assert(command_at(all, before.len() + start));
}

/// A command needs "now" right behind it: an utterance without the word "now" is
/// never a command.
pub proof fn law_no_command_without_now(words: Seq<Seq<char>>)
    requires
        !words.contains("now"@),
    ensures
        !commands(words),
{
    if commands(words) {
        let start = choose|start: int| 0 <= start && #[trigger] command_at(words, start);
        if words[start] == "shutdown"@ && words[start + 1] == "now"@ && start + 2 <= words.len() {
            assert(words.contains(words[start + 1]));
        } else {
            assert(words.contains(words[start + 2]));
        }
    }
}

/// Every character counts for itself: white space ends words, letters and numbers make
/// them up, and anything else does neither.
pub proof fn law_characters_count_one_by_one(text: Seq<char>, i: int)
    requires
        0 <= i < text.len(),
    ensures
        glyphs_of(text).len() == text.len(),
        white_space(text[i]) ==> glyphs_of(text)[i] == Glyph::Space,
        !white_space(text[i]) && letter_or_number(text[i]) ==> glyphs_of(text)[i]
            == Glyph::Letter(text[i]),
        !white_space(text[i]) && !letter_or_number(text[i]) ==> glyphs_of(text)[i]
            == Glyph::Other,
{
}

/// The letters among glyphs, in order.
pub open spec fn letters_of(glyphs: Seq<Glyph>) -> Seq<char>
    decreases glyphs.len(),
{
    if glyphs.len() == 0 {
        Seq::empty()
    } else {
        match glyphs.last() {
            Glyph::Letter(c) => letters_of(glyphs.drop_last()).push(c),
            _ => letters_of(glyphs.drop_last()),
        }
    }
}

proof fn lemma_unbroken_word(glyphs: Seq<Glyph>)
    requires
        forall|i: int| 0 <= i < glyphs.len() ==> !((#[trigger] glyphs[i]) is Space),
    ensures
        spelled(glyphs).0.len() == 0,
        spelled(glyphs).1 == letters_of(glyphs),
    decreases glyphs.len(),
{
    if glyphs.len() > 0 {
        let before = glyphs.drop_last();
        assert forall|i: int| 0 <= i < before.len() implies !((#[trigger] before[i]) is Space) by {
            assert(before[i] == glyphs[i]);
        }
        lemma_unbroken_word(before);
        assert(!(glyphs[glyphs.len() - 1] is Space));
    }
}

/// What no space breaks is one word, spelled by its letters in order, and no word where
/// there are none.
pub proof fn law_unbroken_letters_are_one_word(glyphs: Seq<Glyph>)
    requires
        forall|i: int| 0 <= i < glyphs.len() ==> !((#[trigger] glyphs[i]) is Space),
    ensures
        letters_of(glyphs).len() == 0 ==> words_of(glyphs).len() == 0,
        letters_of(glyphs).len() > 0 ==> words_of(glyphs) == seq![letters_of(glyphs)],
{
    lemma_unbroken_word(glyphs);
    if letters_of(glyphs).len() > 0 {
        assert(spelled(glyphs).0 =~= Seq::<Seq<char>>::empty());
        assert(words_of(glyphs) =~= seq![letters_of(glyphs)]);
    }
}

proof fn lemma_words_behind_a_space(a: Seq<Glyph>, b: Seq<Glyph>)
    ensures
        spelled(a + seq![Glyph::Space] + b).0 == words_of(a) + spelled(b).0,
        spelled(a + seq![Glyph::Space] + b).1 == spelled(b).1,
    decreases b.len(),
{
    let all = a + seq![Glyph::Space] + b;
    if b.len() == 0 {
        assert(all.drop_last() == a);
        assert(all.last() == Glyph::Space);
        assert(spelled(b).0 == Seq::<Seq<char>>::empty());
        assert(words_of(a) + spelled(b).0 =~= words_of(a));
        assert(spelled(all).1 =~= Seq::<char>::empty());
        assert(spelled(all).0 =~= words_of(a));
    } else {
        let rest = b.drop_last();
        lemma_words_behind_a_space(a, rest);
        assert(all.drop_last() == a + seq![Glyph::Space] + rest);
        assert(all.last() == b.last());
        let (done, word) = spelled(rest);
        assert(words_of(a) + done.push(word) =~= (words_of(a) + done).push(word));
    }
}

/// A space parts words: the words before and behind it are the words of the whole.
pub proof fn law_space_parts_words(a: Seq<Glyph>, b: Seq<Glyph>)
    ensures
        words_of(a + seq![Glyph::Space] + b) == words_of(a) + words_of(b),
{
    lemma_words_behind_a_space(a, b);
    let (done, word) = spelled(b);
    assert(words_of(a) + done.push(word) =~= (words_of(a) + done).push(word));
    assert(words_of(a + seq![Glyph::Space] + b) =~= words_of(a) + words_of(b));
}

/// The two ways to say the command, word by word.
pub open spec fn is_the_command(words: Seq<Seq<char>>) -> bool {
    ||| words.len() == 2 && words[0] == "shutdown"@ && words[1] == "now"@
    ||| words.len() == 3 && words[0] == "shut"@ && words[1] == "down"@ && words[2] == "now"@
}

/// Words hold the command exactly if some of them in a row are it, all of it, word by
/// word and nothing between.
pub proof fn law_command_is_said_word_by_word(words: Seq<Seq<char>>)
    ensures
        commands(words) <==> exists|i: int, j: int|
            0 <= i <= j <= words.len() && is_the_command(#[trigger] words.subrange(i, j)),
{
    if commands(words) {
        let start = choose|start: int| 0 <= start && #[trigger] command_at(words, start);
        if start + 2 <= words.len() && words[start] == "shutdown"@ && words[start + 1]
            == "now"@ {
            assert(is_the_command(words.subrange(start, start + 2)));
        } else {
            assert(is_the_command(words.subrange(start, start + 3)));
        }
    }
    if exists|i: int, j: int|
        0 <= i <= j <= words.len() && is_the_command(#[trigger] words.subrange(i, j)) {
        let (i, j) = choose|i: int, j: int|
            0 <= i <= j <= words.len() && is_the_command(#[trigger] words.subrange(i, j));
        let said = words.subrange(i, j);
        assert(said[0] == words[i] && said[1] == words[i + 1]);
        if said.len() == 3 {
            assert(said[2] == words[i + 2]);
        }
        assert(command_at(words, i));
    }
}

/// Words joined without spaces.
pub open spec fn joined(words: Seq<Seq<char>>) -> Seq<char>
    decreases words.len(),
{
    if words.len() == 0 {
        Seq::empty()
    } else {
        joined(words.drop_last()) + words.last()
    }
}

/// No near miss is a command: words that hold it hold, in a row, two or three that read
/// "shutdownnow" when joined, with "now" the last of them and "shutdown" or "shut" the
/// first; so words without "shutdown" and without "down", or without "now", never do.
pub proof fn law_no_near_miss_is_a_command(words: Seq<Seq<char>>)
    requires
        commands(words),
    ensures
        exists|i: int, j: int|
            {
                &&& 0 <= i < j <= words.len()
                &&& i + 2 <= j <= i + 3
                &&& joined(#[trigger] words.subrange(i, j)) == "shutdownnow"@
                &&& words[j - 1] == "now"@
                &&& j == i + 2 ==> words[i] == "shutdown"@
                &&& j == i + 3 ==> words[i] == "shut"@ && words[i + 1] == "down"@
            },
        words.contains("now"@),
        words.contains("shutdown"@) || (words.contains("shut"@) && words.contains("down"@)),
{
    let start = choose|start: int| 0 <= start && #[trigger] command_at(words, start);
    reveal_strlit("shutdownnow");
    reveal_strlit("shutdown");
    reveal_strlit("shut");
    reveal_strlit("down");
    reveal_strlit("now");
    reveal_with_fuel(joined, 4);
    if start + 2 <= words.len() && words[start] == "shutdown"@ && words[start + 1] == "now"@ {
        let said = words.subrange(start, start + 2);
        assert(said.drop_last().drop_last() =~= Seq::<Seq<char>>::empty());
        assert(said.drop_last().last() == said[0] && said.last() == said[1]);
        assert(joined(said.drop_last()) =~= said[0]);
        assert(joined(said) =~= said[0] + said[1]);
        assert(joined(said) =~= "shutdownnow"@);
        assert(words.contains(words[start]) && words.contains(words[start + 1]));
    } else {
        let said = words.subrange(start, start + 3);
        assert(said.drop_last().drop_last().drop_last() =~= Seq::<Seq<char>>::empty());
        assert(said.drop_last().drop_last().last() == said[0]);
        assert(said.drop_last().last() == said[1] && said.last() == said[2]);
        assert(joined(said.drop_last().drop_last()) =~= said[0]);
        assert(joined(said.drop_last()) =~= said[0] + said[1]);
        assert(joined(said) =~= said[0] + said[1] + said[2]);
        assert(joined(said) =~= "shutdownnow"@);
        assert(words.contains(words[start]) && words.contains(words[start + 1])
            && words.contains(words[start + 2]));
    }
}

/// An utterance is heard by its words: with a blank between two parts, it holds the
/// command exactly if the words of both parts in a row do.
pub proof fn law_utterance_is_heard_by_its_words(a: Seq<char>, b: Seq<char>)
    ensures
        holds_command(a + seq![' '] + b) <==> commands(
            words_of(glyphs_of(lowered(a))) + words_of(glyphs_of(lowered(b))),
        ),
        holds_command(a) <==> commands(words_of(glyphs_of(lowered(a)))),
{
    let blank = seq![' '];
    crate::letters::law_lower_case_is_put_together(a + blank, b);
    crate::letters::law_lower_case_is_put_together(a, blank);
    crate::letters::law_lower_case_of_one(' ');
    let (la, lb) = (lowered(a), lowered(b));
    assert(lowered(blank) =~= blank);
    assert(glyphs_of(la + blank + lb) =~= glyphs_of(la) + seq![Glyph::Space] + glyphs_of(lb));
    law_space_parts_words(glyphs_of(la), glyphs_of(lb));
}

/// A spoken command counts exactly if it is one and the last one was obeyed at least the
/// cooldown ago; only then is its time kept.
pub proof fn law_command_counts_after_the_cooldown(s: VoiceState, matched: bool, now: u64)
    ensures
        s.answer(matched, now) == VoiceVerdict::Cooling <==> (s.last_shutdown matches Some(t)
            && now < t + VOICE_COOLDOWN),
        s.answer(matched, now) == VoiceVerdict::ShutDown <==> matched && (s.last_shutdown
            matches Some(t) ==> now >= t + VOICE_COOLDOWN),
        s.answer(matched, now) == VoiceVerdict::ShutDown ==> s.after(matched, now).last_shutdown
            == Some(now),
        s.answer(matched, now) != VoiceVerdict::ShutDown ==> s.after(matched, now) == s,
{
}

} // verus!
