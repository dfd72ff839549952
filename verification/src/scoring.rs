//! Complexity heuristics.

use crate::keywords::ScoringKeywords;
use crate::message::{
    any_image, conversation_has_image, last_user_text, latest_user_text, Message, MessageContent,
};
use crate::text::{
    ascii_lowercase, chars_of, contains_char, contains_chars, is_ascii, lemma_occurs_in_longer,
    lowercase, occurs, views,
};
use vstd::prelude::*;

verus! {

/// Points for the length of the prompt, in characters.
pub open spec fn length_points(len: nat) -> nat {
    if len > 2000 {
        3
    } else if len > 800 {
        2
    } else if len > 300 {
        1
    } else {
        0
    }
}

/// The code markers that the prompt shows, either as they are written or in its
/// lower-case form.
pub open spec fn shown_markers(
    markers: Seq<Seq<char>>,
    text: Seq<char>,
    lower: Seq<char>,
) -> Seq<Seq<char>> {
    markers.filter(|m: Seq<char>| occurs(text, m) || occurs(lower, m))
}

/// Points for the number of code markers.
pub open spec fn code_points(count: nat) -> nat {
    if count >= 3 {
        3
    } else if count >= 1 {
        2
    } else {
        0
    }
}

/// The words that occur in the lower-case form of the prompt.
pub open spec fn shown_words(words: Seq<Seq<char>>, lower: Seq<char>) -> Seq<Seq<char>> {
    words.filter(|w: Seq<char>| occurs(lower, w))
}

/// Points for the number of technical keywords.
pub open spec fn technical_points(count: nat) -> nat {
    if count >= 4 {
        3
    } else if count >= 2 {
        2
    } else if count >= 1 {
        1
    } else {
        0
    }
}

/// Points for an image.
pub open spec fn image_points(image: bool) -> nat {
    if image {
        5
    } else {
        0
    }
}

/// The prompt holds a Latin or Arabic question mark and one of the question words.
pub open spec fn asks(text: Seq<char>, lower: Seq<char>, question_words: Seq<Seq<char>>) -> bool {
    &&& text.contains('?') || text.contains('؟')
    &&& exists|k: int| 0 <= k < question_words.len() && occurs(lower, #[trigger] question_words[k])
}

/// Points for an open-ended question.
pub open spec fn question_points(question: bool) -> nat {
    if question {
        1
    } else {
        0
    }
}

/// The score of a prompt whose lower-case form is `lower`.
pub open spec fn prompt_score(
    text: Seq<char>,
    lower: Seq<char>,
    image: bool,
    keywords: ScoringKeywords,
) -> nat {
    length_points(text.len()) + code_points(
        shown_markers(views(keywords.code_markers@), text, lower).len(),
    ) + technical_points(shown_words(views(keywords.technical_keywords@), lower).len())
        + image_points(image) + question_points(asks(text, lower, views(keywords.question_words@)))
}

/// The complexity score of a conversation: that of the last user message, with an image
/// anywhere in the conversation counted in.
pub open spec fn complexity(messages: Seq<Message>, keywords: ScoringKeywords) -> nat {
    let text = last_user_text(messages);
    prompt_score(text, lowercase(text), any_image(messages), keywords)
}

fn count_markers(markers: &[String], text: &[char], lower: &[char]) -> (res: usize)
    ensures
        res == shown_markers(views(markers@), text@, lower@).len(),
{
    let mut count: usize = 0;
    let mut k: usize = 0;
    while k < markers.len()
        invariant
            count <= k <= markers@.len(),
            count == shown_markers(views(markers@).take(k as int), text@, lower@).len(),
        decreases markers@.len() - k,
    {
        let marker = chars_of(markers[k].as_str());
        if contains_chars(text, marker.as_slice()) || contains_chars(lower, marker.as_slice()) {
            count += 1;
        }
        proof {
            let next = views(markers@).take(k + 1);
            assert(next.drop_last() =~= views(markers@).take(k as int));
            assert(next.last() == marker@);
            reveal(Seq::filter);
        }
        k += 1;
    }
    assert(views(markers@).take(k as int) =~= views(markers@));
    count
}

fn count_words(words: &[String], lower: &[char]) -> (res: usize)
    ensures
        res == shown_words(views(words@), lower@).len(),
{
    let mut count: usize = 0;
    let mut k: usize = 0;
    while k < words.len()
        invariant
            count <= k <= words@.len(),
            count == shown_words(views(words@).take(k as int), lower@).len(),
        decreases words@.len() - k,
    {
        let word = chars_of(words[k].as_str());
        if contains_chars(lower, word.as_slice()) {
            count += 1;
        }
        proof {
            let next = views(words@).take(k + 1);
            assert(next.drop_last() =~= views(words@).take(k as int));
            assert(next.last() == word@);
            reveal(Seq::filter);
        }
        k += 1;
    }
    assert(views(words@).take(k as int) =~= views(words@));
    count
}

fn shows_any(words: &[String], lower: &[char]) -> (res: bool)
    ensures
        res == exists|k: int|
            0 <= k < views(words@).len() && occurs(lower@, #[trigger] views(words@)[k]),
{
    let mut k: usize = 0;
    while k < words.len()
        invariant
            k <= words@.len(),
            forall|j: int| 0 <= j < k ==> !occurs(lower@, #[trigger] views(words@)[j]),
        decreases words@.len() - k,
    {
        let word = chars_of(words[k].as_str());
        assert(views(words@)[k as int] == word@);
        if contains_chars(lower, word.as_slice()) {
            return true;
        }
        k += 1;
    }
    false
}

/// Scores a prompt, given its text and the lower-case form of it.
pub fn score_prompt(
    text: &str,
    lower: &str,
    image: bool,
    keywords: &ScoringKeywords,
) -> (res: u32)
    ensures
        res == prompt_score(text@, lower@, image, *keywords),
{
    let text_chars = chars_of(text);
    let lower_chars = chars_of(lower);
    let len: usize = text_chars.len();

    let mut score: u32 = 0;

    // Prompt length
    if len > 2000 {
        score += 3;
    } else if len > 800 {
        score += 2;
    } else if len > 300 {
        score += 1;
    }

    // Code presence
    let code_count: usize = count_markers(
        keywords.code_markers.as_slice(),
        text_chars.as_slice(),
        lower_chars.as_slice(),
    );
    if code_count >= 3 {
        score += 3;
    } else if code_count >= 1 {
        score += 2;
    }

    // Technical keywords
    let tech_count: usize = count_words(
        keywords.technical_keywords.as_slice(),
        lower_chars.as_slice(),
    );
    if tech_count >= 4 {
        score += 3;
    } else if tech_count >= 2 {
        score += 2;
    } else if tech_count >= 1 {
        score += 1;
    }

    // Images
    if image {
        score += 5;
    }

    // Open-ended question
    let marked = contains_char(text_chars.as_slice(), '?') || contains_char(
        text_chars.as_slice(),
        '؟',
    );
    if marked && shows_any(keywords.question_words.as_slice(), lower_chars.as_slice()) {
        score += 1;
    }

    score
}

/// Computes a complexity score for a list of messages.
///
/// | Criterion | Score |
/// |-----------|-------|
/// | Prompt > 2000 characters | +3 |
/// | Prompt > 800 characters | +2 |
/// | Prompt > 300 characters | +1 |
/// | ≥ 3 code markers (```, `fn`, `class`, etc.) | +3 |
/// | ≥ 1 code marker | +2 |
/// | ≥ 4 technical keywords | +3 |
/// | ≥ 2 technical keywords | +2 |
/// | ≥ 1 technical keyword | +1 |
/// | Image present | +5 |
/// | Open-ended question (? + interrogative word) | +1 |
///
/// Only the last user message is scored, not the full conversation history: system
/// prompts and history would otherwise inflate the score for every question.
pub fn score_complexity(messages: &[Message], keywords: &ScoringKeywords) -> (res: u32)
    ensures
        res == complexity(messages@, *keywords),
        res <= 15,
{
    let text = latest_user_text(messages);
    let lower = text.to_lowercase();
    score_prompt(text.as_str(), lower.as_str(), conversation_has_image(messages), keywords)
}

proof fn lemma_last_user_text(before: Seq<Message>, message: Message, after: Seq<Message>)
    requires
        message.from_user(),
        forall|k: int| 0 <= k < after.len() ==> !(#[trigger] after[k]).from_user(),
    ensures
        last_user_text(before + seq![message] + after) == message.text_view(),
    decreases after.len(),
{
    let all = before + seq![message] + after;
    if after.len() > 0 {
        assert(all.last() == after.last());
        assert(all.drop_last() =~= before + seq![message] + after.drop_last());
        lemma_last_user_text(before, message, after.drop_last());
    } else {
        assert(all.last() == message);
    }
}

/// Only the last user message is scored. What was said before it, and what system,
/// assistant or tool messages say after it, adds nothing but its images.
pub proof fn law_only_last_user_message_counts(
    before: Seq<Message>,
    message: Message,
    after: Seq<Message>,
    keywords: ScoringKeywords,
)
    requires
        message.from_user(),
        forall|k: int| 0 <= k < after.len() ==> !(#[trigger] after[k]).from_user(),
    ensures
        complexity(before + seq![message] + after, keywords) == prompt_score(
            message.text_view(),
            lowercase(message.text_view()),
            any_image(before) || message.shows_image() || any_image(after),
            keywords,
        ),
{
    lemma_last_user_text(before, message, after);
    let all = before + seq![message] + after;
    let n = before.len() as int;
    if any_image(all) {
        let k = choose|k: int| 0 <= k < all.len() && (#[trigger] all[k]).shows_image();
        if k < n {
            assert(before[k].shows_image());
        } else if k > n {
            assert(after[k - n - 1].shows_image());
        }
    }
    if any_image(before) {
        let k = choose|k: int| 0 <= k < before.len() && (#[trigger] before[k]).shows_image();
        assert(all[k].shows_image());
    }
    if message.shows_image() {
        assert(all[n].shows_image());
    }
    if any_image(after) {
        let k = choose|k: int| 0 <= k < after.len() && (#[trigger] after[k]).shows_image();
        assert(all[n + 1 + k].shows_image());
    }
}

/// A conversation without a user message scores as an empty prompt does: its length,
/// the code in it and its questions are worth nothing.
pub proof fn law_no_user_message(messages: Seq<Message>, keywords: ScoringKeywords)
    requires
        forall|k: int| 0 <= k < messages.len() ==> !(#[trigger] messages[k]).from_user(),
    ensures
        complexity(messages, keywords) == prompt_score(
            Seq::empty(),
            lowercase(Seq::empty()),
            any_image(messages),
            keywords,
        ),
{
    lemma_no_user_text(messages);
}

proof fn lemma_no_user_text(messages: Seq<Message>)
    requires
        forall|k: int| 0 <= k < messages.len() ==> !(#[trigger] messages[k]).from_user(),
    ensures
        last_user_text(messages) == Seq::<char>::empty(),
    decreases messages.len(),
{
    if messages.len() > 0 {
        lemma_no_user_text(messages.drop_last());
    }
}

/// The score lies between 0 and 15. An image alone is worth 5 points, and without one
/// at most 10 can be reached.
pub proof fn law_score_range(messages: Seq<Message>, keywords: ScoringKeywords)
    ensures
        complexity(messages, keywords) <= 15,
        any_image(messages) ==> complexity(messages, keywords) >= 5,
        !any_image(messages) ==> complexity(messages, keywords) <= 10,
{
}

proof fn lemma_filter_grows(
    words: Seq<Seq<char>>,
    narrow: spec_fn(Seq<char>) -> bool,
    wide: spec_fn(Seq<char>) -> bool,
)
    requires
        forall|w: Seq<char>| #[trigger] narrow(w) ==> wide(w),
    ensures
        words.filter(narrow).len() <= words.filter(wide).len(),
    decreases words.len(),
{
    reveal(Seq::filter);
    if words.len() > 0 {
        lemma_filter_grows(words.drop_last(), narrow, wide);
    }
}

/// More text never lowers the score of a prompt: where the text and its lower-case form
/// both go on after the given ones, the score does not fall.
pub proof fn law_longer_prompt_scores_no_less(
    text: Seq<char>,
    lower: Seq<char>,
    longer_text: Seq<char>,
    longer_lower: Seq<char>,
    image: bool,
    keywords: ScoringKeywords,
)
    requires
        text.is_prefix_of(longer_text),
        lower.is_prefix_of(longer_lower),
    ensures
        prompt_score(text, lower, image, keywords) <= prompt_score(
            longer_text,
            longer_lower,
            image,
            keywords,
        ),
{
    assert forall|w: Seq<char>| occurs(text, w) implies occurs(longer_text, w) by {
        lemma_occurs_in_longer(text, longer_text, w);
    }
    assert forall|w: Seq<char>| occurs(lower, w) implies occurs(longer_lower, w) by {
        lemma_occurs_in_longer(lower, longer_lower, w);
    }
    lemma_filter_grows(
        views(keywords.code_markers@),
        |m: Seq<char>| occurs(text, m) || occurs(lower, m),
        |m: Seq<char>| occurs(longer_text, m) || occurs(longer_lower, m),
    );
    lemma_filter_grows(
        views(keywords.technical_keywords@),
        |w: Seq<char>| occurs(lower, w),
        |w: Seq<char>| occurs(longer_lower, w),
    );
    let questions = views(keywords.question_words@);
    if asks(text, lower, questions) {
        let mark = if text.contains('?') {
            '?'
        } else {
            '؟'
        };
        let at = text.index_of(mark);
        assert(longer_text[at] == mark);
        let k = choose|k: int| 0 <= k < questions.len() && occurs(lower, #[trigger] questions[k]);
        assert(occurs(longer_lower, questions[k]));
    }
}

/// A user who goes on writing never lowers the score: where the last user message is an
/// ASCII text, appending ASCII text to it keeps the score or raises it.
pub proof fn law_appending_text_scores_no_less(
    before: Seq<Message>,
    message: Message,
    longer: Message,
    after: Seq<Message>,
    appended: Seq<char>,
    keywords: ScoringKeywords,
)
    requires
        message.from_user(),
        longer.from_user(),
        forall|k: int| 0 <= k < after.len() ==> !(#[trigger] after[k]).from_user(),
        message.content matches Some(MessageContent::Text(_)),
        longer.content matches Some(MessageContent::Text(_)),
        longer.text_view() == message.text_view() + appended,
        is_ascii(message.text_view()),
        is_ascii(appended),
    ensures
        complexity(before + seq![message] + after, keywords) <= complexity(
            before + seq![longer] + after,
            keywords,
        ),
{
    let text = message.text_view();
    let longer_text = longer.text_view();
    law_only_last_user_message_counts(before, message, after, keywords);
    law_only_last_user_message_counts(before, longer, after, keywords);
    assert(lowercase(longer_text) =~= lowercase(text) + ascii_lowercase(appended));
    law_longer_prompt_scores_no_less(
        text,
        lowercase(text),
        longer_text,
        lowercase(longer_text),
        any_image(before) || any_image(after),
        keywords,
    );
}

/// Each technical keyword counts exactly where it occurs, in whatever script it is
/// written and however often it is listed.
pub proof fn law_each_word_counts(words: Seq<Seq<char>>, word: Seq<char>, lower: Seq<char>)
    ensures
        shown_words(Seq::empty(), lower).len() == 0,
        shown_words(words.push(word), lower).len() == shown_words(words, lower).len() + (if occurs(
            lower,
            word,
        ) {
            1nat
        } else {
            0
        }),
{
    reveal(Seq::filter);
    assert(words.push(word).drop_last() =~= words);
}

/// Each code marker counts exactly where it occurs, be it in the text as written or in
/// lower case.
pub proof fn law_each_marker_counts(
    markers: Seq<Seq<char>>,
    marker: Seq<char>,
    text: Seq<char>,
    lower: Seq<char>,
)
    ensures
        shown_markers(Seq::empty(), text, lower).len() == 0,
        shown_markers(markers.push(marker), text, lower).len() == shown_markers(
            markers,
            text,
            lower,
        ).len() + (if occurs(text, marker) || occurs(lower, marker) {
            1nat
        } else {
            0
        }),
{
    reveal(Seq::filter);
    assert(markers.push(marker).drop_last() =~= markers);
}

/// The criteria add up: what each list of words adds to the score of the bare length, and
/// 5 for an image.
pub proof fn law_criteria_add_up(
    text: Seq<char>,
    lower: Seq<char>,
    image: bool,
    keywords: ScoringKeywords,
    code: ScoringKeywords,
    technical: ScoringKeywords,
    questions: ScoringKeywords,
    none: ScoringKeywords,
)
    requires
        code.code_markers == keywords.code_markers,
        code.technical_keywords@.len() == 0,
        code.question_words@.len() == 0,
        technical.code_markers@.len() == 0,
        technical.technical_keywords == keywords.technical_keywords,
        technical.question_words@.len() == 0,
        questions.code_markers@.len() == 0,
        questions.technical_keywords@.len() == 0,
        questions.question_words == keywords.question_words,
        none.code_markers@.len() == 0,
        none.technical_keywords@.len() == 0,
        none.question_words@.len() == 0,
    ensures
        prompt_score(text, lower, image, keywords) - prompt_score(text, lower, false, none) == (
        prompt_score(text, lower, false, code) - prompt_score(text, lower, false, none)) + (
        prompt_score(text, lower, false, technical) - prompt_score(text, lower, false, none)) + (
        prompt_score(text, lower, false, questions) - prompt_score(text, lower, false, none)) + (
        if image {
            5int
        } else {
            0
        }),
{
    reveal(Seq::filter);
}

/// Without words to look for, the length alone scores: more than 300, 800 and 2000
/// characters are worth 1, 2 and 3 points.
pub proof fn law_length_scores(text: Seq<char>, lower: Seq<char>, none: ScoringKeywords)
    requires
        none.code_markers@.len() == 0,
        none.technical_keywords@.len() == 0,
        none.question_words@.len() == 0,
    ensures
        text.len() <= 300 ==> prompt_score(text, lower, false, none) == 0,
        300 < text.len() <= 800 ==> prompt_score(text, lower, false, none) == 1,
        800 < text.len() <= 2000 ==> prompt_score(text, lower, false, none) == 2,
        2000 < text.len() ==> prompt_score(text, lower, false, none) == 3,
{
    reveal(Seq::filter);
}

/// Code adds 2 points where one or two of the markers occur, and 3 points from the third
/// on. The number of markers that occur is the given one.
pub proof fn law_code_scores(
    text: Seq<char>,
    lower: Seq<char>,
    code: ScoringKeywords,
    none: ScoringKeywords,
    shown: nat,
)
    requires
        code.technical_keywords@.len() == 0,
        code.question_words@.len() == 0,
        none.code_markers@.len() == 0,
        none.technical_keywords@.len() == 0,
        none.question_words@.len() == 0,
        shown == shown_markers(views(code.code_markers@), text, lower).len(),
    ensures
        prompt_score(text, lower, false, code) - prompt_score(text, lower, false, none) == (
        if shown == 0 {
            0int
        } else if shown <= 2 {
            2
        } else {
            3
        }),
{
    reveal(Seq::filter);
}

/// Technical keywords add 1 point where one occurs, 2 points where two or three do, and 3
/// points from the fourth on. The number of keywords that occur is the given one.
pub proof fn law_technical_keywords_score(
    text: Seq<char>,
    lower: Seq<char>,
    technical: ScoringKeywords,
    none: ScoringKeywords,
    shown: nat,
)
    requires
        technical.code_markers@.len() == 0,
        technical.question_words@.len() == 0,
        none.code_markers@.len() == 0,
        none.technical_keywords@.len() == 0,
        none.question_words@.len() == 0,
        shown == shown_words(views(technical.technical_keywords@), lower).len(),
    ensures
        prompt_score(text, lower, false, technical) - prompt_score(text, lower, false, none) == (
        if shown <= 1 {
            shown as int
        } else if shown <= 3 {
            2
        } else {
            3
        }),
{
    reveal(Seq::filter);
}

/// A question adds 1 point: there is a Latin or Arabic question mark in the text, and one
/// of the question words in its lower-case form. Neither is enough without the other.
pub proof fn law_question_scores(
    text: Seq<char>,
    lower: Seq<char>,
    questions: ScoringKeywords,
    none: ScoringKeywords,
    at: int,
    k: int,
)
    requires
        questions.code_markers@.len() == 0,
        questions.technical_keywords@.len() == 0,
        none.code_markers@.len() == 0,
        none.technical_keywords@.len() == 0,
        none.question_words@.len() == 0,
    ensures
        0 <= at < text.len() && (text[at] == '?' || text[at] == '\u{61f}') && 0 <= k
            < questions.question_words@.len() && occurs(lower, questions.question_words@[k]@)
            ==> prompt_score(text, lower, false, questions) == prompt_score(
            text,
            lower,
            false,
            none,
        ) + 1,
        (forall|j: int|
            0 <= j < text.len() ==> #[trigger] text[j] != '?' && text[j] != '\u{61f}')
            ==> prompt_score(text, lower, false, questions) == prompt_score(
            text,
            lower,
            false,
            none,
        ),
        (forall|j: int|
            0 <= j < questions.question_words@.len() ==> !occurs(
                lower,
                (#[trigger] questions.question_words@[j])@,
            )) ==> prompt_score(text, lower, false, questions) == prompt_score(
            text,
            lower,
            false,
            none,
        ),
{
    reveal(Seq::filter);
    let words = views(questions.question_words@);
    if 0 <= k < words.len() && occurs(lower, questions.question_words@[k]@) {
        assert(occurs(lower, words[k]));
    }
    if 0 <= at < text.len() {
        assert(text.contains(text[at]));
    }
    if forall|j: int|
        0 <= j < questions.question_words@.len() ==> !occurs(
            lower,
            (#[trigger] questions.question_words@[j])@,
        ) {
        assert forall|j: int| 0 <= j < words.len() implies !occurs(
            lower,
            #[trigger] words[j],
        ) by {
            assert(words[j] == questions.question_words@[j]@);
        }
    }
}

} // verus!
