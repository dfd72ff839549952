//! Chat messages in the format of the OpenAI API.

use crate::json::contents;
use crate::text::{join, joined, law_joining, views};
use vstd::prelude::*;

verus! {

/// A chat request.
#[derive(Debug)]
pub struct ChatRequest {
    pub messages: Vec<Message>,
    pub stream: Option<bool>,
}

/// A message in a conversation.
#[derive(Debug, Clone)]
pub struct Message {
    pub role: String,
    /// Message content. `None` for tool calls.
    pub content: Option<MessageContent>,
}

/// Message content: plain text or a multimodal array.
#[derive(Debug, Clone)]
pub enum MessageContent {
    /// Plain text
    Text(String),
    /// Multimodal content (text and images)
    MultiPart(Vec<ContentPart>),
}

/// A part of multimodal content.
#[derive(Debug)]
pub enum ContentPart {
    Text { text: String },
    ImageUrl { image_url: serde_json::Value },
}

impl Clone for ContentPart {
    fn clone(&self) -> (res: Self)
        ensures
            match (*self, res) {
                (ContentPart::Text { text: a }, ContentPart::Text { text: b }) => a == b,
                (
                    ContentPart::ImageUrl { image_url: a },
                    ContentPart::ImageUrl { image_url: b },
                ) => contents(a) == contents(b),
                _ => false,
            },
    {
        match self {
            ContentPart::Text { text } => ContentPart::Text { text: text.clone() },
            ContentPart::ImageUrl { image_url } => ContentPart::ImageUrl {
                image_url: image_url.clone(),
            },
        }
    }
}

/// The texts among the parts, in order.
pub open spec fn text_parts(parts: Seq<ContentPart>) -> Seq<Seq<char>> {
    parts.filter(|p: ContentPart| p is Text).map_values(|p: ContentPart| p->text@)
}

/// The texts among the parts are those before the last part, and then the last one if
/// it is a text.
proof fn lemma_text_parts_last(parts: Seq<ContentPart>)
    requires
        parts.len() > 0,
    ensures
        text_parts(parts) == if parts.last() is Text {
            text_parts(parts.drop_last()).push(parts.last()->text@)
        } else {
            text_parts(parts.drop_last())
        },
{
    reveal(Seq::filter);
    let kept = parts.drop_last().filter(|p: ContentPart| p is Text);
    assert(kept.push(parts.last()).map_values(|p: ContentPart| p->text@) =~= kept.map_values(
        |p: ContentPart| p->text@,
    ).push(parts.last()->text@));
}

impl MessageContent {
    /// The textual content: the text itself, or the textual parts with one space
    /// between each two of them.
    pub open spec fn text_view(self) -> Seq<char> {
        match self {
            MessageContent::Text(s) => s@,
            MessageContent::MultiPart(parts) => joined(text_parts(parts@), " "@),
        }
    }

    /// One of the parts is an image.
    pub open spec fn shows_image(self) -> bool {
        match self {
            MessageContent::Text(_) => false,
            MessageContent::MultiPart(parts) => exists|k: int|
                0 <= k < parts@.len() && #[trigger] parts@[k] is ImageUrl,
        }
    }

    /// Extracts the textual content, regardless of variant.
    pub fn as_text(&self) -> (res: String)
        ensures
            res@ == self.text_view(),
    {
        match self {
            MessageContent::Text(s) => s.clone(),
            MessageContent::MultiPart(parts) => {
                let mut texts: Vec<String> = Vec::new();
                let mut k: usize = 0;
                while k < parts.len()
                    invariant
                        k <= parts@.len(),
                        views(texts@) == text_parts(parts@.take(k as int)),
                    decreases parts@.len() - k,
                {
                    let ghost before = texts@;
                    if let ContentPart::Text { text } = &parts[k] {
                        texts.push(text.clone());
                    }
                    proof {
                        let next = parts@.take(k + 1);
                        assert(next.drop_last() =~= parts@.take(k as int));
                        assert(next.last() == parts@[k as int]);
                        lemma_text_parts_last(next);
                        assert(texts@.len() > before.len() ==> views(texts@) =~= views(before).push(
                            texts@.last()@,
                        ));
                    }
                    k += 1;
                }
                assert(parts@.take(k as int) =~= parts@);
                join(texts.as_slice(), " ")
            },
        }
    }

    /// Whether one of the parts is an image.
    pub fn has_image(&self) -> (res: bool)
        ensures
            res == self.shows_image(),
    {
        match self {
            MessageContent::Text(_) => false,
            MessageContent::MultiPart(parts) => {
                let mut k: usize = 0;
                while k < parts.len()
                    invariant
                        *self == MessageContent::MultiPart(*parts),
                        k <= parts@.len(),
                        forall|j: int| 0 <= j < k ==> !(#[trigger] parts@[j] is ImageUrl),
                    decreases parts@.len() - k,
                {
                    if let ContentPart::ImageUrl { .. } = &parts[k] {
                        assert(parts@[k as int] is ImageUrl);
                        return true;
                    }
                    k += 1;
                }
                false
            },
        }
    }
}

impl Message {
    /// The text of the message; empty where it has no content.
    pub open spec fn text_view(self) -> Seq<char> {
        match self.content {
            Some(c) => c.text_view(),
            None => Seq::empty(),
        }
    }

    /// The message shows an image.
    pub open spec fn shows_image(self) -> bool {
        match self.content {
            Some(c) => c.shows_image(),
            None => false,
        }
    }

    /// The message was written by the user.
    pub open spec fn from_user(self) -> bool {
        self.role@ == "user"@
    }

    /// Returns the text content of the message, or `""` if empty.
    pub fn text(&self) -> (res: String)
        ensures
            res@ == self.text_view(),
    {
        match &self.content {
            Some(c) => c.as_text(),
            None => String::new(),
        }
    }

    /// Whether the message shows an image.
    pub fn has_image(&self) -> (res: bool)
        ensures
            res == self.shows_image(),
    {
        match &self.content {
            Some(c) => c.has_image(),
            None => false,
        }
    }

    /// Whether the message was written by the user.
    pub fn is_from_user(&self) -> (res: bool)
        ensures
            res == self.from_user(),
            res == (self.role@ == "user"@),
    {
        self.role == "user".to_owned()
    }
}

/// The texts of the messages, in order.
pub open spec fn message_texts(messages: Seq<Message>) -> Seq<Seq<char>> {
    messages.map_values(|m: Message| m.text_view())
}

/// The text of the whole conversation: the messages' texts with one space between
/// each two of them.
pub open spec fn full_text(messages: Seq<Message>) -> Seq<char> {
    joined(message_texts(messages), " "@)
}

/// The text of the last message that the user wrote; empty where there is none.
pub open spec fn last_user_text(messages: Seq<Message>) -> Seq<char>
    decreases messages.len(),
{
    if messages.len() == 0 {
        Seq::empty()
    } else if messages.last().from_user() {
        messages.last().text_view()
    } else {
        last_user_text(messages.drop_last())
    }
}

/// Some message of the conversation shows an image.
pub open spec fn any_image(messages: Seq<Message>) -> bool {
    exists|k: int| 0 <= k < messages.len() && (#[trigger] messages[k]).shows_image()
}

/// The text of the whole conversation.
pub fn conversation_text(messages: &[Message]) -> (res: String)
    ensures
        res@ == full_text(messages@),
{
    let mut texts: Vec<String> = Vec::new();
    let mut k: usize = 0;
    while k < messages.len()
        invariant
            k <= messages@.len(),
            texts@.len() == k,
            forall|j: int| 0 <= j < k ==> (#[trigger] texts@[j])@ == messages@[j].text_view(),
        decreases messages@.len() - k,
    {
        texts.push(messages[k].text());
        k += 1;
    }
    assert(views(texts@) =~= message_texts(messages@));
    join(texts.as_slice(), " ")
}

/// The text of the last message that the user wrote.
pub fn latest_user_text(messages: &[Message]) -> (res: String)
    ensures
        res@ == last_user_text(messages@),
{
    let mut k: usize = messages.len();
    assert(messages@.take(k as int) =~= messages@);
    while k > 0
        invariant
            k <= messages@.len(),
            last_user_text(messages@) == last_user_text(messages@.take(k as int)),
        decreases k,
    {
        let ghost shown = messages@.take(k as int);
        assert(shown.last() == messages@[k - 1]);
        assert(shown.drop_last() =~= messages@.take(k - 1));
        k -= 1;
        if messages[k].is_from_user() {
            return messages[k].text();
        }
    }
    String::new()
}

/// Whether some message of the conversation shows an image.
pub fn conversation_has_image(messages: &[Message]) -> (res: bool)
    ensures
        res == any_image(messages@),
{
    let mut k: usize = 0;
    while k < messages.len()
        invariant
            k <= messages@.len(),
            forall|j: int| 0 <= j < k ==> !(#[trigger] messages@[j]).shows_image(),
        decreases messages@.len() - k,
    {
        if messages[k].has_image() {
            return true;
        }
        k += 1;
    }
    false
}

/// Plain text is the text of its message as it stands. A message without content has
/// none, and neither shows an image.
pub proof fn law_plain_text(message: Message)
    ensures
        message.content matches Some(MessageContent::Text(s)) ==> message.text_view() == s@
            && !message.shows_image(),
        message.content is None ==> message.text_view() == Seq::<char>::empty()
            && !message.shows_image(),
{
}

/// A message in parts shows an image exactly where one of the parts is one.
pub proof fn law_image_among_the_parts(message: Message, parts: Vec<ContentPart>)
    requires
        message.content == Some(MessageContent::MultiPart(parts)),
    ensures
        message.shows_image() <==> exists|k: int|
            0 <= k < parts@.len() && (#[trigger] parts@[k] matches ContentPart::ImageUrl { .. }),
{
}

/// A message of one part has the text of that part. An image has none.
pub proof fn law_text_of_one_part(message: Message, parts: Vec<ContentPart>)
    requires
        message.content == Some(MessageContent::MultiPart(parts)),
        parts@.len() == 1,
    ensures
        parts@[0] matches ContentPart::Text { text } ==> message.text_view() == text@,
        parts@[0] is ImageUrl ==> message.text_view() == Seq::<char>::empty(),
{
    lemma_text_parts_last(parts@);
    lemma_texts_of(parts@.drop_last());
}

/// The text of a message in parts is that of the first ones and that of the others, with
/// one space between them where there is a text among both. Images add nothing.
pub proof fn law_text_of_parts(
    first: Vec<ContentPart>,
    second: Vec<ContentPart>,
    all: Vec<ContentPart>,
)
    requires
        all@ == first@ + second@,
    ensures
        (exists|k: int| 0 <= k < first@.len() && #[trigger] first@[k] is Text) && (exists|k: int|
            0 <= k < second@.len() && #[trigger] second@[k] is Text)
            ==> MessageContent::MultiPart(all).text_view() == MessageContent::MultiPart(
            first,
        ).text_view() + seq![' '] + MessageContent::MultiPart(second).text_view(),
        (forall|k: int| 0 <= k < first@.len() ==> !(#[trigger] first@[k] is Text))
            ==> MessageContent::MultiPart(all).text_view() == MessageContent::MultiPart(
            second,
        ).text_view(),
        (forall|k: int| 0 <= k < second@.len() ==> !(#[trigger] second@[k] is Text))
            ==> MessageContent::MultiPart(all).text_view() == MessageContent::MultiPart(
            first,
        ).text_view(),
{
    reveal_strlit(" ");
    assert(" "@ =~= seq![' ']);
    lemma_texts_of(first@);
    lemma_texts_of(second@);
    lemma_texts_of_both(first@, second@);
    law_joining(text_parts(first@), text_parts(second@), Seq::empty(), " "@);
    let none = Seq::<Seq<char>>::empty();
    assert(none + text_parts(second@) =~= text_parts(second@));
    assert(text_parts(first@) + none =~= text_parts(first@));
    assert(text_parts(first@).len() == 0 ==> text_parts(first@) =~= none);
    assert(text_parts(second@).len() == 0 ==> text_parts(second@) =~= none);
}

/// There are texts among the parts where one of them is a text.
proof fn lemma_texts_of(parts: Seq<ContentPart>)
    ensures
        text_parts(parts).len() > 0 <==> exists|k: int|
            0 <= k < parts.len() && #[trigger] parts[k] is Text,
    decreases parts.len(),
{
    if parts.len() > 0 {
        let front = parts.drop_last();
        lemma_texts_of(front);
        lemma_text_parts_last(parts);
        if exists|k: int| 0 <= k < front.len() && #[trigger] front[k] is Text {
            let k = choose|k: int| 0 <= k < front.len() && #[trigger] front[k] is Text;
            assert(parts[k] is Text);
        }
        if exists|k: int| 0 <= k < parts.len() && #[trigger] parts[k] is Text {
            let k = choose|k: int| 0 <= k < parts.len() && #[trigger] parts[k] is Text;
            if k < front.len() {
                assert(front[k] is Text);
            }
        }
        assert(parts.last() is Text ==> parts[parts.len() - 1] is Text);
    } else {
        reveal(Seq::filter);
    }
}

proof fn lemma_texts_of_both(first: Seq<ContentPart>, second: Seq<ContentPart>)
    ensures
        text_parts(first + second) == text_parts(first) + text_parts(second),
    decreases second.len(),
{
    if second.len() > 0 {
        let all = first + second;
        assert(all.drop_last() =~= first + second.drop_last());
        lemma_texts_of_both(first, second.drop_last());
        lemma_text_parts_last(all);
        lemma_text_parts_last(second);
        assert(text_parts(all) =~= text_parts(first) + text_parts(second));
    } else {
        lemma_texts_of(second);
        assert(first + second =~= first);
        assert(text_parts(first) + text_parts(second) =~= text_parts(first));
    }
}

/// The text of a conversation is that of its first messages, a space, and that of the
/// others. A single message gives its own text.
pub proof fn law_conversation_text(first: Seq<Message>, second: Seq<Message>, message: Message)
    ensures
        full_text(Seq::empty()) == Seq::<char>::empty(),
        full_text(seq![message]) == message.text_view(),
        first.len() > 0 && second.len() > 0 ==> full_text(first + second) == full_text(first)
            + seq![' '] + full_text(second),
{
    reveal_strlit(" ");
    assert(" "@ =~= seq![' ']);
    law_joining(message_texts(first), message_texts(second), message.text_view(), " "@);
    assert(message_texts(Seq::empty()) =~= Seq::<Seq<char>>::empty());
    assert(message_texts(seq![message]) =~= seq![message.text_view()]);
    assert(message_texts(first + second) =~= message_texts(first) + message_texts(second));
}

/// An image is found in whichever part of the conversation it stands.
pub proof fn law_images_anywhere(first: Seq<Message>, second: Seq<Message>, message: Message)
    ensures
        !any_image(Seq::empty()),
        any_image(seq![message]) == message.shows_image(),
        any_image(first + second) == (any_image(first) || any_image(second)),
{
    let all = first + second;
    assert(seq![message][0] == message);
    if any_image(all) {
        let k = choose|k: int| 0 <= k < all.len() && (#[trigger] all[k]).shows_image();
        if k < first.len() {
            assert(first[k].shows_image());
        } else {
            assert(second[k - first.len()].shows_image());
        }
    }
    if any_image(first) {
        let k = choose|k: int| 0 <= k < first.len() && (#[trigger] first[k]).shows_image();
        assert(all[k].shows_image());
    }
    if any_image(second) {
        let k = choose|k: int| 0 <= k < second.len() && (#[trigger] second[k]).shows_image();
        assert(all[first.len() + k].shows_image());
    }
}

/// The last message whose role is `user` gives the text, whatever others say before and
/// after it.
pub proof fn law_last_user_text(before: Seq<Message>, message: Message, after: Seq<Message>)
    requires
        message.role@ == "user"@,
        forall|k: int| 0 <= k < after.len() ==> (#[trigger] after[k]).role@ != "user"@,
    ensures
        last_user_text(before + seq![message] + after) == message.text_view(),
    decreases after.len(),
{
    let all = before + seq![message] + after;
    if after.len() > 0 {
        assert(all.last() == after.last());
        assert(all.drop_last() =~= before + seq![message] + after.drop_last());
        assert(after[after.len() - 1].role@ != "user"@);
        law_last_user_text(before, message, after.drop_last());
    } else {
        assert(all.last() == message);
    }
}

/// Without a message whose role is `user` there is no text of the user.
pub proof fn law_no_user_text(messages: Seq<Message>)
    requires
        forall|k: int| 0 <= k < messages.len() ==> (#[trigger] messages[k]).role@ != "user"@,
    ensures
        last_user_text(messages) == Seq::<char>::empty(),
    decreases messages.len(),
{
    if messages.len() > 0 {
        assert(messages[messages.len() - 1].role@ != "user"@);
        law_no_user_text(messages.drop_last());
    }
}

} // verus!
