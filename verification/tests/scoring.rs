use router_crabs::message::{conversation_text, latest_user_text};
use router_crabs::scoring::score_prompt;
use router_crabs::{score_complexity, ContentPart, Message, MessageContent, ScoringKeywords};

fn message(role: &str, text: &str) -> Message {
    Message {
        role: role.to_string(),
        content: Some(MessageContent::Text(text.to_string())),
    }
}

fn image() -> ContentPart {
    ContentPart::ImageUrl { image_url: serde_json::Value::String("data:,".to_string()) }
}

fn text_part(text: &str) -> ContentPart {
    ContentPart::Text { text: text.to_string() }
}

fn words(list: &[&str]) -> Vec<String> {
    list.iter().map(|w| w.to_string()).collect()
}

fn keywords(code: &[&str], technical: &[&str], questions: &[&str]) -> ScoringKeywords {
    ScoringKeywords {
        code_markers: words(code),
        technical_keywords: words(technical),
        question_words: words(questions),
    }
}

fn score(text: &str, keywords: &ScoringKeywords) -> u32 {
    score_complexity(&[message("user", text)], keywords)
}

#[test]
fn texts_of_messages() {
    assert_eq!(message("user", "hi").text(), "hi");
    let parts = MessageContent::MultiPart(vec![text_part("a"), image(), text_part("b")]);
    assert_eq!(parts.as_text(), "a b");
    assert!(parts.has_image());
    assert_eq!(MessageContent::MultiPart(vec![image()]).as_text(), "");
    assert!(!MessageContent::MultiPart(vec![text_part("a")]).has_image());
    let empty = Message { role: "tool".to_string(), content: None };
    assert_eq!(empty.text(), "");
    assert!(!empty.has_image());
    assert_eq!(conversation_text(&[message("system", "x"), empty, message("user", "y")]), "x  y");
}

#[test]
fn copies_of_parts() {
    match image().clone() {
        ContentPart::ImageUrl { image_url } => assert_eq!(image_url.as_str(), Some("data:,")),
        ContentPart::Text { .. } => unreachable!(),
    }
    match text_part("a").clone() {
        ContentPart::Text { text } => assert_eq!(text, "a"),
        ContentPart::ImageUrl { .. } => unreachable!(),
    }
    let message = Message {
        role: "user".to_string(),
        content: Some(MessageContent::MultiPart(vec![text_part("a"), image()])),
    };
    let copy = message.clone();
    assert_eq!(copy.text(), "a");
    assert!(copy.has_image());
}

#[test]
fn last_user_message() {
    let messages = [
        message("user", "first"),
        message("assistant", "answer"),
        message("user", "second"),
        message("assistant", "third"),
    ];
    assert_eq!(latest_user_text(&messages), "second");
    assert_eq!(latest_user_text(&messages[3..]), "");
    assert_eq!(latest_user_text(&[message("User", "x")]), "");
}

#[test]
fn technical_prompt_scores_high() {
    let messages = vec![message("user", "Explain microservices architecture, compare tradeoffs.")];
    assert!(score_complexity(&messages, &ScoringKeywords::default()) >= 3);
}

#[test]
fn greeting_scores_nothing() {
    assert_eq!(score("Hello!", &ScoringKeywords::default()), 0);
}

#[test]
fn length_in_characters() {
    let none = keywords(&[], &[], &[]);
    assert_eq!(score(&"x".repeat(300), &none), 0);
    assert_eq!(score(&"x".repeat(301), &none), 1);
    assert_eq!(score(&"x".repeat(800), &none), 1);
    assert_eq!(score(&"x".repeat(801), &none), 2);
    assert_eq!(score(&"x".repeat(2000), &none), 2);
    assert_eq!(score(&"x".repeat(2001), &none), 3);
    assert_eq!(score(&"é".repeat(300), &none), 0);
    assert_eq!(score(&"ش".repeat(301), &none), 1);
}

#[test]
fn code_marker_points() {
    let code = keywords(&["a1", "b2", "c3"], &[], &[]);
    assert_eq!(score("nothing", &code), 0);
    assert_eq!(score("a1", &code), 2);
    assert_eq!(score("a1 b2", &code), 2);
    assert_eq!(score("a1 B2 c3", &code), 3);
}

#[test]
fn upper_case_markers_count_as_written() {
    let defaults = ScoringKeywords::default();
    assert_eq!(score("SELECT x", &defaults), 2);
    assert_eq!(score("select x", &defaults), 0);
    assert_eq!(score("IMPORT x", &defaults), 2);
}

#[test]
fn technical_keyword_points() {
    let technical = keywords(&[], &["t1", "t2", "t3", "t4"], &[]);
    assert_eq!(score("T1", &technical), 1);
    assert_eq!(score("t1 t2", &technical), 2);
    assert_eq!(score("t1 t2 t3", &technical), 2);
    assert_eq!(score("t1 t2 t3 t4", &technical), 3);
}

#[test]
fn repeated_keywords_count_each() {
    let technical = keywords(&[], &["t1", "t1"], &[]);
    assert_eq!(score("t1", &technical), 2);
}

#[test]
fn question_points() {
    let questions = keywords(&[], &[], &["how"]);
    assert_eq!(score("How so?", &questions), 1);
    assert_eq!(score("How so", &questions), 0);
    assert_eq!(score("So?", &questions), 0);
    assert_eq!(score("how\u{61f}", &questions), 1);
}

#[test]
fn image_points() {
    let none = keywords(&[], &[], &[]);
    let shown = Message {
        role: "assistant".to_string(),
        content: Some(MessageContent::MultiPart(vec![image()])),
    };
    assert_eq!(score_complexity(&[shown, message("user", "hi")], &none), 5);
}

#[test]
fn history_is_not_scored() {
    let defaults = ScoringKeywords::default();
    let history = [
        message("system", "Explain kubernetes security, debug threads, cache memory."),
        message("user", "Explain kubernetes security, debug threads, cache memory."),
        message("user", "Hello!"),
        message("assistant", "Explain kubernetes security, debug threads, cache memory."),
    ];
    assert_eq!(score_complexity(&history, &defaults), 0);
    assert_eq!(score_complexity(&history[..2], &defaults), 3);
    assert_eq!(score_complexity(&history[..1], &defaults), 0);
    assert_eq!(score_complexity(&[], &defaults), 0);
}

#[test]
fn highest_score() {
    let all = keywords(&["a", "b", "c"], &["a", "b", "c", "d"], &["a"]);
    let text = format!("abcd? {}", "x".repeat(2000));
    assert_eq!(score_prompt(&text, &text, true, &all), 15);
    assert_eq!(score_prompt(&text, &text, false, &all), 10);
    assert_eq!(score_prompt("", "", false, &all), 0);
}

#[test]
fn lower_case_form_is_an_argument() {
    let technical = keywords(&[], &["low"], &[]);
    assert_eq!(score_prompt("HIGH", "low", false, &technical), 1);
    assert_eq!(score_prompt("low", "high", false, &technical), 0);
}

#[test]
fn longer_text_scores_no_less() {
    let keywords = ScoringKeywords::default();
    let text = "Why is it slow? ".repeat(20) + "fn main() { debug async docker }" + &"x".repeat(2000);
    let mut last = 0;
    for end in (0..text.len()).step_by(7) {
        let points = score(&text[..end], &keywords);
        assert!(points >= last);
        last = points;
    }
    assert!(last >= 3);
}
