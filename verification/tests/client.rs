use perceptron::chat_completions::{
    ChatCompletionChoice, ChatCompletionContentPart, ChatCompletionMessage,
    ChatCompletionResponseMessage, ChatCompletionSystemMessageContent,
    ChatCompletionUserMessageContent, CreateChatCompletionResponse,
};
use perceptron::client::{
    build_wire_messages, caption_user_text, detect_system_prompt, ocr_system_prompt,
    ocr_user_text, pointing_response_of, system_hint, text_response_of,
};
use perceptron::media::Media;
use perceptron::types::{CaptionStyle, OcrMode, OutputFormat, Pointing};

#[test]
fn system_hint_formats() {
    assert_eq!(
        system_hint(Some(&OutputFormat::Point), None),
        Some("<hint>POINT</hint>".to_string())
    );
    assert_eq!(
        system_hint(Some(&OutputFormat::Box), Some(false)),
        Some("<hint>BOX</hint>".to_string())
    );
    assert_eq!(
        system_hint(Some(&OutputFormat::Polygon), None),
        Some("<hint>POLYGON</hint>".to_string())
    );
    assert_eq!(system_hint(Some(&OutputFormat::Text), None), None);
    assert_eq!(system_hint(None, None), None);
}

#[test]
fn system_hint_with_reasoning() {
    assert_eq!(
        system_hint(Some(&OutputFormat::Box), Some(true)),
        Some("<hint>BOX THINK</hint>".to_string())
    );
    assert_eq!(
        system_hint(Some(&OutputFormat::Point), Some(true)),
        Some("<hint>POINT THINK</hint>".to_string())
    );
    assert_eq!(system_hint(None, Some(true)), Some("<hint>THINK</hint>".to_string()));
    assert_eq!(
        system_hint(Some(&OutputFormat::Text), Some(true)),
        Some("<hint>THINK</hint>".to_string())
    );
}

#[test]
fn caption_prompts() {
    assert_eq!(
        caption_user_text(&CaptionStyle::Concise),
        "Provide a concise, human-friendly caption for the upcoming image."
    );
    assert_eq!(
        caption_user_text(&CaptionStyle::Detailed),
        "Provide a detailed caption describing key objects, relationships, and context in the upcoming image."
    );
}

#[test]
fn ocr_prompts() {
    assert_eq!(
        ocr_system_prompt(),
        "You are an OCR (Optical Character Recognition) system. Accurately detect, extract, and transcribe all readable text from the image."
    );
    assert_eq!(ocr_user_text(&OcrMode::Plain), None);
    assert_eq!(
        ocr_user_text(&OcrMode::Markdown),
        Some("Transcribe every readable word in the image using Markdown formatting with headings, lists, tables, and other structural elements as appropriate.".to_string())
    );
    assert_eq!(
        ocr_user_text(&OcrMode::Html),
        Some("Transcribe every readable word in the image using HTML markup.".to_string())
    );
}

#[test]
fn detect_prompt_without_classes() {
    assert_eq!(
        detect_system_prompt(&None),
        "Your goal is to segment out the objects in the scene"
    );
    assert_eq!(
        detect_system_prompt(&Some(vec![])),
        "Your goal is to segment out the objects in the scene"
    );
}

#[test]
fn detect_prompt_with_classes() {
    assert_eq!(
        detect_system_prompt(&Some(vec!["cat".to_string(), "dog".to_string()])),
        "Your goal is to segment out the following categories: cat, dog"
    );
    assert_eq!(
        detect_system_prompt(&Some(vec!["tree".to_string()])),
        "Your goal is to segment out the following categories: tree"
    );
}

#[test]
fn wire_messages_shape() {
    let media = Media::image_url("https://example.com/img.jpg");
    let messages = build_wire_messages(
        &media,
        vec!["<hint>BOX</hint>".to_string()],
        Some("Describe this".to_string()),
    );
    assert_eq!(messages.len(), 2);
    match &messages[0] {
        ChatCompletionMessage::System(s) => {
            let ChatCompletionSystemMessageContent::Text(t) = &s.content;
            assert_eq!(t, "<hint>BOX</hint>");
        }
        other => panic!("expected a system message, got {:?}", other),
    }
    match &messages[1] {
        ChatCompletionMessage::User(u) => match &u.content {
            ChatCompletionUserMessageContent::Array(parts) => {
                assert_eq!(parts.len(), 2);
                match &parts[0] {
                    ChatCompletionContentPart::ImageUrl(img) => {
                        assert_eq!(img.image_url.url, "https://example.com/img.jpg");
                    }
                    other => panic!("expected an image part, got {:?}", other),
                }
                match &parts[1] {
                    ChatCompletionContentPart::Text(t) => assert_eq!(t.text, "Describe this"),
                    other => panic!("expected a text part, got {:?}", other),
                }
            }
            other => panic!("expected an array content, got {:?}", other),
        },
        other => panic!("expected a user message, got {:?}", other),
    }
}

#[test]
fn wire_messages_video_without_text() {
    let media = Media::video_url("https://example.com/vid.mp4");
    let messages = build_wire_messages(&media, vec![], None);
    assert_eq!(messages.len(), 1);
    match &messages[0] {
        ChatCompletionMessage::User(u) => match &u.content {
            ChatCompletionUserMessageContent::Array(parts) => {
                assert_eq!(parts.len(), 1);
                match &parts[0] {
                    ChatCompletionContentPart::VideoUrl(v) => {
                        assert_eq!(v.video_url.url, "https://example.com/vid.mp4");
                    }
                    other => panic!("expected a video part, got {:?}", other),
                }
            }
            other => panic!("expected an array content, got {:?}", other),
        },
        other => panic!("expected a user message, got {:?}", other),
    }
}

fn one_choice_completion(content: Option<&str>, reasoning: Option<&str>) -> CreateChatCompletionResponse {
    CreateChatCompletionResponse {
        choices: vec![ChatCompletionChoice {
            message: ChatCompletionResponseMessage {
                content: content.map(|s| s.to_string()),
                reasoning_content: reasoning.map(|s| s.to_string()),
            },
        }],
    }
}

#[test]
fn text_response_takes_first_choice() {
    let r = text_response_of(one_choice_completion(Some("a cat"), Some("I see fur")));
    assert_eq!(r.content, Some("a cat".to_string()));
    assert_eq!(r.reasoning, Some("I see fur".to_string()));
}

#[test]
fn text_response_empty_choices() {
    let r = text_response_of(CreateChatCompletionResponse { choices: vec![] });
    assert_eq!(r.content, None);
    assert_eq!(r.reasoning, None);
}

#[test]
fn pointing_response_extracts_from_content() {
    let completion = one_choice_completion(
        Some("<point mention=\"cat\"> (100,200) </point>"),
        Some("I see fur"),
    );
    let r = pointing_response_of(completion, &OutputFormat::Point);
    assert_eq!(r.content, Some("<point mention=\"cat\"> (100,200) </point>".to_string()));
    assert_eq!(r.reasoning, Some("I see fur".to_string()));
    match r.pointing {
        Some(Pointing::Points(points)) => {
            assert_eq!(points.len(), 1);
            assert_eq!(points[0].x, 100);
            assert_eq!(points[0].y, 200);
            assert_eq!(points[0].mention, Some("cat".to_string()));
        }
        other => panic!("expected points, got {:?}", other),
    }
}

#[test]
fn pointing_response_text_format_has_no_pointing() {
    let completion = one_choice_completion(Some("<point> (1,2) </point>"), None);
    let r = pointing_response_of(completion, &OutputFormat::Text);
    assert_eq!(r.pointing, None);
}

#[test]
fn pointing_response_empty_choices() {
    let r = pointing_response_of(
        CreateChatCompletionResponse { choices: vec![] },
        &OutputFormat::Box,
    );
    assert_eq!(r.content, None);
    assert_eq!(r.reasoning, None);
    assert_eq!(r.pointing, None);
}
