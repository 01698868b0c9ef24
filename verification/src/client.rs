//! Request and response logic of the SDK client: the system hint, the
//! per-method prompt texts, wire message assembly, and the shaping of raw
//! completions into the library's response types.

use vstd::prelude::*;
use vstd::string::*;

use crate::chat_completions::{
    ChatCompletionContentPart, ChatCompletionContentPartImage, ChatCompletionContentPartText,
    ChatCompletionContentPartVideo, ChatCompletionMessage, ChatCompletionSystemMessage,
    ChatCompletionSystemMessageContent, ChatCompletionUserMessage,
    ChatCompletionUserMessageContent, CreateChatCompletionResponse, ImageUrl, VideoUrl,
};
use crate::media::{media_type_of_media, url_of_media, Media, MediaType};
use crate::pointing::{extract, spec_extract};
use crate::types::{CaptionStyle, OcrMode, OutputFormat, PointingResponse, TextResponse};

verus! {

/// The hint tag placed in the system prompt for an output format and the
/// reasoning switch; absent when neither asks for one.
pub open spec fn hint_of(format: Option<&OutputFormat>, reasoning: Option<bool>) -> Option<
    Seq<char>,
> {
    let think = reasoning == Some(true);
    match format {
        Some(OutputFormat::Point) => if think {
            Some("<hint>POINT THINK</hint>"@)
        } else {
            Some("<hint>POINT</hint>"@)
        },
        Some(OutputFormat::Box) => if think {
            Some("<hint>BOX THINK</hint>"@)
        } else {
            Some("<hint>BOX</hint>"@)
        },
        Some(OutputFormat::Polygon) => if think {
            Some("<hint>POLYGON THINK</hint>"@)
        } else {
            Some("<hint>POLYGON</hint>"@)
        },
        _ => if think {
            Some("<hint>THINK</hint>"@)
        } else {
            None
        },
    }
}

/// The hint tag for the system prompt: the output format's keyword and
/// `THINK` when reasoning is enabled, or nothing when neither applies.
pub fn system_hint(output_format: Option<&OutputFormat>, enable_reasoning: Option<bool>) -> (r:
    Option<String>)
    ensures
        match r {
            Some(s) => hint_of(output_format, enable_reasoning) == Some(s@),
            None => hint_of(output_format, enable_reasoning) is None,
        },
{
    let think = match enable_reasoning {
        Some(b) => b,
        None => false,
    };
    match output_format {
        Some(OutputFormat::Point) => if think {
            Some("<hint>POINT THINK</hint>".to_owned())
        } else {
            Some("<hint>POINT</hint>".to_owned())
        },
        Some(OutputFormat::Box) => if think {
            Some("<hint>BOX THINK</hint>".to_owned())
        } else {
            Some("<hint>BOX</hint>".to_owned())
        },
        Some(OutputFormat::Polygon) => if think {
            Some("<hint>POLYGON THINK</hint>".to_owned())
        } else {
            Some("<hint>POLYGON</hint>".to_owned())
        },
        _ => if think {
            Some("<hint>THINK</hint>".to_owned())
        } else {
            None
        },
    }
}

/// The user prompt of a caption request for each style.
pub open spec fn caption_text_of(style: CaptionStyle) -> Seq<char> {
    match style {
        CaptionStyle::Concise => "Provide a concise, human-friendly caption for the upcoming image."@,
        CaptionStyle::Detailed => "Provide a detailed caption describing key objects, relationships, and context in the upcoming image."@,
    }
}

/// The user prompt sent for a caption request.
pub fn caption_user_text(style: &CaptionStyle) -> (r: String)
    ensures
        r@ == caption_text_of(*style),
{
    match style {
        CaptionStyle::Concise => "Provide a concise, human-friendly caption for the upcoming image.".to_owned(),
        CaptionStyle::Detailed => "Provide a detailed caption describing key objects, relationships, and context in the upcoming image.".to_owned(),
    }
}

/// The fixed system prompt of an OCR request.
pub open spec fn ocr_system_of() -> Seq<char> {
    "You are an OCR (Optical Character Recognition) system. Accurately detect, extract, and transcribe all readable text from the image."@
}

/// The fixed system prompt sent for an OCR request.
pub fn ocr_system_prompt() -> (r: String)
    ensures
        r@ == ocr_system_of(),
{
    "You are an OCR (Optical Character Recognition) system. Accurately detect, extract, and transcribe all readable text from the image.".to_owned()
}

/// The user prompt of an OCR request for each mode; plain mode sends none.
pub open spec fn ocr_text_of(mode: OcrMode) -> Option<Seq<char>> {
    match mode {
        OcrMode::Plain => None,
        OcrMode::Markdown => Some(
            "Transcribe every readable word in the image using Markdown formatting with headings, lists, tables, and other structural elements as appropriate."@,
        ),
        OcrMode::Html => Some("Transcribe every readable word in the image using HTML markup."@),
    }
}

/// The user prompt sent for an OCR request, if the mode calls for one.
pub fn ocr_user_text(mode: &OcrMode) -> (r: Option<String>)
    ensures
        match r {
            Some(s) => ocr_text_of(*mode) == Some(s@),
            None => ocr_text_of(*mode) is None,
        },
{
    match mode {
        OcrMode::Plain => None,
        OcrMode::Markdown => Some(
            "Transcribe every readable word in the image using Markdown formatting with headings, lists, tables, and other structural elements as appropriate.".to_owned(),
        ),
        OcrMode::Html => Some(
            "Transcribe every readable word in the image using HTML markup.".to_owned(),
        ),
    }
}

/// The first `k` of the given strings joined with a comma and a space.
pub open spec fn joined_upto(items: Seq<Seq<char>>, k: int) -> Seq<char>
    decreases k when 0 <= k
{
    if k <= 0 {
        Seq::empty()
    } else if k == 1 {
        items[0]
    } else {
        joined_upto(items, k - 1) + ", "@ + items[k - 1]
    }
}

/// The domain system prompt of a detect request: naming the requested
/// categories when any are given, else the general prompt.
pub open spec fn detect_prompt_of(classes: Option<Seq<Seq<char>>>) -> Seq<char> {
    match classes {
        Some(cs) => if cs.len() > 0 {
            "Your goal is to segment out the following categories: "@ + joined_upto(
                cs,
                cs.len() as int,
            )
        } else {
            "Your goal is to segment out the objects in the scene"@
        },
        None => "Your goal is to segment out the objects in the scene"@,
    }
}

/// The domain system prompt sent for a detect request.
pub fn detect_system_prompt(classes: &Option<Vec<String>>) -> (r: String)
    ensures
        r@ == detect_prompt_of(classes.deep_view()),
{
    match classes {
        Some(cs) => {
            if cs.len() > 0 {
                let mut s = "Your goal is to segment out the following categories: ".to_owned();
                let ghost cs_v = cs.deep_view();
                let mut k: usize = 0;
                while k < cs.len()
                    invariant
                        cs_v == cs.deep_view(),
                        k <= cs@.len(),
                        s@ == "Your goal is to segment out the following categories: "@
                            + joined_upto(cs_v, k as int),
                    decreases cs@.len() - k,
                {
                    if k > 0 {
                        s.append(", ");
                    }
                    s.append(cs[k].as_str());
                    k = k + 1;
                }
                s
            } else {
                "Your goal is to segment out the objects in the scene".to_owned()
            }
        },
        None => "Your goal is to segment out the objects in the scene".to_owned(),
    }
}

/// The text of a system message, if the message is one.
pub open spec fn system_text_of(m: ChatCompletionMessage) -> Option<Seq<char>> {
    match m {
        ChatCompletionMessage::System(s) => match s.content {
            ChatCompletionSystemMessageContent::Text(t) => Some(t@),
        },
        _ => None,
    }
}

/// The content part carries the media's URL in the part variant matching
/// the media's type.
pub open spec fn media_part_ok(p: ChatCompletionContentPart, media: Media) -> bool {
    match media_type_of_media(media) {
        MediaType::Image => p matches ChatCompletionContentPart::ImageUrl(img)
            && img.image_url.url@ == url_of_media(media),
        MediaType::Video => p matches ChatCompletionContentPart::VideoUrl(v)
            && v.video_url.url@ == url_of_media(media),
    }
}

/// The user message holds the media part first, then the user text, if any.
pub open spec fn user_msg_ok(
    m: ChatCompletionMessage,
    media: Media,
    user_text: Option<Seq<char>>,
) -> bool {
    &&& m matches ChatCompletionMessage::User(u)
    &&& u.content matches ChatCompletionUserMessageContent::Array(parts)
    &&& match user_text {
        None => parts@.len() == 1 && media_part_ok(parts@[0], media),
        Some(t) => {
            &&& parts@.len() == 2
            &&& media_part_ok(parts@[0], media)
            &&& parts@[1] matches ChatCompletionContentPart::Text(tp) && tp.text@ == t
        },
    }
}

/// The message list of a request: one system message per prompt, in order,
/// then the user message with the media and the optional user text.
pub open spec fn wire_messages_ok(
    r: Seq<ChatCompletionMessage>,
    media: Media,
    prompts: Seq<Seq<char>>,
    user_text: Option<Seq<char>>,
) -> bool {
    &&& r.len() == prompts.len() + 1
    &&& forall|k: int| 0 <= k < prompts.len() ==> system_text_of(#[trigger] r[k]) == Some(
        prompts[k],
    )
    &&& user_msg_ok(r[prompts.len() as int], media, user_text)
}

/// Assemble the wire messages of a request: the system prompts in order,
/// then one user message holding the media part and the user text, if any.
pub fn build_wire_messages(
    media: &Media,
    system_prompts: Vec<String>,
    user_text: Option<String>,
) -> (r: Vec<ChatCompletionMessage>)
    ensures
        wire_messages_ok(r@, *media, system_prompts.deep_view(), user_text.deep_view()),
{
    let ghost prompts_v = system_prompts.deep_view();
    let mut messages: Vec<ChatCompletionMessage> = Vec::new();
    let mut k: usize = 0;
    while k < system_prompts.len()
        invariant
            prompts_v == system_prompts.deep_view(),
            k <= system_prompts@.len(),
            messages@.len() == k,
            forall|j: int| 0 <= j < k ==> system_text_of(#[trigger] messages@[j]) == Some(
                prompts_v[j],
            ),
        decreases system_prompts@.len() - k,
    {
        let prompt = system_prompts[k].clone();
        messages.push(
            ChatCompletionMessage::System(
                ChatCompletionSystemMessage {
                    content: ChatCompletionSystemMessageContent::Text(prompt),
                },
            ),
        );
        k = k + 1;
    }
    let media_url = media.to_url();
    let media_part = match media.media_type() {
        MediaType::Image => ChatCompletionContentPart::ImageUrl(
            ChatCompletionContentPartImage { image_url: ImageUrl { url: media_url } },
        ),
        MediaType::Video => ChatCompletionContentPart::VideoUrl(
            ChatCompletionContentPartVideo { video_url: VideoUrl { url: media_url } },
        ),
    };
    let mut user_parts: Vec<ChatCompletionContentPart> = Vec::new();
    user_parts.push(media_part);
    match user_text {
        Some(text) => {
            user_parts.push(
                ChatCompletionContentPart::Text(ChatCompletionContentPartText { text }),
            );
        },
        None => {},
    }
    messages.push(
        ChatCompletionMessage::User(
            ChatCompletionUserMessage {
                content: ChatCompletionUserMessageContent::Array(user_parts),
            },
        ),
    );
    messages
}

/// Shape a raw completion into a text response: the first choice's content
/// and reasoning, or an empty response when there is no choice.
pub fn text_response_of(completion: CreateChatCompletionResponse) -> (r: TextResponse)
    ensures
        completion.choices@.len() == 0 ==> r.content is None && r.reasoning is None,
        completion.choices@.len() > 0 ==> {
            &&& r.content == completion.choices@[0].message.content
            &&& r.reasoning == completion.choices@[0].message.reasoning_content
        },
{
    let mut choices = completion.choices;
    if choices.len() > 0 {
        let choice = choices.remove(0);
        TextResponse { content: choice.message.content, reasoning: choice.message.reasoning_content }
    } else {
        TextResponse { content: None, reasoning: None }
    }
}

/// Shape a raw completion into a pointing response: the first choice's
/// content and reasoning, with annotations extracted from the content for
/// the given output format; an empty response when there is no choice.
pub fn pointing_response_of(
    completion: CreateChatCompletionResponse,
    output_format: &OutputFormat,
) -> (r: PointingResponse)
    ensures
        completion.choices@.len() == 0 ==> r.content is None && r.reasoning is None
            && r.pointing is None,
        completion.choices@.len() > 0 ==> {
            &&& r.content == completion.choices@[0].message.content
            &&& r.reasoning == completion.choices@[0].message.reasoning_content
            &&& r.pointing.deep_view() == (match completion.choices@[0].message.content {
                Some(t) => spec_extract(t@, *output_format),
                None => None,
            })
        },
{
    let mut choices = completion.choices;
    if choices.len() > 0 {
        let choice = choices.remove(0);
        let pointing = match &choice.message.content {
            Some(text) => extract(text.as_str(), output_format),
            None => None,
        };
        PointingResponse {
            content: choice.message.content,
            reasoning: choice.message.reasoning_content,
            pointing,
        }
    } else {
        PointingResponse { content: None, reasoning: None, pointing: None }
    }
}

} // verus!
