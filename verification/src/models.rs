//! Plain data model: the trivia question shapes delivered by the content API
//! and the chat platform's message, command and interaction shapes.
//!
//! The surrounding application converts between these types and the wire
//! formats; the library's contracts speak about their fields directly.

use vstd::prelude::*;

verus! {

/// Optional visual material attached to a question.
#[derive(Debug, Clone)]
pub struct Visuals {
    pub visual_type: String,
    pub svg_content: String,
}

impl Default for Visuals {
    fn default() -> (r: Self)
        ensures
            r.visual_type@ == Seq::<char>::empty(),
            r.svg_content@ == Seq::<char>::empty(),
    {
        Visuals { visual_type: String::new(), svg_content: String::new() }
    }
}

/// A question body.  An absent paragraph is encoded upstream as the literal
/// string `"null"`, so callers must treat that sentinel as "no paragraph".
#[derive(Debug, Clone)]
pub struct Question {
    pub paragraph: String,
    pub question: String,
    pub choices: Choices,
    pub correct_answer: String,
    pub explanation: String,
}

/// The four answer choices, in the fixed order A, B, C, D.
#[derive(Debug, Clone)]
pub struct Choices {
    pub a: String,
    pub b: String,
    pub c: String,
    pub d: String,
}

/// One trivia question as the content API delivers it.
#[derive(Debug, Clone)]
pub struct SATQuestion {
    pub id: String,
    pub domain: String,
    pub visuals: Visuals,
    pub question: Question,
    pub difficulty: String,
}

/// The batch envelope of the content API: an ordered sequence of questions.
#[derive(Debug)]
pub struct MathResponse {
    pub math: Vec<SATQuestion>,
}

/// One block of an outbound platform message: a text section or a row of
/// interactive controls.
#[derive(Debug, Clone)]
pub struct SlackBlock {
    pub block_type: String,
    pub text: Option<SlackText>,
    pub accessory: Option<SlackElement>,
    pub elements: Option<Vec<SlackElement>>,
}

/// A text object inside a block.
#[derive(Debug, Clone)]
pub struct SlackText {
    pub text_type: String,
    pub text: String,
    pub emoji: Option<bool>,
}

/// An interactive control (button) inside a block.
#[derive(Debug, Clone)]
pub struct SlackElement {
    pub element_type: String,
    pub text: SlackText,
    pub action_id: String,
    pub value: Option<String>,
}

/// The message a button interaction refers back to.
#[derive(Debug, Clone)]
pub struct SlackMessage {
    pub ts: String,
    pub blocks: Vec<SlackMessageBlock>,
}

/// The two fields of a slash-command payload the bot uses.
#[derive(Debug)]
pub struct SlackSlashCommand {
    pub channel_id: String,
    pub response_url: String,
}

/// A parsed button-interaction event.  `actions` and `message` are optional
/// depending on the event subtype.
#[derive(Debug, Clone)]
pub struct SlackInteraction {
    pub interaction_type: String,
    pub user: SlackUser,
    pub actions: Option<Vec<SlackAction>>,
    pub response_url: String,
    pub message: Option<SlackMessage>,
    pub channel: SlackChannel,
}

/// The user who triggered an interaction.
#[derive(Debug, Clone)]
pub struct SlackUser {
    pub id: String,
    pub username: String,
}

/// One action of an interaction event.
#[derive(Debug, Clone)]
pub struct SlackAction {
    pub action_type: String,
    pub action_id: String,
    pub value: Option<String>,
}

/// One block of the message an interaction refers back to.
#[derive(Debug, Clone)]
pub struct SlackMessageBlock {
    pub block_type: String,
    pub text: Option<SlackMessageText>,
    pub elements: Option<Vec<SlackElement>>,
}

/// A text object inside a referenced message block.
#[derive(Debug, Clone)]
pub struct SlackMessageText {
    pub text: String,
}

/// The channel an interaction happened in.
#[derive(Debug, Clone)]
pub struct SlackChannel {
    pub id: String,
}

/// The body of a channel-post request.
#[derive(Debug)]
pub struct SlackMessageRequest {
    pub channel: String,
    pub blocks: Vec<SlackBlock>,
}

/// The sentinel the content API uses for an absent optional string field.
pub fn default_null_string() -> (r: String)
    ensures
        r@ == "null"@,
{
    String::from_str("null")
}

} // verus!
