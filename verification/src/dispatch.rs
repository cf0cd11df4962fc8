//! The interaction dispatcher: the stateless state machine at the bot's
//! core.
//!
//! Every inbound webhook event is classified independently into exactly one
//! outcome.  Missing `actions` and unsupported event subtypes are tolerated
//! (ignored); a fingerprint without the `:` separator is rejected — that
//! asymmetry is deliberate.  The application performs the outbound HTTP call
//! that each outcome names and reports its success back to
//! [`outcome_http_status`].

use vstd::prelude::*;
use crate::builder::{
    clear_button, create_question_blocks, is_clear_block, is_mrkdwn_section, mrkdwn_section,
    question_blocks_spec,
};
use crate::models::{SATQuestion, SlackBlock, SlackInteraction, SlackSlashCommand};
use crate::source::FetchError;
use crate::text::{chars_eq, str_to_chars};

verus! {

/// The index of the first `':'` in `v` (the length of `v` when none occurs).
pub open spec fn first_colon(v: Seq<char>) -> int
    decreases v.len(),
{
    if v.len() == 0 {
        0
    } else if v[0] == ':' {
        0
    } else {
        1 + first_colon(v.skip(1))
    }
}

/// True iff `v` holds a `':'`.
pub open spec fn has_colon(v: Seq<char>) -> bool {
    exists|j: int| 0 <= j < v.len() && v[j] == ':'
}

/// The selected letter of a fingerprint: everything before the first `':'`.
pub open spec fn selected_of(v: Seq<char>) -> Seq<char> {
    v.take(first_colon(v))
}

/// The correct letter of a fingerprint: everything after the first `':'`.
pub open spec fn correct_of(v: Seq<char>) -> Seq<char> {
    v.skip(first_colon(v) + 1)
}

proof fn lemma_first_colon_at(v: Seq<char>, j: int)
    requires
        0 <= j < v.len(),
        v[j] == ':',
        forall|k: int| 0 <= k < j ==> v[k] != ':',
    ensures
        first_colon(v) == j,
    decreases j,
{
    if j > 0 {
        assert(forall|k: int| 0 <= k < j - 1 ==> v.skip(1)[k] == v[k + 1]);
        lemma_first_colon_at(v.skip(1), j - 1);
    }
}

/// Finds the first `':'` in `v`, if any.
fn find_colon(v: &Vec<char>) -> (r: Option<usize>)
    ensures
        match r {
            Some(j) => j < v@.len() && v@[j as int] == ':' && j == first_colon(v@) && has_colon(
                v@,
            ),
            None => !has_colon(v@),
        },
{
    let mut i: usize = 0;
    while i < v.len()
        invariant
            i <= v@.len(),
            forall|k: int| 0 <= k < i ==> v@[k] != ':',
        decreases v@.len() - i,
    {
        if v[i] == ':' {
            proof {
                lemma_first_colon_at(v@, i as int);
            }
            return Some(i);
        }
        i += 1;
    }
    None
}

/// The fingerprint mechanism is stateless and exact: a control value built
/// as `"<letter>:<correct>"` from a colon-free letter is read back by the
/// dispatcher as exactly that letter and that correct answer, so a click is
/// judged right iff the selected letter equals the correct one.
pub proof fn lemma_fingerprint_round_trip(letter: Seq<char>, correct: Seq<char>)
    requires
        !crate::text::contains_char(letter, ':'),
    ensures
        has_colon(crate::builder::fingerprint_spec(letter, correct)),
        selected_of(crate::builder::fingerprint_spec(letter, correct)) == letter,
        correct_of(crate::builder::fingerprint_spec(letter, correct)) == correct,
{
    reveal_strlit(":");
    let v = crate::builder::fingerprint_spec(letter, correct);
    assert(":"@ =~= seq![':']);
    assert(v[letter.len() as int] == ':');
    assert forall|k: int| 0 <= k < letter.len() implies v[k] != ':' by {
        assert(v[k] == letter[k]);
        if letter[k] == ':' {
            assert(crate::text::contains_char(letter, ':'));
        }
    }
    lemma_first_colon_at(v, letter.len() as int);
    assert(v.take(letter.len() as int) =~= letter);
    assert(v.skip(letter.len() as int + 1) =~= correct);
    assert(has_colon(v));
}

/// What the dispatcher decided for one interaction event.
#[derive(Debug)]
pub enum InteractionOutcome {
    /// Reply 200 and do nothing: unsupported subtype, no actions, or an
    /// answer button without a value.
    Ignore,
    /// Delete the referenced message.
    Delete { channel: String, ts: String },
    /// Send an ephemeral reply through the event's callback URL.
    Reply { response_url: String, user_id: String, correct: bool },
    /// A clear request whose event carries no message reference; surfaced as
    /// an internal error instead of crashing.
    MissingMessage,
    /// A fingerprint without the `:` separator; rejected, with no outbound
    /// call.
    MalformedValue,
}

/// The dispatch table: which outcome each event shape gets.
pub open spec fn classify_spec(i: &SlackInteraction, r: InteractionOutcome) -> bool {
    if i.interaction_type@ != "block_actions"@ {
        r is Ignore
    } else {
        match i.actions {
            None => r is Ignore,
            Some(acts) => if acts@.len() == 0 {
                r is Ignore
            } else if acts@[0].action_id@ == "clear_message"@ {
                match i.message {
                    None => r is MissingMessage,
                    Some(m) => r matches InteractionOutcome::Delete { channel, ts }
                        && channel@ == i.channel.id@ && ts@ == m.ts@,
                }
            } else {
                match acts@[0].value {
                    None => r is Ignore,
                    Some(v) => if !has_colon(v@) {
                        r is MalformedValue
                    } else {
                        r matches InteractionOutcome::Reply { response_url, user_id, correct }
                            && response_url@ == i.response_url@ && user_id@ == i.user.id@
                            && correct == (selected_of(v@) == correct_of(v@))
                    },
                }
            },
        }
    }
}

/// Classifies one interaction event; pure, total, no outbound work.
pub fn classify_interaction(interaction: &SlackInteraction) -> (r: InteractionOutcome)
    ensures
        classify_spec(interaction, r),
{
    if !crate::text::str_eq(interaction.interaction_type.as_str(), "block_actions") {
        return InteractionOutcome::Ignore;
    }
    let actions = match &interaction.actions {
        None => {
            return InteractionOutcome::Ignore;
        },
        Some(a) => a,
    };
    if actions.len() == 0 {
        return InteractionOutcome::Ignore;
    }
    let action = &actions[0];
    if crate::text::str_eq(action.action_id.as_str(), "clear_message") {
        match &interaction.message {
            None => {
                return InteractionOutcome::MissingMessage;
            },
            Some(m) => {
                return InteractionOutcome::Delete {
                    channel: interaction.channel.id.clone(),
                    ts: m.ts.clone(),
                };
            },
        }
    }
    let value = match &action.value {
        None => {
            return InteractionOutcome::Ignore;
        },
        Some(v) => v,
    };
    let chars = str_to_chars(value.as_str());
    let j = match find_colon(&chars) {
        None => {
            return InteractionOutcome::MalformedValue;
        },
        Some(j) => j,
    };
    let mut selected: Vec<char> = Vec::new();
    let mut k: usize = 0;
    while k < j
        invariant
            j < chars@.len(),
            k <= j,
            selected@ == chars@.subrange(0, k as int),
        decreases j - k,
    {
        selected.push(chars[k]);
        proof {
            assert(chars@.subrange(0, k as int + 1) =~= chars@.subrange(0, k as int).push(
                chars@[k as int],
            ));
        }
        k += 1;
    }
    let mut correct: Vec<char> = Vec::new();
    let n = chars.len();
    let mut m: usize = j + 1;
    while m < n
        invariant
            n == chars@.len(),
            j < chars@.len(),
            j + 1 <= m <= chars@.len(),
            correct@ == chars@.subrange(j as int + 1, m as int),
        decreases chars@.len() - m,
    {
        correct.push(chars[m]);
        proof {
            assert(chars@.subrange(j as int + 1, m as int + 1) =~= chars@.subrange(
                j as int + 1,
                m as int,
            ).push(chars@[m as int]));
        }
        m += 1;
    }
    proof {
        assert(selected@ =~= selected_of(chars@));
        assert(correct@ =~= correct_of(chars@));
    }
    let is_right = chars_eq(&selected, &correct);
    InteractionOutcome::Reply {
        response_url: interaction.response_url.clone(),
        user_id: interaction.user.id.clone(),
        correct: is_right,
    }
}

/// The ephemeral reply to an answer click: a correctness message plus a
/// clear control, visible only to the triggering user.
#[derive(Debug)]
pub struct EphemeralReply {
    pub response_type: String,
    pub blocks: Vec<SlackBlock>,
}

/// The congratulation text for a correct answer.
pub open spec fn correct_text_spec(user: Seq<char>) -> Seq<char> {
    "✅ Correct! Well done, <@"@ + user + ">!"@
}

/// The retry text for a wrong answer.
pub open spec fn retry_text_spec(user: Seq<char>) -> Seq<char> {
    "❌ Sorry <@"@ + user + ">, that's not correct. Try again!"@
}

/// The shape of the ephemeral reply: a section with the correctness message
/// and a single clear control.
pub open spec fn answer_reply_spec(user: Seq<char>, correct: bool, r: &EphemeralReply) -> bool {
    &&& r.response_type@ == "ephemeral"@
    &&& r.blocks@.len() == 2
    &&& is_mrkdwn_section(
        r.blocks@[0],
        if correct {
            correct_text_spec(user)
        } else {
            retry_text_spec(user)
        },
    )
    &&& is_clear_block(r.blocks@[1])
}

/// Builds the ephemeral reply for an answer click; pure.
pub fn build_answer_reply(user_id: &str, correct: bool) -> (r: EphemeralReply)
    ensures
        answer_reply_spec(user_id@, correct, &r),
{
    let text = if correct {
        let mut t = String::from_str("✅ Correct! Well done, <@");
        t.append(user_id);
        t.append(">!");
        proof {
            assert(t@ =~= correct_text_spec(user_id@));
        }
        t
    } else {
        let mut t = String::from_str("❌ Sorry <@");
        t.append(user_id);
        t.append(">, that's not correct. Try again!");
        proof {
            assert(t@ =~= retry_text_spec(user_id@));
        }
        t
    };
    let mut blocks: Vec<SlackBlock> = Vec::new();
    blocks.push(mrkdwn_section(text));
    let mut clear_row: Vec<crate::models::SlackElement> = Vec::new();
    clear_row.push(clear_button());
    blocks.push(
        SlackBlock {
            block_type: String::from_str("actions"),
            text: None,
            accessory: None,
            elements: Some(clear_row),
        },
    );
    EphemeralReply { response_type: String::from_str("ephemeral"), blocks }
}

/// The value of the first form field named `key` (empty when none is).
pub open spec fn lookup_spec(fields: Seq<(String, String)>, key: Seq<char>) -> Seq<char>
    decreases fields.len(),
{
    if fields.len() == 0 {
        Seq::<char>::empty()
    } else if fields[0].0@ == key {
        fields[0].1@
    } else {
        lookup_spec(fields.skip(1), key)
    }
}

/// Looks a key up in the decoded form body.
fn form_value(fields: &Vec<(String, String)>, key: &str) -> (r: String)
    ensures
        r@ == lookup_spec(fields@, key@),
{
    let mut i: usize = 0;
    proof {
        assert(fields@.skip(0) =~= fields@);
    }
    while i < fields.len()
        invariant
            i <= fields@.len(),
            lookup_spec(fields@.skip(i as int), key@) == lookup_spec(fields@, key@),
        decreases fields@.len() - i,
    {
        proof {
            assert(fields@.skip(i as int)[0] == fields@[i as int]);
            assert(fields@.skip(i as int).skip(1) =~= fields@.skip(i as int + 1));
        }
        if crate::text::str_eq(fields[i].0.as_str(), key) {
            return fields[i].1.clone();
        }
        i += 1;
    }
    proof {
        assert(fields@.skip(fields@.len() as int) =~= Seq::<(String, String)>::empty());
    }
    String::new()
}

/// Extracts the slash-command context from the decoded form body; a missing
/// field becomes the empty string, as the platform payload is not trusted.
pub fn slash_command_from_form(fields: &Vec<(String, String)>) -> (r: SlackSlashCommand)
    ensures
        r.channel_id@ == lookup_spec(fields@, "channel_id"@),
        r.response_url@ == lookup_spec(fields@, "response_url"@),
{
    let channel_id = form_value(fields, "channel_id");
    let response_url = form_value(fields, "response_url");
    SlackSlashCommand { channel_id, response_url }
}

/// The immediate synchronous reply to a slash command.
pub fn loading_message() -> (r: &'static str)
    ensures
        r@ == "Loading your SAT question..."@,
{
    "Loading your SAT question..."
}

/// The first step of slash-command fulfilment.
#[derive(Debug)]
pub enum FulfillAction {
    /// Post the built question message to the command's channel.
    Post { channel: String, blocks: Vec<SlackBlock> },
    /// The fetch failed; log and stop, with no user-visible signal.
    Abort,
}

/// Decides the first fulfilment step from the fetch outcome: a successful
/// fetch is posted to the command's channel as the built block message; a
/// failed fetch aborts the task.
pub fn plan_fulfillment(command: &SlackSlashCommand, fetched: Result<SATQuestion, FetchError>) -> (r:
    FulfillAction)
    ensures
        match fetched {
            Ok(q) => r matches FulfillAction::Post { channel, blocks } && channel@
                == command.channel_id@ && question_blocks_spec(&q, blocks@),
            Err(_) => r is Abort,
        },
{
    match fetched {
        Ok(q) => {
            let blocks = create_question_blocks(&q);
            FulfillAction::Post { channel: command.channel_id.clone(), blocks }
        },
        Err(_) => FulfillAction::Abort,
    }
}

/// Decides the second fulfilment step: only after a successful post is the
/// loading placeholder deleted, through the command's callback URL.
pub fn after_post(command: &SlackSlashCommand, posted: bool) -> (r: Option<String>)
    ensures
        r is Some <==> posted,
        match r {
            Some(url) => url@ == command.response_url@,
            None => true,
        },
{
    if posted {
        Some(command.response_url.clone())
    } else {
        None
    }
}

/// The HTTP status the handler answers with: tolerated shapes are 200, a
/// malformed fingerprint or a missing message reference is 500, and an
/// outcome whose outbound call failed is 500.
pub fn outcome_http_status(outcome: &InteractionOutcome, outbound_ok: bool) -> (s: u16)
    ensures
        match outcome {
            InteractionOutcome::Ignore => s == 200,
            InteractionOutcome::Delete { .. } => s == (if outbound_ok {
                200u16
            } else {
                500u16
            }),
            InteractionOutcome::Reply { .. } => s == (if outbound_ok {
                200u16
            } else {
                500u16
            }),
            InteractionOutcome::MissingMessage => s == 500,
            InteractionOutcome::MalformedValue => s == 500,
        },
{
    match outcome {
        InteractionOutcome::Ignore => 200,
        InteractionOutcome::Delete { .. } => if outbound_ok {
            200
        } else {
            500
        },
        InteractionOutcome::Reply { .. } => if outbound_ok {
            200
        } else {
            500
        },
        InteractionOutcome::MissingMessage => 500,
        InteractionOutcome::MalformedValue => 500,
    }
}

} // verus!
