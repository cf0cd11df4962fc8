//! Builds the outbound interactive message for a question.
//!
//! The message is a fixed block sequence: a header section, an optional
//! paragraph section, one actions block with the four answer buttons in the
//! order A, B, C, D, and a trailing actions block with a single clear button.
//! Each answer button carries the fingerprint `"<letter>:<correct>"`; the
//! clear button carries the distinguished token `"clear"`.

use vstd::prelude::*;
use crate::models::{SATQuestion, SlackBlock, SlackElement, SlackText};
use crate::text::{format_text_for_slack, sanitize_spec, str_eq};

verus! {

/// The header section text: prompt, domain and difficulty.
pub open spec fn header_text_spec(q: &SATQuestion) -> Seq<char> {
    "*Question:* "@ + sanitize_spec(q.question.question@) + "\n*Domain:* "@ + q.domain@
        + "\n*Difficulty:* "@ + q.difficulty@
}

/// The optional paragraph section text.
pub open spec fn paragraph_text_spec(q: &SATQuestion) -> Seq<char> {
    "*Paragraph:*\n"@ + sanitize_spec(q.question.paragraph@)
}

/// An answer button's label: `"<letter>. <sanitized choice>"`.
pub open spec fn choice_label_spec(letter: Seq<char>, choice: Seq<char>) -> Seq<char> {
    letter + ". "@ + sanitize_spec(choice)
}

/// An answer button's fingerprint: `"<letter>:<correct>"`.
pub open spec fn fingerprint_spec(letter: Seq<char>, correct: Seq<char>) -> Seq<char> {
    letter + ":"@ + correct
}

/// A section block whose markdown text is exactly `text`.
pub open spec fn is_mrkdwn_section(b: SlackBlock, text: Seq<char>) -> bool {
    &&& b.block_type@ == "section"@
    &&& b.text matches Some(t) && t.text_type@ == "mrkdwn"@ && t.text@ == text && t.emoji is None
    &&& b.accessory is None
    &&& b.elements is None
}

/// An answer button for one choice letter.
pub open spec fn is_answer_button(
    e: SlackElement,
    letter: Seq<char>,
    action_id: Seq<char>,
    choice: Seq<char>,
    correct: Seq<char>,
) -> bool {
    &&& e.element_type@ == "button"@
    &&& e.text.text_type@ == "plain_text"@
    &&& e.text.text@ == choice_label_spec(letter, choice)
    &&& e.text.emoji == Some(true)
    &&& e.action_id@ == action_id
    &&& e.value matches Some(v) && v@ == fingerprint_spec(letter, correct)
}

/// The actions block holding the four answer buttons, in order A, B, C, D.
pub open spec fn is_answers_block(b: SlackBlock, q: &SATQuestion) -> bool {
    &&& b.block_type@ == "actions"@
    &&& b.text is None
    &&& b.accessory is None
    &&& b.elements matches Some(es) && es@.len() == 4 && is_answer_button(
        es@[0],
        "A"@,
        "answer_a"@,
        q.question.choices.a@,
        q.question.correct_answer@,
    ) && is_answer_button(
        es@[1],
        "B"@,
        "answer_b"@,
        q.question.choices.b@,
        q.question.correct_answer@,
    ) && is_answer_button(
        es@[2],
        "C"@,
        "answer_c"@,
        q.question.choices.c@,
        q.question.correct_answer@,
    ) && is_answer_button(
        es@[3],
        "D"@,
        "answer_d"@,
        q.question.choices.d@,
        q.question.correct_answer@,
    )
}

/// The single clear button: its fingerprint is the distinguished token
/// `"clear"`, not a `letter:letter` pair.
pub open spec fn is_clear_button(e: SlackElement) -> bool {
    &&& e.element_type@ == "button"@
    &&& e.text.text_type@ == "plain_text"@
    &&& e.text.text@ == "🗑️ Clear"@
    &&& e.text.emoji == Some(true)
    &&& e.action_id@ == "clear_message"@
    &&& e.value matches Some(v) && v@ == "clear"@
}

/// The trailing actions block with the single clear button.
pub open spec fn is_clear_block(b: SlackBlock) -> bool {
    &&& b.block_type@ == "actions"@
    &&& b.text is None
    &&& b.accessory is None
    &&& b.elements matches Some(es) && es@.len() == 1 && is_clear_button(es@[0])
}

/// The whole message for a question: header, paragraph iff present (not the
/// `"null"` sentinel), the answers block, the clear block.
pub open spec fn question_blocks_spec(q: &SATQuestion, r: Seq<SlackBlock>) -> bool {
    if q.question.paragraph@ == "null"@ {
        &&& r.len() == 3
        &&& is_mrkdwn_section(r[0], header_text_spec(q))
        &&& is_answers_block(r[1], q)
        &&& is_clear_block(r[2])
    } else {
        &&& r.len() == 4
        &&& is_mrkdwn_section(r[0], header_text_spec(q))
        &&& is_mrkdwn_section(r[1], paragraph_text_spec(q))
        &&& is_answers_block(r[2], q)
        &&& is_clear_block(r[3])
    }
}

/// Every built message holds exactly one actions block with the four answer
/// controls — the one right before the trailing clear block — and exactly
/// one clear block, at the end.
pub proof fn lemma_one_answers_block(q: &SATQuestion, r: Seq<SlackBlock>)
    requires
        question_blocks_spec(q, r),
    ensures
        is_answers_block(r[r.len() - 2], q),
        is_clear_block(r[r.len() - 1]),
        forall|i: int|
            0 <= i < r.len() && #[trigger] is_answers_block(r[i], q) ==> i == r.len() - 2,
        forall|i: int| 0 <= i < r.len() && #[trigger] is_clear_block(r[i]) ==> i == r.len() - 1,
{
    assert forall|i: int|
        0 <= i < r.len() && #[trigger] is_answers_block(r[i], q) implies i == r.len() - 2 by {
        if i < r.len() - 2 {
            assert(r[i].elements is None);
        }
        if i == r.len() - 1 {
            assert((r[i].elements matches Some(es) && es@.len() == 1));
        }
    }
    assert forall|i: int|
        0 <= i < r.len() && #[trigger] is_clear_block(r[i]) implies i == r.len() - 1 by {
        if i < r.len() - 2 {
            assert(r[i].elements is None);
        }
        if i == r.len() - 2 {
            assert((r[i].elements matches Some(es) && es@.len() == 4));
        }
    }
}

/// A section block with markdown text.
pub(crate) fn mrkdwn_section(text: String) -> (b: SlackBlock)
    ensures
        is_mrkdwn_section(b, text@),
{
    SlackBlock {
        block_type: String::from_str("section"),
        text: Some(
            SlackText { text_type: String::from_str("mrkdwn"), text, emoji: None },
        ),
        accessory: None,
        elements: None,
    }
}

/// One answer button.
fn answer_button(letter: &str, action_id: &str, choice: &str, correct: &str) -> (e: SlackElement)
    ensures
        is_answer_button(e, letter@, action_id@, choice@, correct@),
{
    let sanitized = format_text_for_slack(choice);
    let mut label = String::from_str(letter);
    label.append(". ");
    label.append(sanitized.as_str());
    let mut value = String::from_str(letter);
    value.append(":");
    value.append(correct);
    proof {
        assert(label@ =~= choice_label_spec(letter@, choice@));
        assert(value@ =~= fingerprint_spec(letter@, correct@));
    }
    SlackElement {
        element_type: String::from_str("button"),
        text: SlackText {
            text_type: String::from_str("plain_text"),
            text: label,
            emoji: Some(true),
        },
        action_id: String::from_str(action_id),
        value: Some(value),
    }
}

/// The trailing clear button.
pub(crate) fn clear_button() -> (e: SlackElement)
    ensures
        is_clear_button(e),
{
    SlackElement {
        element_type: String::from_str("button"),
        text: SlackText {
            text_type: String::from_str("plain_text"),
            text: String::from_str("🗑️ Clear"),
            emoji: Some(true),
        },
        action_id: String::from_str("clear_message"),
        value: Some(String::from_str("clear")),
    }
}

/// Builds the platform message for one question; pure.
pub fn create_question_blocks(question: &SATQuestion) -> (r: Vec<SlackBlock>)
    ensures
        question_blocks_spec(question, r@),
{
    let mut blocks: Vec<SlackBlock> = Vec::new();

    let sanitized_prompt = format_text_for_slack(question.question.question.as_str());
    let mut header = String::from_str("*Question:* ");
    header.append(sanitized_prompt.as_str());
    header.append("\n*Domain:* ");
    header.append(question.domain.as_str());
    header.append("\n*Difficulty:* ");
    header.append(question.difficulty.as_str());
    proof {
        assert(header@ =~= header_text_spec(question));
    }
    blocks.push(mrkdwn_section(header));

    if !str_eq(question.question.paragraph.as_str(), "null") {
        let sanitized_paragraph = format_text_for_slack(question.question.paragraph.as_str());
        let mut ptext = String::from_str("*Paragraph:*\n");
        ptext.append(sanitized_paragraph.as_str());
        proof {
            assert(ptext@ =~= paragraph_text_spec(question));
        }
        blocks.push(mrkdwn_section(ptext));
    }

    let mut buttons: Vec<SlackElement> = Vec::new();
    buttons.push(
        answer_button(
            "A",
            "answer_a",
            question.question.choices.a.as_str(),
            question.question.correct_answer.as_str(),
        ),
    );
    buttons.push(
        answer_button(
            "B",
            "answer_b",
            question.question.choices.b.as_str(),
            question.question.correct_answer.as_str(),
        ),
    );
    buttons.push(
        answer_button(
            "C",
            "answer_c",
            question.question.choices.c.as_str(),
            question.question.correct_answer.as_str(),
        ),
    );
    buttons.push(
        answer_button(
            "D",
            "answer_d",
            question.question.choices.d.as_str(),
            question.question.correct_answer.as_str(),
        ),
    );
    blocks.push(
        SlackBlock {
            block_type: String::from_str("actions"),
            text: None,
            accessory: None,
            elements: Some(buttons),
        },
    );

    let mut clear_row: Vec<SlackElement> = Vec::new();
    clear_row.push(clear_button());
    blocks.push(
        SlackBlock {
            block_type: String::from_str("actions"),
            text: None,
            accessory: None,
            elements: Some(clear_row),
        },
    );

    blocks
}

} // verus!
