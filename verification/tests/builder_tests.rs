use slack_sat_bot::builder::create_question_blocks;
use slack_sat_bot::models::{Choices, Question, SATQuestion, Visuals};

fn question(paragraph: &str, correct: &str) -> SATQuestion {
    SATQuestion {
        id: "q1".to_string(),
        domain: "Algebra".to_string(),
        visuals: Visuals::default(),
        question: Question {
            paragraph: paragraph.to_string(),
            question: "What is \\frac{1}{2} + \\frac{1}{2}?".to_string(),
            choices: Choices {
                a: "0".to_string(),
                b: "1".to_string(),
                c: "2".to_string(),
                d: "\\pi".to_string(),
            },
            correct_answer: correct.to_string(),
            explanation: "halves".to_string(),
        },
        difficulty: "easy".to_string(),
    }
}

#[test]
fn without_paragraph_three_blocks() {
    let blocks = create_question_blocks(&question("null", "B"));
    assert_eq!(blocks.len(), 3);
    assert_eq!(blocks[0].block_type, "section");
    assert_eq!(blocks[1].block_type, "actions");
    assert_eq!(blocks[2].block_type, "actions");
}

#[test]
fn with_paragraph_four_blocks() {
    let blocks = create_question_blocks(&question("Read \\(p\\) first.", "A"));
    assert_eq!(blocks.len(), 4);
    let ptext = &blocks[1].text.as_ref().unwrap().text;
    assert_eq!(ptext, "*Paragraph:*\nRead `p` first.");
}

#[test]
fn header_holds_sanitized_prompt_domain_and_difficulty() {
    let blocks = create_question_blocks(&question("null", "B"));
    let header = &blocks[0].text.as_ref().unwrap().text;
    assert_eq!(
        header,
        "*Question:* What is (1)/(2) + (1)/(2)?\n*Domain:* Algebra\n*Difficulty:* easy"
    );
}

#[test]
fn answer_fingerprints_in_fixed_order() {
    let blocks = create_question_blocks(&question("null", "B"));
    let buttons = blocks[1].elements.as_ref().unwrap();
    assert_eq!(buttons.len(), 4);
    let values: Vec<&str> =
        buttons.iter().map(|b| b.value.as_ref().unwrap().as_str()).collect();
    assert_eq!(values, ["A:B", "B:B", "C:B", "D:B"]);
    let ids: Vec<&str> = buttons.iter().map(|b| b.action_id.as_str()).collect();
    assert_eq!(ids, ["answer_a", "answer_b", "answer_c", "answer_d"]);
    assert_eq!(buttons[3].text.text, "D. \u{3c0}");
}

#[test]
fn trailing_clear_control() {
    let blocks = create_question_blocks(&question("null", "C"));
    let clear = blocks[2].elements.as_ref().unwrap();
    assert_eq!(clear.len(), 1);
    assert_eq!(clear[0].action_id, "clear_message");
    assert_eq!(clear[0].value.as_deref(), Some("clear"));
}
