use slack_sat_bot::dispatch::{
    after_post, build_answer_reply, classify_interaction, loading_message, outcome_http_status,
    plan_fulfillment, slash_command_from_form, FulfillAction, InteractionOutcome,
};
use slack_sat_bot::models::{
    Choices, Question, SATQuestion, SlackAction, SlackChannel, SlackInteraction, SlackMessage,
    SlackUser, Visuals,
};

fn event(action_id: &str, value: Option<&str>, with_message: bool) -> SlackInteraction {
    SlackInteraction {
        interaction_type: "block_actions".to_string(),
        user: SlackUser { id: "U42".to_string(), username: "sam".to_string() },
        actions: Some(vec![SlackAction {
            action_type: "button".to_string(),
            action_id: action_id.to_string(),
            value: value.map(|v| v.to_string()),
        }]),
        response_url: "https://x/cb".to_string(),
        message: if with_message {
            Some(SlackMessage { ts: "123.456".to_string(), blocks: vec![] })
        } else {
            None
        },
        channel: SlackChannel { id: "C1".to_string() },
    }
}

#[test]
fn clear_triggers_one_delete_with_channel_and_ts() {
    let outcome = classify_interaction(&event("clear_message", Some("clear"), true));
    match outcome {
        InteractionOutcome::Delete { channel, ts } => {
            assert_eq!(channel, "C1");
            assert_eq!(ts, "123.456");
        }
        other => panic!("expected a delete, got {:?}", other),
    }
}

#[test]
fn matching_fingerprint_is_a_correct_reply() {
    let outcome = classify_interaction(&event("answer_b", Some("B:B"), true));
    match outcome {
        InteractionOutcome::Reply { response_url, user_id, correct } => {
            assert_eq!(response_url, "https://x/cb");
            assert_eq!(user_id, "U42");
            assert!(correct);
        }
        other => panic!("expected a reply, got {:?}", other),
    }
}

#[test]
fn mismatched_fingerprint_is_a_retry_reply() {
    let outcome = classify_interaction(&event("answer_b", Some("B:C"), true));
    match outcome {
        InteractionOutcome::Reply { correct, .. } => assert!(!correct),
        other => panic!("expected a reply, got {:?}", other),
    }
}

#[test]
fn value_without_separator_is_rejected_with_no_outbound_call() {
    let outcome = classify_interaction(&event("answer_b", Some("BC"), true));
    assert!(matches!(outcome, InteractionOutcome::MalformedValue));
    assert_eq!(outcome_http_status(&outcome, true), 500);
    assert_eq!(outcome_http_status(&outcome, false), 500);
}

#[test]
fn tolerated_shapes_are_ignored() {
    let mut e = event("answer_b", Some("B:B"), true);
    e.interaction_type = "view_submission".to_string();
    assert!(matches!(classify_interaction(&e), InteractionOutcome::Ignore));

    let mut e = event("answer_b", Some("B:B"), true);
    e.actions = None;
    assert!(matches!(classify_interaction(&e), InteractionOutcome::Ignore));

    let mut e = event("answer_b", Some("B:B"), true);
    e.actions = Some(vec![]);
    assert!(matches!(classify_interaction(&e), InteractionOutcome::Ignore));

    let e = event("answer_b", None, true);
    assert!(matches!(classify_interaction(&e), InteractionOutcome::Ignore));
}

#[test]
fn clear_without_message_reference_is_surfaced() {
    let outcome = classify_interaction(&event("clear_message", Some("clear"), false));
    assert!(matches!(outcome, InteractionOutcome::MissingMessage));
    assert_eq!(outcome_http_status(&outcome, true), 500);
}

#[test]
fn statuses_follow_the_outbound_result() {
    let ignore = InteractionOutcome::Ignore;
    assert_eq!(outcome_http_status(&ignore, false), 200);
    let delete =
        InteractionOutcome::Delete { channel: "C1".to_string(), ts: "1.2".to_string() };
    assert_eq!(outcome_http_status(&delete, true), 200);
    assert_eq!(outcome_http_status(&delete, false), 500);
}

#[test]
fn answer_reply_texts_reference_the_user() {
    let good = build_answer_reply("U42", true);
    assert_eq!(good.response_type, "ephemeral");
    assert_eq!(good.blocks.len(), 2);
    assert_eq!(
        good.blocks[0].text.as_ref().unwrap().text,
        "\u{2705} Correct! Well done, <@U42>!"
    );
    let retry = build_answer_reply("U42", false);
    assert_eq!(
        retry.blocks[0].text.as_ref().unwrap().text,
        "\u{274c} Sorry <@U42>, that's not correct. Try again!"
    );
    assert_eq!(retry.blocks[1].elements.as_ref().unwrap()[0].action_id, "clear_message");
}

#[test]
fn slash_command_scenario_end_to_end() {
    let fields = vec![
        ("channel_id".to_string(), "C1".to_string()),
        ("response_url".to_string(), "https://x/cb".to_string()),
    ];
    let cmd = slash_command_from_form(&fields);
    assert_eq!(cmd.channel_id, "C1");
    assert_eq!(cmd.response_url, "https://x/cb");

    assert_eq!(loading_message(), "Loading your SAT question...");

    let q = SATQuestion {
        id: "q1".to_string(),
        domain: "Algebra".to_string(),
        visuals: Visuals::default(),
        question: Question {
            paragraph: "null".to_string(),
            question: "1+1?".to_string(),
            choices: Choices {
                a: "1".to_string(),
                b: "2".to_string(),
                c: "3".to_string(),
                d: "4".to_string(),
            },
            correct_answer: "B".to_string(),
            explanation: "sum".to_string(),
        },
        difficulty: "easy".to_string(),
    };
    // Exactly one post, to the command's channel.
    match plan_fulfillment(&cmd, Ok(q)) {
        FulfillAction::Post { channel, blocks } => {
            assert_eq!(channel, "C1");
            assert_eq!(blocks.len(), 3);
        }
        FulfillAction::Abort => panic!("expected a post"),
    }
    // The loading placeholder is deleted through the callback URL only after
    // a successful post.
    assert_eq!(after_post(&cmd, true), Some("https://x/cb".to_string()));
    assert_eq!(after_post(&cmd, false), None);
}

#[test]
fn missing_form_fields_become_empty_strings() {
    let fields = vec![("text".to_string(), "go".to_string())];
    let cmd = slash_command_from_form(&fields);
    assert_eq!(cmd.channel_id, "");
    assert_eq!(cmd.response_url, "");
}
