use slack_sat_bot::models::{Choices, Question, SATQuestion, Visuals};
use slack_sat_bot::outbound::response_indicates_success;
use slack_sat_bot::signature::{parse_u64, u64_to_string};
use slack_sat_bot::source::{http_status_is_success, select_question, FetchError};

fn question(id: &str) -> SATQuestion {
    SATQuestion {
        id: id.to_string(),
        domain: "Geometry".to_string(),
        visuals: Visuals::default(),
        question: Question {
            paragraph: "null".to_string(),
            question: "?".to_string(),
            choices: Choices {
                a: "1".to_string(),
                b: "2".to_string(),
                c: "3".to_string(),
                d: "4".to_string(),
            },
            correct_answer: "A".to_string(),
            explanation: "e".to_string(),
        },
        difficulty: "hard".to_string(),
    }
}

#[test]
fn nonempty_batch_yields_one_of_its_questions() {
    let batch = vec![question("a"), question("b"), question("c")];
    let ids: Vec<String> = batch.iter().map(|q| q.id.clone()).collect();
    let got = select_question(Ok(batch), Err("unused".to_string())).unwrap();
    assert!(ids.contains(&got.id));
}

#[test]
fn single_question_batch_is_returned_directly() {
    let got = select_question(Ok(vec![question("only")]), Err("unused".to_string())).unwrap();
    assert_eq!(got.id, "only");
}

#[test]
fn empty_batch_is_no_data() {
    let r = select_question(Ok(vec![]), Err("unused".to_string()));
    assert!(matches!(r, Err(FetchError::NoDataError)));
}

#[test]
fn single_shape_is_the_fallback() {
    let r = select_question(Err("missing field `questions`".to_string()), Ok(question("solo")));
    assert_eq!(r.unwrap().id, "solo");
}

#[test]
fn both_shapes_failing_is_a_parse_error_with_the_batch_diagnostic() {
    let r = select_question(
        Err("missing field `questions`".to_string()),
        Err("missing field `id`".to_string()),
    );
    match r {
        Err(FetchError::ParseError { detail }) => {
            assert_eq!(detail, "missing field `questions`");
        }
        other => panic!("expected a parse error, got {:?}", other),
    }
}

#[test]
fn platform_success_flag_is_read_from_the_body() {
    assert!(response_indicates_success("{\"ok\":true,\"ts\":\"1.2\"}"));
    assert!(!response_indicates_success("{\"ok\":false,\"error\":\"channel_not_found\"}"));
    assert!(!response_indicates_success(""));
}

#[test]
fn http_status_classes() {
    assert!(http_status_is_success(200));
    assert!(http_status_is_success(299));
    assert!(!http_status_is_success(300));
    assert!(!http_status_is_success(404));
    assert!(!http_status_is_success(199));
}

#[test]
fn decimal_parse_round_trip() {
    assert_eq!(parse_u64("0"), Some(0));
    assert_eq!(parse_u64("1700000000"), Some(1_700_000_000));
    assert_eq!(parse_u64("18446744073709551615"), Some(u64::MAX));
    assert_eq!(parse_u64("18446744073709551616"), None);
    assert_eq!(parse_u64(""), None);
    assert_eq!(parse_u64("12a"), None);
    assert_eq!(parse_u64("-1"), None);
    assert_eq!(u64_to_string(0), "0");
    assert_eq!(u64_to_string(1_700_000_000), "1700000000");
    assert_eq!(u64_to_string(u64::MAX), "18446744073709551615");
    assert_eq!(parse_u64(&u64_to_string(987654321)), Some(987654321));
}
