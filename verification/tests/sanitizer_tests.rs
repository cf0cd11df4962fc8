use slack_sat_bot::text::format_text_for_slack;

#[test]
fn fraction_markup_is_rewritten() {
    assert_eq!(format_text_for_slack("\\frac{a}{b}"), "(a)/(b)");
}

#[test]
fn inline_math_delimiters_become_backticks() {
    assert_eq!(format_text_for_slack("\\(x\\)"), "`x`");
    assert_eq!(format_text_for_slack("\\[x\\]"), "```x```");
}

#[test]
fn sqrt_and_greek_letters() {
    assert_eq!(format_text_for_slack("\\sqrt{2}\\pi"), "\u{221a}(2)\u{3c0}");
}

#[test]
fn operators_are_rewritten() {
    assert_eq!(format_text_for_slack("a \\cdot b \\leq c"), "a \u{d7} b \u{2264} c");
    assert_eq!(format_text_for_slack("x \\neq y"), "x \u{2260} y");
}

#[test]
fn structural_characters_are_escaped() {
    assert_eq!(format_text_for_slack("a<b & c>d"), "a&lt;b &amp; c&gt;d");
}

#[test]
fn escape_applies_inside_converted_math() {
    // `^{` becomes `^(`, and the comparison afterwards is escaped.
    assert_eq!(format_text_for_slack("x^{2} < 5"), "x^(2) &lt; 5");
}

#[test]
fn idempotent_on_token_free_text() {
    let clean = "x + y = z, plainly.";
    let once = format_text_for_slack(clean);
    assert_eq!(once, clean);
    assert_eq!(format_text_for_slack(&once), once);
}

#[test]
fn output_never_holds_angle_brackets() {
    for input in ["<<>>", "\\frac{<}{>}", "a & b < c > d", "already &lt; fine"] {
        let out = format_text_for_slack(input);
        assert!(!out.contains('<'));
        assert!(!out.contains('>'));
    }
}

#[test]
fn every_output_ampersand_begins_an_entity() {
    for input in ["& && &&&", "\\frac{&}{<}", "fish & chips > soup", "&amp;"] {
        let out: Vec<char> = format_text_for_slack(input).chars().collect();
        for (i, c) in out.iter().enumerate() {
            if *c == '&' {
                let tail: String = out[i + 1..].iter().collect();
                assert!(
                    tail.starts_with("amp;") || tail.starts_with("lt;") || tail.starts_with("gt;"),
                    "unescaped & in output of {:?}",
                    input
                );
            }
        }
    }
}

#[test]
fn trig_and_log_names_lose_backslash() {
    assert_eq!(format_text_for_slack("\\sin x + \\log y"), "sin x + log y");
}
