use inklings::prompt::confirms;

#[test]
fn only_a_lone_y_confirms() {
    assert!(confirms("y"));
    assert!(confirms("Y"));
    assert!(confirms("y\n"));
    assert!(confirms("  Y \r\n"));
    assert!(confirms("\u{a0}y\u{3000}"));
    assert!(!confirms(""));
    assert!(!confirms("\n"));
    assert!(!confirms("n"));
    assert!(!confirms("yes"));
    assert!(!confirms("yy"));
    assert!(!confirms("y y"));
    assert!(!confirms("Y."));
    assert!(!confirms("ｙ"));
}

#[test]
fn confirming_agrees_with_trimming_and_lowering() {
    let answers = ["y", "Y", " y ", "\ty\r\n", "", " ", "N", "ya", "ay", "y\u{200b}", "\u{2003}Y\u{85}", "ÿ", "Ý", "y\ny"];
    for answer in answers {
        assert_eq!(confirms(answer), answer.trim().to_lowercase() == "y", "for {:?}", answer);
    }
}

#[test]
fn white_space_is_what_the_standard_library_says() {
    for code in 0..=0x10ffffu32 {
        if let Some(c) = char::from_u32(code) {
            let mut answer = String::new();
            answer.push(c);
            answer.push('y');
            assert_eq!(confirms(&answer), c.is_whitespace(), "for U+{:04X}", code);
        }
    }
}
