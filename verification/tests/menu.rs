use pointer_horror::menu::{menu_action, prompt_answered, trim, white_space, MenuAction};

#[test]
fn menu_lines() {
    assert_eq!(menu_action(2, "1\n", 4), MenuAction::Run(1));
    assert_eq!(menu_action(4, "  4 \n", 4), MenuAction::Run(4));
    assert_eq!(menu_action(2, "5\n", 4), MenuAction::Unknown);
    assert_eq!(menu_action(2, "3\n", 2), MenuAction::Unknown);
    assert_eq!(menu_action(2, "0\n", 4), MenuAction::Unknown);
    assert_eq!(menu_action(2, "q\n", 4), MenuAction::Quit);
    assert_eq!(menu_action(3, "Q\r\n", 2), MenuAction::Quit);
    assert_eq!(menu_action(3, "qq\n", 2), MenuAction::Unknown);
    assert_eq!(menu_action(1, "\n", 4), MenuAction::Unknown);
    assert_eq!(menu_action(0, "", 4), MenuAction::EndOfInput);
}

#[test]
fn trimming() {
    assert_eq!(trim("  hello \t\n"), "hello");
    assert_eq!(trim("a b"), "a b");
    assert_eq!(trim(" \n\t "), "");
    assert_eq!(trim("\u{3000}x\u{a0}"), "x");
    for s in ["  1 ", "x\u{2003}", "\u{85}yz", "", "é  "] {
        assert_eq!(trim(s), s.trim());
    }
}

#[test]
fn white_space_matches_std() {
    for c in ['\t', '\n', '\u{b}', '\u{c}', '\r', ' ', '\u{85}', '\u{a0}', '\u{1680}', '\u{2000}', '\u{200a}', '\u{2028}', '\u{2029}', '\u{202f}', '\u{205f}', '\u{3000}', 'a', '1', '\u{200b}', '\u{feff}', 'é'] {
        assert_eq!(white_space(c), c.is_whitespace(), "{:?}", c);
    }
}

#[test]
fn prompts_end_at_end_of_input() {
    assert!(prompt_answered(1));
    assert!(!prompt_answered(0));
}
