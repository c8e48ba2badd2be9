use pointer_horror::style::{cl, code_close, code_open, code_open_c, code_open_rust, p};

#[test]
fn gutter_text() {
    assert_eq!(p(), "  \x1b[2m│\x1b[0m  ");
    assert_eq!(cl(), p());
}

#[test]
fn code_frames() {
    let rule = "─".repeat(52);
    assert_eq!(
        code_open_c(),
        format!("\x1b[2m  ╭─ \x1b[0m\x1b[1m\x1b[91mc\x1b[0m \x1b[2m{rule}\n  │\x1b[0m\n")
    );
    assert_eq!(code_open_rust(), code_open("rust", "\x1b[92m"));
    assert_eq!(code_close(), format!("\x1b[2m  │\n  ╰{}\x1b[0m\n\n", "─".repeat(58)));
}
