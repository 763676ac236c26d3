use pack::echo::{Renderer, TermColor};

#[test]
fn test_line() {
    let mut r = Renderer::new();
    r.line();
    r.line();
    assert_eq!(r.line(), 2);
}

#[test]
fn test_line_counts_up_from_zero() {
    let mut r = Renderer::new();
    assert_eq!(r.lines(), 0);
    assert_eq!(r.line(), 0);
    assert_eq!(r.line(), 1);
    assert_eq!(r.lines(), 2);
}

#[test]
fn test_write_primitives_do_not_panic() {
    let mut r = Renderer::new();
    let l = r.line();
    r.message(l, 0, "    [demo] syncing");
    r.inline_message(l, 9, "building");
    r.character(l, 3, '+', TermColor::Green);
    r.character(l, 3, 'x', TermColor::Red);
    r.character(l, 3, '-', TermColor::Plain);
    r.async_print(l, 4, "done");
}

#[test]
fn test_long_message_saturates_instead_of_panicking() {
    let mut r = Renderer::new();
    let l = r.line();
    let long = "x".repeat(70000);
    r.message(l, 0, &long);
    r.inline_message(l, 65535, "tail");
}
