use cli_prompts::engine::{CrosstermCommandBuffer, DrawCommand};
use cli_prompts::input::Key;
use cli_prompts::{AbortReason, Confirmation, EventOutcome, Input, Multiselect, Prompt, Selection};

fn printed(buffer: &CrosstermCommandBuffer) -> Vec<String> {
    buffer
        .commands()
        .iter()
        .filter_map(|c| match c {
            DrawCommand::Print(s) => Some(s.clone()),
            _ => None,
        })
        .collect()
}

fn new_lines(buffer: &CrosstermCommandBuffer) -> usize {
    buffer.commands().iter().filter(|c| matches!(c, DrawCommand::NewLine)).count()
}

fn accept_all(s: &str) -> Result<String, String> {
    Ok(s.to_string())
}

fn parse_number(s: &str) -> Result<u32, String> {
    s.parse::<u32>().map_err(|_| "not a number".to_string())
}

#[test]
fn input_default_submitted_on_first_enter() {
    let mut p = Input::new("Name", accept_all).default_value("bob");
    match p.on_event(Key::Enter) {
        EventOutcome::Done(v) => assert_eq!(v, "bob"),
        other => panic!("unexpected {:?}", other),
    }
}

#[test]
fn input_default_converted_by_validation() {
    let mut p = Input::new("Age", parse_number).default_value("42");
    assert!(matches!(p.on_event(Key::Enter), EventOutcome::Done(42)));
}

#[test]
fn input_first_key_replaces_default() {
    let mut p = Input::new("Name", accept_all).default_value("bob");
    assert!(matches!(p.on_event(Key::Char('a')), EventOutcome::Continue));
    assert!(matches!(p.on_event(Key::Char('l')), EventOutcome::Continue));
    match p.on_event(Key::Enter) {
        EventOutcome::Done(v) => assert_eq!(v, "al"),
        other => panic!("unexpected {:?}", other),
    }
}

#[test]
fn input_first_backspace_clears_default() {
    let mut p = Input::new("Name", accept_all).default_value("bob");
    p.on_event(Key::Backspace);
    p.on_event(Key::Char('x'));
    p.on_event(Key::Char('y'));
    p.on_event(Key::Backspace);
    match p.on_event(Key::Enter) {
        EventOutcome::Done(v) => assert_eq!(v, "x"),
        other => panic!("unexpected {:?}", other),
    }
}

#[test]
fn input_failed_validation_shows_error_and_clears() {
    let mut p = Input::new("Age", parse_number);
    p.on_event(Key::Char('x'));
    assert!(matches!(p.on_event(Key::Enter), EventOutcome::Continue));
    let mut b = CrosstermCommandBuffer::new();
    p.draw(&mut b);
    assert!(printed(&b).contains(&"[not a number]".to_string()));
    p.on_event(Key::Char('7'));
    assert!(matches!(p.on_event(Key::Enter), EventOutcome::Done(7)));
}

#[test]
fn input_escape_interrupts() {
    let mut p = Input::new("Name", accept_all);
    assert!(matches!(p.on_event(Key::Esc), EventOutcome::Abort(AbortReason::Interrupt)));
}

#[test]
fn input_draws_label_default_and_help() {
    let p = Input::new("Name", accept_all).default_value("bob").help_message("first name");
    let mut b = CrosstermCommandBuffer::new();
    p.draw(&mut b);
    assert_eq!(
        printed(&b),
        vec!["?", " ", "Name", ":", " ", "[bob]", "[first name]"]
    );
    assert_eq!(new_lines(&b), 0);
}

#[test]
fn confirmation_enter_gives_default() {
    let mut c = Confirmation::new("Continue?").default_positive(true);
    assert!(matches!(c.on_event(Key::Enter), EventOutcome::Done(true)));
}

#[test]
fn confirmation_n_then_enter_gives_no() {
    let mut c = Confirmation::new("Continue?").default_positive(true);
    assert!(matches!(c.on_event(Key::Char('n')), EventOutcome::Continue));
    assert!(matches!(c.on_event(Key::Enter), EventOutcome::Done(false)));
}

#[test]
fn confirmation_negative_default() {
    let mut c = Confirmation::new("Continue?").default_positive(false);
    assert!(matches!(c.on_event(Key::Enter), EventOutcome::Done(false)));
}

#[test]
fn confirmation_first_answer_sticks_until_backspace() {
    let mut c = Confirmation::new("Continue?");
    c.on_event(Key::Char('N'));
    c.on_event(Key::Char('y'));
    assert!(matches!(c.on_event(Key::Enter), EventOutcome::Done(false)));
    let mut c = Confirmation::new("Continue?");
    c.on_event(Key::Char('n'));
    c.on_event(Key::Backspace);
    c.on_event(Key::Char('Y'));
    assert!(matches!(c.on_event(Key::Enter), EventOutcome::Done(true)));
}

#[test]
fn confirmation_escape_interrupts() {
    let mut c = Confirmation::new("Continue?");
    assert!(matches!(c.on_event(Key::Esc), EventOutcome::Abort(AbortReason::Interrupt)));
}

#[test]
fn confirmation_draws_answers_with_default_capitalised() {
    let mut c = Confirmation::new("Go").default_positive(false);
    let mut b = CrosstermCommandBuffer::new();
    c.draw(&mut b);
    assert_eq!(printed(&b), vec!["?", " ", "Go [y/N]", ":", " ", ""]);
    c.on_event(Key::Char('y'));
    let mut b = CrosstermCommandBuffer::new();
    c.draw(&mut b);
    assert_eq!(printed(&b).last().unwrap(), "Yes");
}

fn cities() -> Vec<String> {
    ["Warsaw", "Berlin", "Zurich", "Milano", "Montreal", "Tokio", "Sydney", "Cairo"]
        .iter()
        .map(|s| s.to_string())
        .collect()
}

#[test]
fn selection_enter_returns_highlighted_value() {
    let mut s = Selection::new("City", cities());
    s.on_event(Key::Down);
    s.on_event(Key::Down);
    match s.on_event(Key::Enter) {
        EventOutcome::Done(v) => assert_eq!(v, "Zurich"),
        other => panic!("unexpected {:?}", other),
    }
}

#[test]
fn selection_filter_then_submit() {
    let mut s = Selection::new("City", cities());
    s.on_event(Key::Char('M'));
    s.on_event(Key::Down);
    match s.on_event(Key::Enter) {
        EventOutcome::Done(v) => assert_eq!(v, "Montreal"),
        other => panic!("unexpected {:?}", other),
    }
}

#[test]
fn selection_highlight_is_clamped() {
    let mut s = Selection::new("City", vec!["a", "b"]);
    s.on_event(Key::Up);
    s.on_event(Key::Down);
    s.on_event(Key::Down);
    s.on_event(Key::Down);
    assert!(matches!(s.on_event(Key::Enter), EventOutcome::Done("b")));
}

#[test]
fn selection_enter_ignored_without_matches() {
    let mut s = Selection::new("City", cities());
    s.on_event(Key::Char('q'));
    s.on_event(Key::Down);
    assert!(matches!(s.on_event(Key::Enter), EventOutcome::Continue));
    s.on_event(Key::Backspace);
    assert!(matches!(s.on_event(Key::Enter), EventOutcome::Done(ref v) if v == "Warsaw"));
}

#[test]
fn selection_escape_interrupts() {
    let mut s = Selection::new("City", cities());
    assert!(matches!(s.on_event(Key::Esc), EventOutcome::Abort(AbortReason::Interrupt)));
}

#[test]
fn selection_draws_window_and_placeholders() {
    let mut s = Selection::new("City", cities()).displayed_options_count(3);
    for _ in 0..5 {
        s.on_event(Key::Down);
    }
    let mut b = CrosstermCommandBuffer::new();
    s.draw(&mut b);
    let text = printed(&b);
    assert!(text.contains(&"Montreal".to_string()));
    assert!(text.contains(&"Tokio".to_string()));
    assert!(text.contains(&"Sydney".to_string()));
    assert!(!text.contains(&"Cairo".to_string()));
    assert!(text.contains(&"> ".to_string()));
    assert_eq!(new_lines(&b), 4);

    s.on_event(Key::Char('W'));
    let mut b = CrosstermCommandBuffer::new();
    s.draw(&mut b);
    assert!(printed(&b).contains(&"Warsaw".to_string()));
    assert_eq!(new_lines(&b), 4);
}

#[test]
fn selection_with_transformation() {
    let mut s = Selection::new_with_transformation("N", vec![3u8, 14, 15], |n: &u8| format!("n{}", n));
    s.on_event(Key::Char('1'));
    s.on_event(Key::Char('5'));
    assert!(matches!(s.on_event(Key::Enter), EventOutcome::Done(15)));
}

#[test]
fn multiselect_returns_values_in_ascending_order() {
    let mut m = Multiselect::new("Pick", vec!["a", "b", "c", "d", "e"]);
    m.on_event(Key::Down);
    m.on_event(Key::Down);
    m.on_event(Key::Char(' '));
    m.on_event(Key::Up);
    m.on_event(Key::Up);
    m.on_event(Key::Char(' '));
    m.on_event(Key::Down);
    m.on_event(Key::Down);
    m.on_event(Key::Down);
    m.on_event(Key::Char(' '));
    match m.on_event(Key::Enter) {
        EventOutcome::Done(v) => assert_eq!(v, vec!["a", "c", "d"]),
        other => panic!("unexpected {:?}", other),
    }
}

#[test]
fn multiselect_enter_needs_a_choice() {
    let mut m = Multiselect::new("Pick", vec!["a", "b"]);
    assert!(matches!(m.on_event(Key::Enter), EventOutcome::Continue));
    m.on_event(Key::Char(' '));
    m.on_event(Key::Char(' '));
    assert!(matches!(m.on_event(Key::Enter), EventOutcome::Continue));
}

#[test]
fn multiselect_space_clears_active_filter() {
    let mut m = Multiselect::new("Pick", vec!["alpha", "beta", "gamma"]);
    m.on_event(Key::Char('g'));
    m.on_event(Key::Char(' '));
    m.on_event(Key::Char(' '));
    match m.on_event(Key::Enter) {
        EventOutcome::Done(v) => assert_eq!(v, vec!["alpha", "gamma"]),
        other => panic!("unexpected {:?}", other),
    }
}

#[test]
fn multiselect_escape_is_ignored() {
    let mut m = Multiselect::new("Pick", vec!["a"]);
    assert!(matches!(m.on_event(Key::Esc), EventOutcome::Continue));
}

#[test]
fn multiselect_draws_check_boxes_and_help() {
    let mut m = Multiselect::new("Pick", vec!["a", "b"]);
    m.on_event(Key::Char(' '));
    let mut b = CrosstermCommandBuffer::new();
    m.draw(&mut b);
    let text = printed(&b);
    assert!(text.contains(&"[Space to select, enter to submit]".to_string()));
    assert!(text.contains(&"[x]".to_string()));
    assert!(text.contains(&"[ ]".to_string()));
    assert_eq!(new_lines(&b), 6);
}

#[test]
fn multiselect_submitted_header_lists_choices() {
    let mut m = Multiselect::new_transformed("Pick", vec![1u8, 2, 3], |n: &u8| format!("v{}", n))
        .dont_display_help_message()
        .max_displayed_options(2);
    m.on_event(Key::Down);
    m.on_event(Key::Down);
    m.on_event(Key::Char(' '));
    m.on_event(Key::Up);
    m.on_event(Key::Char(' '));
    assert!(matches!(m.on_event(Key::Enter), EventOutcome::Done(ref v) if v == &vec![2u8, 3]));
    let mut b = CrosstermCommandBuffer::new();
    m.draw(&mut b);
    let text = printed(&b);
    assert_eq!(&text[text.len() - 3..], &["v2", ", ", "v3"]);
    assert_eq!(new_lines(&b), 0);
}

#[test]
fn selection_with_no_visible_rows() {
    let s = Selection::new("City", cities()).displayed_options_count(0);
    let mut b = CrosstermCommandBuffer::new();
    s.draw(&mut b);
    assert_eq!(new_lines(&b), 1);
    assert!(!printed(&b).contains(&"Warsaw".to_string()));
}

#[test]
fn multiselect_space_without_matches_only_clears_filter() {
    let mut m = Multiselect::new("Pick", vec!["a", "b"]);
    m.on_event(Key::Char('z'));
    assert!(matches!(m.on_event(Key::Char(' ')), EventOutcome::Continue));
    assert!(matches!(m.on_event(Key::Enter), EventOutcome::Continue));
    m.on_event(Key::Down);
    m.on_event(Key::Char(' '));
    assert!(matches!(m.on_event(Key::Enter), EventOutcome::Done(ref v) if v == &vec!["b"]));
}

#[test]
fn selection_of_no_options() {
    let mut s: Selection<String> = Selection::new("City", vec![]);
    s.on_event(Key::Down);
    s.on_event(Key::Up);
    assert!(matches!(s.on_event(Key::Enter), EventOutcome::Continue));
    let mut b = CrosstermCommandBuffer::new();
    s.draw(&mut b);
    assert_eq!(new_lines(&b), 6);
}

#[test]
fn input_escape_can_be_disabled() {
    let mut p = Input::new("Name", accept_all).esc_interrupts(false);
    assert!(matches!(p.on_event(Key::Esc), EventOutcome::Continue));
    p.on_event(Key::Char('q'));
    match p.on_event(Key::Enter) {
        EventOutcome::Done(v) => assert_eq!(v, "q"),
        other => panic!("unexpected {:?}", other),
    }
}
