use cli_prompts::engine::{CrosstermCommandBuffer, DrawCommand};
use cli_prompts::input::Key;
use cli_prompts::style::multiselection_style::Marker as CheckBox;
use cli_prompts::style::selection_style::Marker;
use cli_prompts::style::{
    Color, ConfirmationStyle, Formatting, InputStyle, LabelStyle, MultiselectionStyle, SelectionStyle,
};
use cli_prompts::{Confirmation, Input, Prompt, Selection};

fn printed(buffer: &CrosstermCommandBuffer) -> Vec<String> {
    buffer
        .commands()
        .iter()
        .filter_map(|c| match c {
            DrawCommand::Print(s) => Some(s.clone()),
            _ => None,
        })
        .collect()
}

#[test]
fn custom_selection_markers_are_drawn() {
    let style = SelectionStyle::default()
        .selected_marker(Marker { marker: "* ".to_string(), formatting: Formatting::default() })
        .not_selected_marker(Marker { marker: "- ".to_string(), formatting: Formatting::default() })
        .option_formatting(Formatting::default().underline())
        .submitted_formatting(Formatting::default())
        .label_style(LabelStyle::default().prefix("#"));
    let s = Selection::new("Pick", vec!["a", "b"]).style(style);
    let mut b = CrosstermCommandBuffer::new();
    s.draw(&mut b);
    assert_eq!(printed(&b), vec!["#", " ", "Pick", ":", " ", "", "* ", "a", "- ", "b"]);
}

#[test]
fn submitted_selection_shows_choice_only() {
    let mut s = Selection::new("Pick", vec!["a", "b"]);
    s.on_event(Key::Down);
    s.on_event(Key::Enter);
    let mut b = CrosstermCommandBuffer::new();
    s.draw(&mut b);
    assert_eq!(printed(&b), vec!["?", " ", "Pick", ":", " ", "b"]);
    assert!(!b.commands().iter().any(|c| matches!(c, DrawCommand::NewLine)));
}

#[test]
fn input_style_formats_submitted_text() {
    let style = InputStyle::default()
        .submitted_formatting(Formatting::default().foreground_color(Color::Blue))
        .input_formatting(Formatting::default())
        .error_formatting(Formatting::default())
        .default_value_formatting(Formatting::default())
        .help_message_formatting(Formatting::default())
        .label_style(LabelStyle::default().prefix_formatting(Formatting::default()));
    let mut p = Input::new("Name", |s: &str| Ok::<String, String>(s.to_string())).style(style);
    p.on_event(Key::Char('z'));
    p.on_event(Key::Enter);
    let mut b = CrosstermCommandBuffer::new();
    p.draw(&mut b);
    let c = b.commands();
    let n = c.len();
    assert!(matches!(&c[n - 2], DrawCommand::Print(s) if s == "z"));
    assert!(matches!(&c[n - 3], DrawCommand::SetFormatting(f) if matches!(f.foreground_color, Some(Color::Blue))));
}

#[test]
fn confirmation_style_formats_answer() {
    let style = ConfirmationStyle::default()
        .input_formatting(Formatting::default().foreground_color(Color::Cyan))
        .submitted_formatting(Formatting::default().foreground_color(Color::Magenta))
        .label_style(LabelStyle::default());
    let mut c = Confirmation::new("Ok").style(style);
    c.on_event(Key::Char('y'));
    c.on_event(Key::Enter);
    let mut b = CrosstermCommandBuffer::new();
    c.draw(&mut b);
    let cmds = b.commands();
    let n = cmds.len();
    assert!(matches!(&cmds[n - 2], DrawCommand::Print(s) if s == "Yes"));
    assert!(matches!(&cmds[n - 3], DrawCommand::SetFormatting(f) if matches!(f.foreground_color, Some(Color::Magenta))));
}

#[test]
fn check_box_texts() {
    let style = MultiselectionStyle::default();
    let mut b = CrosstermCommandBuffer::new();
    style.print_option("apple", true, false, &mut b);
    style.print_option("pear", false, true, &mut b);
    assert_eq!(printed(&b), vec!["[x]", " ", "apple", "[ ]", " ", "pear"]);
    let custom = CheckBox {
        opening_sign: "<".to_string(),
        closing_sign: ">".to_string(),
        selection_sign: "o".to_string(),
    };
    let mut b = CrosstermCommandBuffer::new();
    custom.print(true, &mut b);
    custom.print(false, &mut b);
    assert_eq!(printed(&b), vec!["<o>", "< >"]);
}
