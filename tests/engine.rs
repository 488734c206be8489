use cli_prompts::engine::{
    Clear, CommandBuffer, CrosstermCommandBuffer, CrosstermEngine, DrawCommand, Engine, TerminalCommand,
};
use cli_prompts::input::Key;
use cli_prompts::prompts::session::{handle_key, show_frame};
use cli_prompts::raw_mode::{RawMode, RawModeFlag};
use cli_prompts::style::{Color, Formatting, FormattingOption, LabelStyle};
use cli_prompts::{Confirmation, EventOutcome};

fn kinds(out: &[TerminalCommand]) -> Vec<&'static str> {
    out.iter()
        .map(|c| match c {
            TerminalCommand::ClearCurrentLine => "clear",
            TerminalCommand::MoveToPreviousLine => "up",
            TerminalCommand::MoveToLineStart => "start",
            TerminalCommand::Draw(DrawCommand::NewLine) => "nl",
            TerminalCommand::Draw(DrawCommand::Print(_)) => "print",
            TerminalCommand::Draw(DrawCommand::SetFormatting(_)) => "fmt",
        })
        .collect()
}

#[test]
fn first_render_erases_one_line() {
    let mut e = CrosstermEngine::new();
    let mut b = e.get_command_buffer();
    b.print("hi");
    e.render(&b);
    assert_eq!(kinds(&e.take_output()), vec!["clear", "start", "print"]);
    assert!(e.take_output().is_empty());
}

#[test]
fn render_erases_exactly_the_previous_frame() {
    let mut e = CrosstermEngine::new();
    let mut b = e.get_command_buffer();
    b.print("a");
    b.new_line();
    b.print("b");
    b.new_line();
    b.print("c");
    e.render(&b);
    e.take_output();
    b.clear();
    b.print("x");
    e.render(&b);
    assert_eq!(
        kinds(&e.take_output()),
        vec!["clear", "up", "clear", "up", "clear", "start", "print"]
    );
    b.clear();
    e.render(&b);
    assert_eq!(kinds(&e.take_output()), vec!["clear", "start"]);
}

#[test]
fn finish_rendering_breaks_the_line() {
    let mut e = CrosstermEngine::new();
    e.finish_rendering();
    assert_eq!(kinds(&e.take_output()), vec!["nl"]);
}

#[test]
fn buffer_records_operations_in_order() {
    let mut b = CrosstermCommandBuffer::new();
    let f = Formatting::default().bold().foreground_color(Color::Red);
    f.print("warn", &mut b);
    let c = b.commands();
    assert_eq!(c.len(), 3);
    match &c[0] {
        DrawCommand::SetFormatting(g) => {
            assert!(matches!(g.foreground_color, Some(Color::Red)));
            assert!(matches!(g.text_formatting.as_slice(), [FormattingOption::Bold]));
        }
        other => panic!("unexpected {:?}", other),
    }
    assert!(matches!(&c[1], DrawCommand::Print(s) if s == "warn"));
    match &c[2] {
        DrawCommand::SetFormatting(g) => {
            assert!(g.foreground_color.is_none());
            assert!(matches!(g.text_formatting.as_slice(), [FormattingOption::Reset]));
        }
        other => panic!("unexpected {:?}", other),
    }
    b.clear();
    assert!(b.commands().is_empty());
}

#[test]
fn formatting_builders() {
    let f = Formatting::default()
        .italic()
        .underline()
        .crossed_out()
        .background_color(Color::Rgb { r: 1, g: 2, b: 3 });
    assert!(matches!(
        f.text_formatting.as_slice(),
        [FormattingOption::Italic, FormattingOption::Underline, FormattingOption::CrossedOut]
    ));
    assert!(matches!(f.background_color, Some(Color::Rgb { r: 1, g: 2, b: 3 })));
    assert!(f.foreground_color.is_none());
}

#[test]
fn label_style_prints_prefix_and_label() {
    let style = LabelStyle::default().prefix(">>").prompt_formatting(Formatting::default());
    let mut b = CrosstermCommandBuffer::new();
    style.print_cmd("Name", &mut b);
    let texts: Vec<String> = b
        .commands()
        .iter()
        .filter_map(|c| match c {
            DrawCommand::Print(s) => Some(s.clone()),
            _ => None,
        })
        .collect();
    assert_eq!(texts, vec![">>", " ", "Name", ":", " "]);
}

#[test]
fn session_redraws_after_each_key() {
    let mut e = CrosstermEngine::new();
    let mut b = e.get_command_buffer();
    let mut c = Confirmation::new("Sure?");
    show_frame(&c, &mut e, &mut b);
    assert_eq!(kinds(&e.take_output())[..2], ["clear", "start"]);
    assert!(matches!(handle_key(&mut c, &mut e, &mut b, Key::Char('y')), EventOutcome::Continue));
    assert_eq!(kinds(&e.take_output())[..2], ["clear", "start"]);
    assert!(matches!(handle_key(&mut c, &mut e, &mut b, Key::Enter), EventOutcome::Done(true)));
    let out = kinds(&e.take_output());
    assert_eq!(out.last(), Some(&"nl"));
}

#[test]
fn session_abort_renders_nothing() {
    let mut e = CrosstermEngine::new();
    let mut b = e.get_command_buffer();
    let mut c = Confirmation::new("Sure?");
    show_frame(&c, &mut e, &mut b);
    e.take_output();
    assert!(matches!(handle_key(&mut c, &mut e, &mut b, Key::Esc), EventOutcome::Abort(_)));
    assert!(e.take_output().is_empty());
}

#[test]
fn raw_mode_already_on_stays_on() {
    let mut flag = RawModeFlag { enabled: true };
    let guard = RawMode::ensure(&mut flag);
    assert!(flag.enabled);
    assert!(guard.was_enabled());
    guard.release(&mut flag);
    assert!(flag.enabled);
}

#[test]
fn raw_mode_switched_on_is_switched_off() {
    let mut flag = RawModeFlag { enabled: false };
    let guard = RawMode::ensure(&mut flag);
    assert!(flag.enabled);
    assert!(!guard.was_enabled());
    guard.release(&mut flag);
    assert!(!flag.enabled);
}

#[test]
fn nested_guards_compose() {
    let mut flag = RawModeFlag { enabled: false };
    let outer = RawMode::ensure(&mut flag);
    let inner = RawMode::ensure(&mut flag);
    inner.release(&mut flag);
    assert!(flag.enabled);
    outer.release(&mut flag);
    assert!(!flag.enabled);
}
