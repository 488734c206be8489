use cli_prompts::prompts::options::multioption_prompt::visible_window_start;
use cli_prompts::prompts::options::Options;

fn fruit() -> Options<String> {
    Options::from_iter(vec![
        "apple".to_string(),
        "banana".to_string(),
        "grape".to_string(),
        "apricot".to_string(),
    ])
}

#[test]
fn new_options_show_everything() {
    let o = fruit();
    assert_eq!(o.filtered_options(), &[0, 1, 2, 3]);
    assert_eq!(o.transformed_options().len(), 4);
    assert_eq!(o.transformed_options()[1], "banana");
}

#[test]
fn filter_keeps_matching_indices_in_order() {
    let mut o = fruit();
    o.filter("ap");
    assert_eq!(o.filtered_options(), &[0, 2, 3]);
    o.filter("an");
    assert_eq!(o.filtered_options(), &[1]);
}

#[test]
fn filter_is_case_sensitive_substring() {
    let mut o = fruit();
    o.filter("AP");
    assert_eq!(o.filtered_options(), &[] as &[usize]);
    o.filter("pric");
    assert_eq!(o.filtered_options(), &[3]);
}

#[test]
fn empty_filter_keeps_everything() {
    let mut o = fruit();
    o.filter("zzz");
    assert!(o.filtered_options().is_empty());
    o.filter("");
    assert_eq!(o.filtered_options(), &[0, 1, 2, 3]);
}

#[test]
fn filter_on_no_options() {
    let mut o: Options<String> = Options::from_iter(vec![]);
    o.filter("a");
    assert!(o.filtered_options().is_empty());
}

#[test]
fn transformed_options_use_the_transformation() {
    let mut o = Options::from_iter_transformed(vec![10u32, 25, 7], |n: &u32| format!("#{}", n));
    assert_eq!(o.transformed_options(), &["#10".to_string(), "#25".to_string(), "#7".to_string()]);
    o.filter("2");
    assert_eq!(o.filtered_options(), &[1]);
    let removed = o.all_options_mut().remove(1);
    assert_eq!(removed, 25);
    assert_eq!(o.transformed_options().len(), 3);
}

#[test]
fn window_centres_the_highlight() {
    assert_eq!(visible_window_start(4, 5, 10), 2);
    assert_eq!(visible_window_start(5, 4, 20), 3);
}

#[test]
fn window_pins_to_the_start() {
    assert_eq!(visible_window_start(0, 5, 10), 0);
    assert_eq!(visible_window_start(1, 5, 10), 0);
}

#[test]
fn window_pins_to_the_end() {
    assert_eq!(visible_window_start(9, 5, 10), 5);
    assert_eq!(visible_window_start(8, 5, 10), 5);
}

#[test]
fn window_with_fewer_rows_than_room() {
    assert_eq!(visible_window_start(2, 5, 3), 0);
    assert_eq!(visible_window_start(0, 5, 0), 0);
}

#[test]
fn window_always_holds_the_highlight() {
    for len in 1..12usize {
        for max in 1..=len {
            for current in 0..len {
                let start = visible_window_start(current, max, len);
                assert!(start <= current && current < start + max && start + max <= len);
            }
        }
    }
}
