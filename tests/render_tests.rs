use metalfetch::config::Config;
use metalfetch::probe::{Field, ProbeOutcome, SnapshotBuilder, SystemSnapshot};
use metalfetch::render::{
    compose_rows, info_lines, logo_lines, paint_logo, render, shown_fields, Palette, Role,
};

fn snapshot() -> SystemSnapshot {
    let mut b = SnapshotBuilder::new();
    while let Some(f) = b.next_field() {
        b.record(ProbeOutcome::Found(format!("{}-value", f.key()))).unwrap();
    }
    b.finish().unwrap()
}

fn strings(v: &[&str]) -> Vec<String> {
    v.iter().map(|s| s.to_string()).collect()
}

#[test]
fn unknown_keys_produce_no_row() {
    let order = strings(&["Bogus", "OS", "", "Kernel", "os", "OS"]);
    assert_eq!(shown_fields(&order), vec![Field::Os, Field::Kernel, Field::Os]);
    let mut c = Config::default();
    c.info_order = strings(&["Nope", "Shell"]);
    c.show_logo = false;
    let r = render(&snapshot(), &c);
    assert_eq!(r.len(), 1);
    assert!(r[0].contains("Shell-value"));
}

#[test]
fn unlisted_color_names_take_role_defaults() {
    assert_eq!(Palette::for_role("purple", Role::Label), Palette::Blue);
    assert_eq!(Palette::for_role("purple", Role::Value), Palette::White);
    assert_eq!(Palette::for_role("", Role::Logo), Palette::Cyan);
    assert_eq!(Palette::for_role("Blue", Role::Logo), Palette::Cyan);
    assert_eq!(Palette::for_role("white", Role::Label), Palette::White);
    assert_eq!(Palette::for_role("magenta", Role::Value), Palette::Magenta);
}

#[test]
fn row_count_is_the_longer_column() {
    let logo = logo_lines();
    assert_eq!(logo.len(), 27);
    let s = snapshot();
    let mut c = Config::default();
    assert_eq!(render(&s, &c).len(), 27);
    c.show_logo = false;
    assert_eq!(render(&s, &c).len(), 11);
    c.info_order = Vec::new();
    assert_eq!(render(&s, &c).len(), 0);
    c.show_logo = true;
    assert_eq!(render(&s, &c).len(), 27);
    let many: Vec<String> = (0..40).map(|_| "OS".to_string()).collect();
    c.info_order = many;
    assert_eq!(render(&s, &c).len(), 40);
}

#[test]
fn rows_are_padded_to_the_fixed_column() {
    let logo = strings(&["ab", "cd"]);
    let info = strings(&["x", "y", "z"]);
    let r = compose_rows(&logo, &info, true, 2);
    assert_eq!(r.len(), 3);
    assert_eq!(r[0], format!("ab{} x", " ".repeat(60)));
    assert_eq!(r[2], format!("{} z", " ".repeat(62)));
    let r = compose_rows(&strings(&["a", "b", "c"]), &strings(&["x"]), true, 0);
    assert_eq!(r[1], "b");
    let r = compose_rows(&logo, &info, false, 0);
    assert_eq!(r.len(), 3);
    assert_eq!(r[1], format!("{} y", " ".repeat(60)));
}

#[test]
fn value_is_tinted_in_its_bright_color() {
    let s = snapshot();
    let r = info_lines(&s, &vec![Field::Kernel], Palette::Blue, Palette::White);
    assert_eq!(r.len(), 1);
    assert!(r[0].ends_with(" \u{1b}[97mKernel-value\u{1b}[39m"));
    let r = info_lines(&s, &vec![Field::Os], Palette::Blue, Palette::Green);
    assert!(r[0].ends_with(" \u{1b}[92mOS-value\u{1b}[39m"));
}

#[test]
fn label_and_logo_are_colored_when_coloring_is_on() {
    colored::control::set_override(true);
    let s = snapshot();
    let r = info_lines(&s, &vec![Field::Shell], Palette::Red, Palette::White);
    assert_eq!(r[0], "\u{1b}[1;91mShell\u{1b}[0m \u{1b}[97mShell-value\u{1b}[39m");
    let p = paint_logo(&strings(&["88::88"]), Palette::Cyan);
    assert_eq!(p, vec!["\u{1b}[96m88::88\u{1b}[0m".to_string()]);
}

#[test]
fn label_and_logo_are_plain_when_coloring_is_off() {
    colored::control::set_override(false);
    let p = paint_logo(&strings(&["88::88"]), Palette::Yellow);
    assert_eq!(p, vec!["88::88".to_string()]);
}
