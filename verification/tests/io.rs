use pkgls::io::{Input, InputFormat, OutputFormat, parse_input_format, parse_output_format};

fn names(xs: &[&str]) -> Vec<String> {
    xs.iter().map(|s| s.to_string()).collect()
}

#[test]
fn input_list_sorts_and_removes_duplicates() {
    let list: Vec<String> = vec!["a".into(), "c".into(), "b".into()];
    let mut duped_list = list.clone();
    duped_list.push("a".into());
    let input = Input::from_list(duped_list);
    let expected_list: Vec<String> = vec!["a".into(), "b".into(), "c".into()];
    assert_eq!(input.list, expected_list);
    assert_eq!(input.format, InputFormat::Stdin);
}

#[test]
fn input_reads_file_sorts_and_removes_duplicates() {
    let lines = names(&["lsd", "broot", "bat", "lsd"]);
    let input = Input::from_lines(lines, "test/example.txt");
    assert_eq!(input.format, InputFormat::Txt);
    let expected_list: Vec<String> = vec!["bat".into(), "broot".into(), "lsd".into()];
    assert_eq!(input.list, expected_list);
}

#[test]
fn input_appends_list() {
    let list: Vec<String> = vec!["a".into(), "c".into(), "b".into()];
    let mut input = Input::from_list(list);
    input.append_list(vec!["d".into()]);
    let expected_list: Vec<String> = vec!["a".into(), "b".into(), "c".into(), "d".into()];
    assert_eq!(input.list, expected_list);
}

#[test]
fn normalizing_is_idempotent() {
    let raw = names(&["pacman", "bat", "bat", "zsh", "alacritty", "zsh"]);
    let once = Input::from_list(raw);
    let twice = Input::from_list(once.list.clone());
    assert_eq!(once.list, twice.list);
    assert_eq!(once.list, names(&["alacritty", "bat", "pacman", "zsh"]));
}

#[test]
fn appending_duplicates_changes_nothing() {
    let mut input = Input::from_list(names(&["b", "a"]));
    input.append_list(names(&["a", "b", "a"]));
    assert_eq!(input.list, names(&["a", "b"]));
}

#[test]
fn file_lines_drop_comments_and_blanks() {
    let lines = names(&[
        "# the essentials",
        "",
        "lsd",
        "bat # a better cat",
        "  broot  ",
        "# done",
    ]);
    let input = Input::from_lines(lines, "pkg.txt");
    assert_eq!(input.list, names(&["bat", "broot", "lsd"]));
}

#[test]
fn whitespace_only_line_keeps_an_empty_name() {
    let lines = names(&["   ", "bat"]);
    let input = Input::from_lines(lines, "pkg.txt");
    assert_eq!(input.list, names(&["", "bat"]));
}

#[test]
fn missing_is_empty_exactly_when_desired_is_installed() {
    let desired = names(&["bat", "lsd"]);
    let installed = names(&["bat", "lsd", "zsh"]);
    assert_eq!(
        pkgls::names::missing_names(&desired, &installed),
        names(&[])
    );
    let partial = names(&["bat"]);
    assert_eq!(
        pkgls::names::missing_names(&desired, &partial),
        names(&["lsd"])
    );
}

#[test]
fn everything_is_missing_from_an_empty_snapshot() {
    let desired = names(&["bat", "lsd"]);
    assert_eq!(
        pkgls::names::missing_names(&desired, &names(&[])),
        desired
    );
}

#[test]
fn nothing_is_missing_from_an_empty_desired_list() {
    let installed = names(&["bat", "lsd"]);
    assert_eq!(
        pkgls::names::missing_names(&names(&[]), &installed),
        names(&[])
    );
}

#[test]
fn missing_keeps_the_desired_order() {
    let desired = names(&["a", "c", "e"]);
    let installed = names(&["c", "x"]);
    assert_eq!(
        pkgls::names::missing_names(&desired, &installed),
        names(&["a", "e"])
    );
}

#[test]
fn formats_default_to_plain_text() {
    assert_eq!(parse_output_format("list.json"), OutputFormat::Txt);
    assert_eq!(parse_output_format("list"), OutputFormat::Txt);
    assert_eq!(parse_input_format("list.txt"), InputFormat::Txt);
}
