use acb::editor::split_editor;

#[test]
fn edit_split_editor_handles_args_and_quotes() {
    assert_eq!(split_editor("vi"), vec!["vi"]);
    assert_eq!(split_editor("code --wait"), vec!["code", "--wait"]);
    assert_eq!(
        split_editor("\"/path with space/ed\" -x"),
        vec!["/path with space/ed", "-x"]
    );
}

#[test]
fn edit_split_editor_does_not_interpret_shell_operators() {
    // `;` / `&&` / `$(...)` are literal characters, not command chaining:
    // a hostile $EDITOR can only name a program + args, never inject.
    assert_eq!(split_editor("vi; rm -rf /"), vec!["vi;", "rm", "-rf", "/"]);
    assert_eq!(split_editor("$(touch pwned)"), vec!["$(touch", "pwned)"]);
}

#[test]
fn mod_split_editor_handles_args_and_quotes() {
    assert_eq!(split_editor("vi"), vec!["vi"]);
    assert_eq!(split_editor("code --wait"), vec!["code", "--wait"]);
    assert_eq!(
        split_editor("\"/path with space/ed\" -x"),
        vec!["/path with space/ed", "-x"]
    );
}

#[test]
fn mod_split_editor_does_not_interpret_shell_operators() {
    assert_eq!(split_editor("vi; rm -rf /"), vec!["vi;", "rm", "-rf", "/"]);
    assert_eq!(split_editor("$(touch pwned)"), vec!["$(touch", "pwned)"]);
}

#[test]
fn split_editor_empty_and_blank_give_no_words() {
    assert!(split_editor("").is_empty());
    assert!(split_editor("   \t ").is_empty());
}

#[test]
fn split_editor_single_quotes_group_and_keep_double_quotes() {
    assert_eq!(split_editor("'a \"b\" c' d"), vec!["a \"b\" c", "d"]);
    // An empty quoted argument still counts as a word.
    assert_eq!(split_editor("ed ''"), vec!["ed", ""]);
}

#[test]
fn split_editor_unquoted_words_are_the_non_blank_runs() {
    // Without quotes the words are exactly the whitespace-separated runs.
    let words = split_editor("  a\tbb   ccc ");
    assert_eq!(words, vec!["a", "bb", "ccc"]);
    assert_eq!(words.concat(), "abbccc");
}
