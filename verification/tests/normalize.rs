use suihorse::args::has_help_flag;
use suihorse::normalized_args;

fn strings(items: &[&str]) -> Vec<String> {
    items.iter().map(|s| s.to_string()).collect()
}

#[test]
fn splits_flag_with_value() {
    assert_eq!(normalized_args(strings(&["--flag=value"])), strings(&["--flag", "value"]));
}

#[test]
fn splits_on_first_equals_only() {
    assert_eq!(normalized_args(strings(&["--flag=a=b"])), strings(&["--flag", "a=b"]));
}

#[test]
fn plain_token_is_unchanged() {
    assert_eq!(normalized_args(strings(&["plain"])), strings(&["plain"]));
}

#[test]
fn token_without_dash_keeps_its_equals() {
    assert_eq!(normalized_args(strings(&["key=val"])), strings(&["key=val"]));
}

#[test]
fn single_dash_flag_is_split() {
    assert_eq!(normalized_args(strings(&["-f=1"])), strings(&["-f", "1"]));
}

#[test]
fn flag_without_equals_is_unchanged() {
    assert_eq!(normalized_args(strings(&["--flag", "value"])), strings(&["--flag", "value"]));
}

#[test]
fn split_form_equals_spaced_form() {
    assert_eq!(
        normalized_args(strings(&["prog", "--flag=value"])),
        normalized_args(strings(&["prog", "--flag", "value"]))
    );
}

#[test]
fn empty_value_gives_empty_token() {
    assert_eq!(normalized_args(strings(&["--flag="])), strings(&["--flag", ""]));
}

#[test]
fn dash_then_equals_gives_dash_and_empty_token() {
    assert_eq!(normalized_args(strings(&["-="])), strings(&["-", ""]));
}

#[test]
fn dash_that_is_not_first_does_not_split() {
    assert_eq!(normalized_args(strings(&["a-b=c", "=-x"])), strings(&["a-b=c", "=-x"]));
}

#[test]
fn lone_dash_and_empty_token_are_unchanged() {
    assert_eq!(normalized_args(strings(&["-", "", "--"])), strings(&["-", "", "--"]));
}

#[test]
fn no_arguments_give_no_tokens() {
    assert_eq!(normalized_args(Vec::new()), Vec::<String>::new());
}

#[test]
fn order_is_kept_around_a_split() {
    assert_eq!(
        normalized_args(strings(&["prog", "cmd", "--a=1", "x", "-b=2", "y=3"])),
        strings(&["prog", "cmd", "--a", "1", "x", "-b", "2", "y=3"])
    );
}

#[test]
fn each_split_adds_exactly_one_token() {
    let raw = strings(&["--a=1", "b", "-c=2=3", "d=4", "--e"]);
    let splitting = raw.iter().filter(|t| t.starts_with('-') && t.contains('=')).count();
    assert_eq!(splitting, 2);
    assert_eq!(normalized_args(raw.clone()).len(), raw.len() + splitting);
}

#[test]
fn rejoining_with_equals_gives_the_token_back() {
    for token in ["--flag=value", "--flag=a=b", "-x=", "-=", "--=--", "-k=v w"] {
        let parts = normalized_args(strings(&[token]));
        assert_eq!(parts.len(), 2);
        assert!(!parts[0].contains('='));
        assert_eq!(format!("{}={}", parts[0], parts[1]), token);
    }
}

#[test]
fn characters_beyond_ascii_are_counted_as_characters() {
    assert_eq!(normalized_args(strings(&["--naïve=é=ü"])), strings(&["--naïve", "é=ü"]));
    assert_eq!(normalized_args(strings(&["—dash=1"])), strings(&["—dash=1"]));
}

#[test]
fn a_value_that_looks_like_a_flag_is_split_by_a_second_pass() {
    let once = normalized_args(strings(&["--a=-b=c"]));
    assert_eq!(once, strings(&["--a", "-b=c"]));
    assert_eq!(normalized_args(once), strings(&["--a", "-b", "c"]));
}

#[test]
fn help_flags_are_found_anywhere() {
    assert!(has_help_flag(&strings(&["-h"])));
    assert!(has_help_flag(&strings(&["prog", "x", "--help"])));
    assert!(has_help_flag(&strings(&["--help", "x"])));
}

#[test]
fn only_the_exact_tokens_are_help_flags() {
    assert!(!has_help_flag(&strings(&[])));
    assert!(!has_help_flag(&strings(&["help", "-H", "--Help", "-help", "--h", "-h ", "--helpful"])));
}

#[test]
fn help_flag_with_a_value_is_found_after_normalization() {
    let raw = strings(&["prog", "--help=now"]);
    assert!(!has_help_flag(&raw));
    assert!(has_help_flag(&normalized_args(raw)));
}
