use pyroclear::text::{
    byte_len, push_decimal, push_padded, push_repeated, replace_spaces, truncate_display,
};

#[test]
fn truncation_counts_characters() {
    assert_eq!(truncate_display("flames", 0), "");
    assert_eq!(truncate_display("flames", 3), "fla");
    assert_eq!(truncate_display("flames", 6), "flames");
    assert_eq!(truncate_display("flames", 9), "flames");
    assert_eq!(truncate_display("é→▸x", 3), "é→▸");
    assert_eq!(truncate_display("", 4), "");
}

#[test]
fn spaces_become_dashes() {
    assert_eq!(replace_spaces("a b  c"), "a-b--c");
    assert_eq!(replace_spaces("é\tü"), "é\tü");
    assert_eq!(replace_spaces(""), "");
}

#[test]
fn decimals() {
    for (n, digits) in [(0, "0"), (9, "9"), (10, "10"), (255, "255"), (65535, "65535")] {
        let mut text = String::from("n=");
        push_decimal(&mut text, n);
        assert_eq!(text, format!("n={digits}"));
    }
    let mut text = String::new();
    push_decimal(&mut text, usize::MAX);
    assert_eq!(text, format!("{}", usize::MAX));
}

#[test]
fn padding() {
    let mut text = String::from("|");
    push_padded(&mut text, "→x", 4);
    push_padded(&mut text, "long", 3);
    push_repeated(&mut text, '─', 2);
    push_repeated(&mut text, 'z', 0);
    assert_eq!(text, "|→x  long──");
}

#[test]
fn bytes() {
    assert_eq!(byte_len(""), 0);
    assert_eq!(byte_len("abc"), 3);
    assert_eq!(byte_len("é→🔥"), 2 + 3 + 4);
}
