use mlir_backend::text::{join, split, NulFree};

fn strings(list: &[&str]) -> Vec<String> {
    list.iter().map(|s| s.to_string()).collect()
}

#[test]
fn text_with_nul_is_no_c_string() {
    assert!(NulFree::new("spacemit\0k3").is_none());
    assert!(NulFree::new("\0").is_none());
    assert_eq!(NulFree::new("").unwrap().as_str(), "");
    let text = NulFree::new("spacemit-k3").unwrap();
    assert_eq!(text.as_str(), "spacemit-k3");
    assert_eq!(text.clone().as_str(), "spacemit-k3");
}

#[test]
fn join_puts_separators_between() {
    assert_eq!(join(&strings(&[]), ","), "");
    assert_eq!(join(&strings(&["+v"]), ","), "+v");
    assert_eq!(join(&strings(&["+m", "+a", "-v"]), ","), "+m,+a,-v");
    assert_eq!(join(&strings(&["", ""]), ","), ",");
}

#[test]
fn split_cuts_at_every_separator() {
    assert_eq!(split("", ','), strings(&[""]));
    assert_eq!(split("+m,+a,-v", ','), strings(&["+m", "+a", "-v"]));
    assert_eq!(split(",+m,,", ','), strings(&["", "+m", "", ""]));
}

#[test]
fn split_then_join_gives_the_text_back() {
    for text in ["", "a", ",", "a,b", ",a,,b,", "é,ß"] {
        assert_eq!(join(&split(text, ','), ","), text);
    }
}
