use lotus::matcher::{is_match, CliErrors, ResponseMatcher};

fn matcher() -> ResponseMatcher {
    ResponseMatcher::for_scripts()
}

#[test]
fn regex_is_match_and_invalid_pattern() {
    let m = matcher();
    assert_eq!(m.is_match("a+b".to_string(), "xxaaab".to_string()), Ok(true));
    assert_eq!(m.is_match("^b".to_string(), "ab".to_string()), Ok(false));
    assert_eq!(m.is_match("(".to_string(), "ab".to_string()), Err(CliErrors::RegexPatternError));
}

#[test]
fn case_insensitive_option_is_used() {
    let mut m = matcher();
    assert_eq!(m.is_match("ADMIN".to_string(), "admin".to_string()), Ok(false));
    m.case_insensitive = true;
    assert_eq!(m.is_match("ADMIN".to_string(), "admin".to_string()), Ok(true));
}

#[test]
fn extract_and_replace() {
    let m = matcher();
    assert_eq!(
        m.extract_data("[0-9]+", "a1b22c333"),
        Ok(vec!["1".to_string(), "22".to_string(), "333".to_string()])
    );
    assert_eq!(m.replace_txt("[0-9]", "#", "1a2b3c"), Ok("#a#b3c".to_string()));
    assert_eq!(m.extract_data("[", "x"), Err(CliErrors::RegexPatternError));
}

#[test]
fn match_and_body_plain_and_regex() {
    let m = matcher();
    let body = "<html>root:x:0:0</html>";
    assert_eq!(m.match_and_body(body, vec!["root".to_string(), "html".to_string()], None), Ok(true));
    assert_eq!(m.match_and_body(body, vec!["root".to_string(), "nope".to_string()], Some(false)), Ok(false));
    assert_eq!(m.match_and_body(body, vec!["ro+t".to_string()], Some(true)), Ok(true));
    assert_eq!(m.match_and_body(body, vec![], Some(true)), Ok(true));
    assert_eq!(
        m.match_and_body(body, vec!["nothing".to_string(), "(".to_string()], Some(true)),
        Err(CliErrors::RegexPatternError)
    );
}

#[test]
fn match_once_body_keeps_found_in_order() {
    let m = matcher();
    let body = "alpha beta gamma".to_string();
    assert_eq!(
        m.match_once_body(body.clone(), vec!["gamma".to_string(), "delta".to_string(), "alpha".to_string()], None),
        Ok(vec!["gamma".to_string(), "alpha".to_string()])
    );
    assert_eq!(
        m.match_once_body(body, vec!["b.ta".to_string(), "[".to_string()], Some(true)),
        Err(CliErrors::RegexPatternError)
    );
}

#[test]
fn fancy_is_match() {
    assert_eq!(is_match("(?<=a)b".to_string(), "ab".to_string()), Ok(true));
    assert_eq!(is_match("(?<=a)b".to_string(), "cb".to_string()), Ok(false));
    assert_eq!(is_match("(".to_string(), "x".to_string()), Err(CliErrors::RegexPatternError));
}
