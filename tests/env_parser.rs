use rode::env_parser::EnvParser;

fn pairs(p: &EnvParser) -> Vec<(String, String)> {
    p.get_vars().clone()
}

fn owned(v: &[(&str, &str)]) -> Vec<(String, String)> {
    v.iter().map(|(a, b)| (a.to_string(), b.to_string())).collect()
}

#[test]
fn parses_plain_quoted_and_expanded_values() {
    let mut p = EnvParser::new();
    let content = "A=1\nB=\"x\\ny\"\n# comment\n\nC='$A'\nD=$A-${B}\nE=";
    assert_eq!(p.parse_content(content), Ok(()));
    assert_eq!(
        pairs(&p),
        owned(&[("A", "1"), ("B", "x\ny"), ("C", "$A"), ("D", "1-x\ny"), ("E", "")])
    );
}

#[test]
fn reports_each_error_with_its_line() {
    let mut p = EnvParser::new();
    assert_eq!(
        p.parse_content("NOEQ"),
        Err("Invalid format at line 1: missing '='".to_string())
    );
    assert_eq!(p.parse_content("\n=v"), Err("Empty key at line 2".to_string()));
    assert_eq!(
        p.parse_content("a-b=1"),
        Err("Invalid key format at line 1: 'a-b'".to_string())
    );
    assert_eq!(
        p.parse_content("\n\n# x\n\n\n\n\n\n\n\nX=\""),
        Err("Unterminated quote at line 11".to_string())
    );
    assert!(p.get_vars().is_empty());
}

#[test]
fn lines_before_an_error_stay_loaded() {
    let mut p = EnvParser::new();
    assert!(p.parse_content("K=v\nbroken\nL=w").is_err());
    assert_eq!(pairs(&p), owned(&[("K", "v")]));
}

#[test]
fn redefinition_replaces_in_place() {
    let mut p = EnvParser::new();
    assert_eq!(p.parse_content("A=1\nB=2\nA=3"), Ok(()));
    assert_eq!(pairs(&p), owned(&[("A", "3"), ("B", "2")]));
}

#[test]
fn falls_back_on_the_environment() {
    let mut p = EnvParser::with_environment(owned(&[("HOME", "/h")]));
    assert_eq!(p.parse_content("P=$HOME/x\nQ=${MISSING}!\nR=${OPEN"), Ok(()));
    assert_eq!(pairs(&p), owned(&[("P", "/h/x"), ("Q", "!"), ("R", "${OPEN")]));
    assert_eq!(p.get_variable("HOME"), "/h");
    assert_eq!(p.get_variable("P"), "/h/x");
    assert_eq!(p.get_variable("NONE"), "");
}

#[test]
fn dollar_without_a_name_is_kept() {
    let mut p = EnvParser::new();
    assert_eq!(p.parse_content("M=cost $5 \\q"), Ok(()));
    assert_eq!(pairs(&p), owned(&[("M", "cost $5 \\q")]));
}

#[test]
fn clear_forgets_variables() {
    let mut p = EnvParser::new();
    assert_eq!(p.parse_content("A=1"), Ok(()));
    p.clear();
    assert!(p.get_vars().is_empty());
}
