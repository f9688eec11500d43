use rpc_intercept::{parse_path, parse_path_checked, to_simple_service_name, Info, PathError};

fn identity(service: &str, method: &str) -> Info {
    Info { service: service.to_string(), method: method.to_string() }
}

#[test]
fn service_and_method_are_read_from_the_path() {
    let info = parse_path("/svcA/methodB".to_string());
    assert_eq!(info.service, "svcA");
    assert_eq!(info.method, "methodB");
}

#[test]
fn path_without_second_segment_has_empty_method() {
    let info = parse_path("/svcA".to_string());
    assert_eq!(info.service, "svcA");
    assert_eq!(info.method, "");
}

#[test]
fn bare_separator_is_refused() {
    assert_eq!(parse_path_checked("/".to_string()), Err(PathError::EmptyPath));
}

#[test]
fn empty_path_is_refused() {
    assert_eq!(parse_path_checked(String::new()), Err(PathError::MissingSeparator));
}

#[test]
fn path_without_leading_separator_is_refused() {
    assert_eq!(parse_path_checked("svcA/methodB".to_string()), Err(PathError::MissingSeparator));
    assert_eq!(parse_path_checked("*".to_string()), Err(PathError::MissingSeparator));
}

#[test]
fn checked_parse_agrees_with_parse() {
    assert_eq!(parse_path_checked("/svcA/methodB".to_string()), Ok(identity("svcA", "methodB")));
    assert_eq!(parse_path_checked("/svcA".to_string()), Ok(identity("svcA", "")));
    assert_eq!(
        parse_path_checked("/Greeter/SayHello".to_string()),
        Ok(parse_path("/Greeter/SayHello".to_string()))
    );
}

#[test]
fn only_the_first_inner_separator_splits() {
    assert_eq!(parse_path("/a/b/c".to_string()), identity("a", "b/c"));
    assert_eq!(parse_path("/a/b/".to_string()), identity("a", "b/"));
}

#[test]
fn trailing_separator_gives_empty_method() {
    assert_eq!(parse_path("/svcA/".to_string()), identity("svcA", ""));
}

#[test]
fn doubled_leading_separator_gives_empty_service() {
    assert_eq!(parse_path("//methodB".to_string()), identity("", "methodB"));
    assert_eq!(parse_path("//".to_string()), identity("", ""));
}

#[test]
fn nothing_is_normalised() {
    assert_eq!(parse_path("/SvcA/MethodB".to_string()), identity("SvcA", "MethodB"));
    assert_eq!(parse_path("/pkg.Greeter/Say Hello".to_string()), identity("pkg.Greeter", "Say Hello"));
}

#[test]
fn characters_beyond_ascii_are_kept_whole() {
    assert_eq!(parse_path("/sérvice/méthode".to_string()), identity("sérvice", "méthode"));
    assert_eq!(parse_path("/服务".to_string()), identity("服务", ""));
}

#[test]
fn single_character_service() {
    assert_eq!(parse_path("/a".to_string()), identity("a", ""));
}

#[test]
fn simple_name_is_the_last_segment() {
    assert_eq!(to_simple_service_name("pkg.sub.Service"), "Service");
    assert_eq!(to_simple_service_name("helloworld.Greeter"), "Greeter");
}

#[test]
fn simple_name_of_undotted_name_is_the_name() {
    assert_eq!(to_simple_service_name("Service"), "Service");
    assert_eq!(to_simple_service_name(""), "");
}

#[test]
fn simple_name_after_trailing_dot_is_empty() {
    assert_eq!(to_simple_service_name("pkg."), "");
    assert_eq!(to_simple_service_name("."), "");
}

#[test]
fn simple_name_keeps_characters_beyond_ascii() {
    assert_eq!(to_simple_service_name("pàckage.Sérvice"), "Sérvice");
}
