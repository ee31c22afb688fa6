use jwt_forward_auth::validator_file::header_name::parse_header_name;

#[test]
fn header_name_is_held_in_lower_case() {
    assert_eq!(parse_header_name("X-User"), Some("x-user".to_string()));
    assert_eq!(parse_header_name("AUTHORIZATION"), Some("authorization".to_string()));
}

#[test]
fn header_name_in_lower_case_is_kept() {
    assert_eq!(parse_header_name("x-forwarded-for"), Some("x-forwarded-for".to_string()));
}

#[test]
fn empty_header_name_is_refused() {
    assert_eq!(parse_header_name(""), None);
}

#[test]
fn header_name_with_space_or_colon_is_refused() {
    assert_eq!(parse_header_name("bad name"), None);
    assert_eq!(parse_header_name("bad:name"), None);
    assert_eq!(parse_header_name("bad\nname"), None);
}

#[test]
fn header_name_outside_ascii_is_refused() {
    assert_eq!(parse_header_name("gr\u{fc}n"), None);
}

#[test]
fn header_name_admits_the_signs_of_a_token() {
    let signs = "!#$%&'*+-.^_`|~0123456789";
    assert_eq!(parse_header_name(signs), Some(signs.to_string()));
}

#[test]
fn single_characters_are_admitted_as_a_token_admits_them() {
    let signs = "!#$%&'*+-.^_`|~";
    for b in 0..128u8 {
        let c = b as char;
        let text = c.to_string();
        let admitted = c.is_ascii_alphanumeric() || signs.contains(c);
        let expected = if admitted { Some(text.to_ascii_lowercase()) } else { None };
        assert_eq!(parse_header_name(&text), expected);
    }
}

#[test]
fn header_name_of_greatest_length_is_accepted() {
    let name = "a".repeat(65535);
    assert_eq!(parse_header_name(&name), Some(name.clone()));
}

#[test]
fn header_name_beyond_greatest_length_is_refused() {
    let name = "a".repeat(65536);
    assert_eq!(parse_header_name(&name), None);
}

#[test]
fn long_header_name_is_held_in_lower_case() {
    let name = "Ab".repeat(100);
    assert_eq!(parse_header_name(&name), Some("ab".repeat(100)));
}

#[test]
fn long_header_name_with_bad_character_is_refused() {
    let mut name = "a".repeat(100);
    name.push(' ');
    assert_eq!(parse_header_name(&name), None);
}

#[test]
fn parsed_header_name_parses_to_itself() {
    let parsed = parse_header_name("X-Custom_Header.1").expect("a header name");
    assert_eq!(parse_header_name(&parsed), Some(parsed.clone()));
}
