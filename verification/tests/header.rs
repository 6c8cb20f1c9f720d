use http_stress::header::{bind_headers, header_names, parse_header, parse_headers, Headers};

fn pair(name: &str, value: &str) -> Option<(String, String)> {
    Some((name.to_string(), value.to_string()))
}

#[test]
fn header_line_splits_at_its_colon() {
    assert_eq!(parse_header("Content-Type: application/json"), pair("Content-Type", "application/json"));
    assert_eq!(parse_header("key:value"), pair("key", "value"));
    assert_eq!(parse_header("  X-Trace :  abc def  "), pair("X-Trace", "abc def"));
    assert_eq!(parse_header("\tAccept\u{a0}:\u{2003}*/*\r\n"), pair("Accept", "*/*"));
}

#[test]
fn header_line_may_have_an_empty_side() {
    assert_eq!(parse_header(":"), pair("", ""));
    assert_eq!(parse_header(": value"), pair("", "value"));
    assert_eq!(parse_header("key:"), pair("key", ""));
    assert_eq!(parse_header(" key :  "), pair("key", ""));
}

#[test]
fn header_line_without_colon_is_malformed() {
    assert_eq!(parse_header(""), None);
    assert_eq!(parse_header("   "), None);
    assert_eq!(parse_header("Content-Type application/json"), None);
}

#[test]
fn header_line_with_two_colons_is_malformed() {
    assert_eq!(parse_header("a:b:c"), None);
    assert_eq!(parse_header("::"), None);
    assert_eq!(parse_header("Host: example.com:8080"), None);
    assert_eq!(parse_header("Referer: https://example.com"), None);
}

#[test]
fn headers_bind_names_as_written() {
    let mut headers = Headers::new();
    assert_eq!(headers.len(), 0);
    assert_eq!(headers.lookup("a"), None);
    headers.bind("a".to_string(), "1".to_string());
    headers.bind("b".to_string(), "2".to_string());
    assert_eq!(headers.len(), 2);
    assert_eq!(headers.lookup("a"), Some(&"1".to_string()));
    assert_eq!(headers.lookup("b"), Some(&"2".to_string()));
    headers.bind("a".to_string(), "3".to_string());
    assert_eq!(headers.len(), 2);
    assert_eq!(headers.lookup("a"), Some(&"3".to_string()));
    assert_eq!(headers.lookup("b"), Some(&"2".to_string()));
    assert_eq!(headers.lookup("A"), None);
    headers.bind("A".to_string(), "4".to_string());
    assert_eq!(headers.len(), 3);
    assert_eq!(headers.lookup("A"), Some(&"4".to_string()));
    assert_eq!(headers.name_at(0), "a");
    assert_eq!(headers.value_at(0), "3");
    assert_eq!(headers.name_at(1), "b");
    assert_eq!(headers.value_at(1), "2");
    assert_eq!(headers.name_at(2), "A");
}

#[test]
fn headers_insert_and_get_go_by_the_carried_name() {
    let mut headers = Headers::new();
    headers.insert("X-Token".to_string(), "abc".to_string());
    assert_eq!(headers.len(), 1);
    assert_eq!(headers.name_at(0), "x-token");
    assert_eq!(headers.get("x-token"), Some(&"abc".to_string()));
    assert_eq!(headers.get("X-Token"), Some(&"abc".to_string()));
    assert_eq!(headers.get("X-TOKEN"), Some(&"abc".to_string()));
    assert_eq!(headers.lookup("x-token"), Some(&"abc".to_string()));
    assert_eq!(headers.lookup("X-Token"), None);
    headers.insert("x-token".to_string(), "def".to_string());
    assert_eq!(headers.len(), 1);
    assert_eq!(headers.get("X-Token"), Some(&"def".to_string()));
    headers.insert("a".to_string(), "3".to_string());
    assert_eq!(headers.get("A"), Some(&"3".to_string()));
    assert_eq!(headers.get("b"), None);
}

#[test]
fn inadmissible_header_name_is_kept_as_written() {
    let mut headers = Headers::new();
    headers.insert("Bad Name".to_string(), "1".to_string());
    headers.insert(String::new(), "2".to_string());
    headers.insert("Größe".to_string(), "3".to_string());
    assert_eq!(headers.len(), 3);
    assert_eq!(headers.name_at(0), "Bad Name");
    assert_eq!(headers.name_at(1), "");
    assert_eq!(headers.name_at(2), "Größe");
    assert_eq!(headers.get("Bad Name"), Some(&"1".to_string()));
    assert_eq!(headers.get("bad name"), None);
    assert_eq!(headers.get(""), Some(&"2".to_string()));
}

#[test]
fn header_lines_collect_into_a_mapping() {
    let lines = vec![
        "Accept: text/plain".to_string(),
        "X-Id: 1".to_string(),
        " Accept : application/json ".to_string(),
    ];
    let headers = parse_headers(&lines).unwrap();
    assert_eq!(headers.len(), 2);
    assert_eq!(headers.name_at(0), "accept");
    assert_eq!(headers.value_at(0), "application/json");
    assert_eq!(headers.name_at(1), "x-id");
    assert_eq!(headers.value_at(1), "1");
    assert_eq!(headers.lookup("accept"), Some(&"application/json".to_string()));
    assert_eq!(headers.lookup("Accept"), None);
    assert_eq!(headers.get("Accept"), Some(&"application/json".to_string()));
    assert_eq!(headers.get("X-Id"), Some(&"1".to_string()));
}

#[test]
fn header_names_that_differ_in_case_are_one_header() {
    let lines = vec!["X-A: 1".to_string(), "x-a: 2".to_string()];
    let headers = parse_headers(&lines).unwrap();
    assert_eq!(headers.len(), 1);
    assert_eq!(headers.name_at(0), "x-a");
    assert_eq!(headers.value_at(0), "2");
}

#[test]
fn header_names_are_those_a_request_carries() {
    let lines = vec![
        "  X-Token :  abc  ".to_string(),
        "Content-Type: text/plain".to_string(),
        "bad name: 1".to_string(),
        "no colon".to_string(),
        ": empty".to_string(),
    ];
    assert_eq!(
        header_names(&lines),
        vec![Some("x-token".to_string()), Some("content-type".to_string()), None, None, None]
    );
    assert_eq!(header_names(&Vec::new()), Vec::<Option<String>>::new());
}

#[test]
fn bind_headers_takes_the_names_as_given() {
    let lines = vec!["  X-Token :  abc  ".to_string(), "Other: 1".to_string()];
    let names = vec![Some("x-token".to_string()), None];
    let headers = bind_headers(&lines, &names).unwrap();
    assert_eq!(headers.len(), 2);
    assert_eq!(headers.lookup("x-token"), Some(&"abc".to_string()));
    assert_eq!(headers.lookup("X-Token"), None);
    assert_eq!(headers.lookup("Other"), Some(&"1".to_string()));

    let headers = bind_headers(&lines, &Vec::new()).unwrap();
    assert_eq!(headers.lookup("X-Token"), Some(&"abc".to_string()));
    assert_eq!(headers.lookup("Other"), Some(&"1".to_string()));

    let names = vec![Some("same".to_string()), Some("same".to_string()), Some("spare".to_string())];
    let headers = bind_headers(&lines, &names).unwrap();
    assert_eq!(headers.len(), 1);
    assert_eq!(headers.lookup("same"), Some(&"1".to_string()));

    let lines = vec!["Accept: */*".to_string(), "broken".to_string()];
    assert_eq!(bind_headers(&lines, &Vec::new()).err(), Some(1));
}

#[test]
fn no_header_lines_give_an_empty_mapping() {
    let headers = parse_headers(&Vec::new()).unwrap();
    assert_eq!(headers.len(), 0);
}

#[test]
fn first_malformed_header_line_is_reported() {
    let lines = vec![
        "Accept: text/plain".to_string(),
        "broken".to_string(),
        "X-Id: 1".to_string(),
        "a:b:c".to_string(),
    ];
    assert_eq!(parse_headers(&lines).err(), Some(1));
    let lines = vec!["a:b:c".to_string()];
    assert_eq!(parse_headers(&lines).err(), Some(0));
}

#[test]
fn whitespace_around_a_header_line_does_not_matter() {
    let lines = [
        "Accept: */*",
        "  Accept: */*  ",
        "\t\u{3000}Accept :\u{a0}*/* \r\n",
        " no colon ",
        " a : b : c ",
        " : ",
        "   ",
    ];
    for line in lines {
        assert_eq!(parse_header(line.trim()), parse_header(line));
    }
    assert_eq!(parse_header("\t\u{3000}Accept :\u{a0}*/* \r\n"), pair("Accept", "*/*"));
}
