use http_stress::address::add_http_if_missing;
use http_stress::method::HttpMethod;
use http_stress::request::{build_request, template_from, ConfigError, RequestConfig};

fn config(addr: &str) -> RequestConfig {
    RequestConfig::new(addr.to_string())
}

#[test]
fn defaults_are_those_of_the_command_line() {
    let config = config("example.com");
    assert_eq!(config.addr, "example.com");
    assert_eq!(config.method, HttpMethod::GET);
    assert_eq!(config.headers, None);
    assert_eq!(config.body, None);
    assert_eq!(config.expected_code, 200);
    assert_eq!(config.count, 25);
    assert_eq!(config.delay, 0);
}

#[test]
fn bare_host_gets_https() {
    assert_eq!(add_http_if_missing("example.com"), "https://example.com");
    assert_eq!(add_http_if_missing("localhost:8080/path"), "https://localhost:8080/path");
    assert_eq!(add_http_if_missing(""), "https://");
    assert_eq!(add_http_if_missing("ftp://example.com"), "https://ftp://example.com");
    assert_eq!(add_http_if_missing("HTTP://example.com"), "https://HTTP://example.com");
}

#[test]
fn explicit_scheme_is_kept() {
    assert_eq!(add_http_if_missing("http://example.com"), "http://example.com");
    assert_eq!(add_http_if_missing("https://example.com/a?b=c"), "https://example.com/a?b=c");
    assert_eq!(add_http_if_missing("http://"), "http://");
}

#[test]
fn template_carries_the_normalized_url() {
    let template = build_request(&config("example.com")).unwrap();
    assert_eq!(template.url(), "https://example.com/");
    assert_eq!(template.method(), HttpMethod::GET);
    assert_eq!(template.headers().len(), 0);
    assert_eq!(template.body(), None);

    let template = build_request(&config("http://Example.COM:80/a b")).unwrap();
    assert_eq!(template.url(), "http://example.com/a%20b");

    let template = build_request(&config("https://example.com:8443/x?y=1#z")).unwrap();
    assert_eq!(template.url(), "https://example.com:8443/x?y=1#z");
}

#[test]
fn template_carries_headers_and_body() {
    let mut config = config("http://localhost:3000/items");
    config.method = HttpMethod::POST;
    config.headers = Some(vec![
        "Content-Type: application/json".to_string(),
        "X-Trace: 1".to_string(),
        "X-Trace: 2".to_string(),
    ]);
    config.body = Some("{\"a\":1}".to_string());
    let template = build_request(&config).unwrap();
    assert_eq!(template.url(), "http://localhost:3000/items");
    assert_eq!(template.method(), HttpMethod::POST);
    assert_eq!(template.headers().len(), 2);
    assert_eq!(template.headers().get("Content-Type"), Some(&"application/json".to_string()));
    assert_eq!(template.headers().get("X-Trace"), Some(&"2".to_string()));
    assert_eq!(template.body(), Some(&"{\"a\":1}".to_string()));
}

#[test]
fn malformed_header_is_a_config_error() {
    let mut config = config("example.com");
    config.headers = Some(vec!["Accept: */*".to_string(), "no colon here".to_string()]);
    assert_eq!(
        build_request(&config).err(),
        Some(ConfigError::MalformedHeader("no colon here".to_string()))
    );
    config.headers = Some(vec!["Host: example.com:8080".to_string()]);
    assert_eq!(
        build_request(&config).err(),
        Some(ConfigError::MalformedHeader("Host: example.com:8080".to_string()))
    );
}

#[test]
fn unparsable_address_is_a_config_error() {
    assert_eq!(
        build_request(&config("")).err(),
        Some(ConfigError::InvalidUrl(url::ParseError::EmptyHost))
    );
    assert_eq!(
        build_request(&config("http://example.com:port")).err(),
        Some(ConfigError::InvalidUrl(url::ParseError::InvalidPort))
    );
    assert_eq!(
        build_request(&config("exa mple.com")).err(),
        Some(ConfigError::InvalidUrl(url::ParseError::IdnaError))
    );
}

#[test]
fn body_is_refused_for_methods_without_one() {
    for method in [HttpMethod::GET, HttpMethod::DELETE, HttpMethod::HEAD, HttpMethod::OPTIONS] {
        let mut config = config("example.com");
        config.method = method;
        config.body = Some("payload".to_string());
        assert_eq!(build_request(&config).err(), Some(ConfigError::BodyNotAllowed(method)));
    }
}

#[test]
fn body_is_accepted_for_post_put_and_patch() {
    for method in [HttpMethod::POST, HttpMethod::PUT, HttpMethod::PATCH] {
        let mut config = config("example.com");
        config.method = method;
        config.body = Some("payload".to_string());
        let template = build_request(&config).unwrap();
        assert_eq!(template.method(), method);
        assert_eq!(template.body(), Some(&"payload".to_string()));
    }
}

#[test]
fn methods_without_body_need_none() {
    for method in [HttpMethod::GET, HttpMethod::DELETE, HttpMethod::HEAD, HttpMethod::OPTIONS] {
        let mut config = config("example.com");
        config.method = method;
        let template = build_request(&config).unwrap();
        assert_eq!(template.method(), method);
        assert_eq!(template.body(), None);
    }
}

#[test]
fn header_errors_come_before_url_errors_and_those_before_body_errors() {
    let mut config = config("");
    config.headers = Some(vec!["oops".to_string()]);
    config.body = Some("payload".to_string());
    assert_eq!(
        build_request(&config).err(),
        Some(ConfigError::MalformedHeader("oops".to_string()))
    );
    config.headers = None;
    assert_eq!(
        build_request(&config).err(),
        Some(ConfigError::InvalidUrl(url::ParseError::EmptyHost))
    );
    config.addr = "example.com".to_string();
    assert_eq!(
        build_request(&config).err(),
        Some(ConfigError::BodyNotAllowed(HttpMethod::GET))
    );
}

#[test]
fn template_binds_the_header_name_that_the_request_carries() {
    let mut config = config("http://h.io");
    config.count = 1;
    config.headers = Some(vec!["  X-Token :  abc  ".to_string()]);
    let template = build_request(&config).unwrap();
    assert_eq!(template.url(), "http://h.io/");
    assert_eq!(template.headers().len(), 1);
    assert_eq!(template.headers().name_at(0), "x-token");
    assert_eq!(template.headers().value_at(0), "abc");
    assert_eq!(template.headers().lookup("x-token"), Some(&"abc".to_string()));
    assert_eq!(template.headers().get("x-token"), Some(&"abc".to_string()));
    assert_eq!(template.headers().get("X-Token"), Some(&"abc".to_string()));
    assert_eq!(template.body(), None);

    config.headers = Some(vec!["X-A: 1".to_string(), "x-a: 2".to_string()]);
    let template = build_request(&config).unwrap();
    assert_eq!(template.headers().len(), 1);
    assert_eq!(template.headers().lookup("x-a"), Some(&"2".to_string()));
}

#[test]
fn template_keeps_an_inadmissible_header_name_as_written() {
    let mut config = config("http://h.io");
    config.headers = Some(vec!["Bad Name: 1".to_string(), ": 2".to_string()]);
    let template = build_request(&config).unwrap();
    assert_eq!(template.headers().len(), 2);
    assert_eq!(template.headers().name_at(0), "Bad Name");
    assert_eq!(template.headers().name_at(1), "");
}

#[test]
fn template_from_takes_the_parses_as_given() {
    let mut config = config("ignored");
    config.method = HttpMethod::PUT;
    config.body = Some("b".to_string());
    config.headers = Some(vec!["  X-Token :  abc  ".to_string()]);
    let names = vec![Some("x-token".to_string())];
    let template = template_from(&config, Ok("http://given/".to_string()), &names).unwrap();
    assert_eq!(template.url(), "http://given/");
    assert_eq!(template.body(), Some(&"b".to_string()));
    assert_eq!(template.headers().len(), 1);
    assert_eq!(template.headers().lookup("x-token"), Some(&"abc".to_string()));
    assert_eq!(template.headers().lookup("X-Token"), None);
    let template =
        template_from(&config, Ok("http://given/".to_string()), &Vec::new()).unwrap();
    assert_eq!(template.headers().lookup("X-Token"), Some(&"abc".to_string()));
    assert_eq!(
        template_from(&config, Err(url::ParseError::Overflow), &names).err(),
        Some(ConfigError::InvalidUrl(url::ParseError::Overflow))
    );
}
