use http_stress::method::HttpMethod;

#[test]
fn method_names_are_lower_case() {
    assert_eq!(HttpMethod::GET.to_string(), "get");
    assert_eq!(HttpMethod::POST.to_string(), "post");
    assert_eq!(HttpMethod::PUT.to_string(), "put");
    assert_eq!(HttpMethod::DELETE.to_string(), "delete");
    assert_eq!(HttpMethod::PATCH.to_string(), "patch");
    assert_eq!(HttpMethod::HEAD.to_string(), "head");
    assert_eq!(HttpMethod::OPTIONS.to_string(), "options");
}

#[test]
fn only_post_put_and_patch_allow_a_body() {
    assert!(HttpMethod::POST.allows_body());
    assert!(HttpMethod::PUT.allows_body());
    assert!(HttpMethod::PATCH.allows_body());
    assert!(!HttpMethod::GET.allows_body());
    assert!(!HttpMethod::DELETE.allows_body());
    assert!(!HttpMethod::HEAD.allows_body());
    assert!(!HttpMethod::OPTIONS.allows_body());
}
