use bruteforce::request::{build_all, build_request, build_with, parse_method, Method};

fn pairs(ps: &[(&str, &str)]) -> Vec<(String, String)> {
    ps.iter().map(|(k, v)| (k.to_string(), v.to_string())).collect()
}

#[test]
fn get_puts_parameters_in_query_string() {
    let r = build_request("GET", &"http://h/p".to_string(), &pairs(&[("q", "x")])).unwrap();
    assert_eq!(r.method, Method::Get);
    assert_eq!(r.url, "http://h/p?q=x");
    assert_eq!(r.body, "");
}

#[test]
fn post_puts_parameters_in_body() {
    let r = build_request("POST", &"http://h/p".to_string(), &pairs(&[("q", "x")])).unwrap();
    assert_eq!(r.method, Method::Post);
    assert_eq!(r.url, "http://h/p");
    assert_eq!(r.body, "q=x");
}

#[test]
fn put_puts_parameters_in_body() {
    let r = build_request("PUT", &"http://h/p".to_string(), &pairs(&[("a", "1"), ("b", "2")]))
        .unwrap();
    assert_eq!(r.url, "http://h/p");
    assert_eq!(r.body, "a=1&b=2");
}

#[test]
fn delete_puts_parameters_in_query_string() {
    let r = build_request("DELETE", &"http://h/p".to_string(), &pairs(&[("id", "7")])).unwrap();
    assert_eq!(r.url, "http://h/p?id=7");
    assert_eq!(r.body, "");
}

#[test]
fn method_is_case_insensitive() {
    assert_eq!(parse_method("GeT").unwrap(), Method::Get);
    assert_eq!(parse_method("post").unwrap(), Method::Post);
    assert_eq!(parse_method("PUT").unwrap(), Method::Put);
    assert_eq!(parse_method("dElEtE").unwrap(), Method::Delete);
}

#[test]
fn unsupported_method_is_rejected() {
    let e = parse_method("PATCH").unwrap_err();
    assert_eq!(e, "unsuported method PATCH, only support(POST, GET,PUT, DELETE )");
}

#[test]
fn unsupported_method_rejected_before_any_request_is_built() {
    let sets = vec![pairs(&[("q", "x")]), pairs(&[("q", "y")])];
    let r = build_all("PATCH", &"http://h/p".to_string(), &sets);
    assert!(r.is_err());
}

#[test]
fn build_all_makes_one_request_per_set() {
    let sets = vec![pairs(&[("q", "x")]), pairs(&[("q", "y")])];
    let v = build_all("get", &"http://h/p".to_string(), &sets).unwrap();
    assert_eq!(v.len(), 2);
    assert_eq!(v[0].url, "http://h/p?q=x");
    assert_eq!(v[1].url, "http://h/p?q=y");
}

#[test]
fn empty_parameter_set_builds_bare_request() {
    let r = build_request("GET", &"http://h/p".to_string(), &Vec::new()).unwrap();
    assert_eq!(r.url, "http://h/p");
    assert_eq!(r.body, "");
}

#[test]
fn existing_query_is_extended_with_ampersand() {
    let r = build_with(Method::Get, &"http://h/p?a=1".to_string(), &pairs(&[("q", "x")]));
    assert_eq!(r.url, "http://h/p?a=1&q=x");
}

#[test]
fn values_are_form_urlencoded() {
    let r = build_with(Method::Post, &"http://h/p".to_string(), &pairs(&[("q", "x y&z")]));
    assert_eq!(r.body, "q=x+y%26z");
}
