use edge_router::catchers::catchers;
use edge_router::config::ConfigRule;
use edge_router::message::{HttpRequest, HttpResponse};
use edge_router::routers::{routers, Dispatch, Router};

fn rule_redirect(name: &str, method: Option<&str>, path: Option<&str>, to: &str) -> ConfigRule {
    ConfigRule {
        name: name.to_string(),
        method: method.map(|s| s.to_string()),
        path: path.map(|s| s.to_string()),
        headers: None,
        action: "redirect".to_string(),
        redirect_to: Some(to.to_string()),
        redirect_status: None,
        proxy_url: None,
    }
}

fn request(method: &str, path: &str, query: &str, headers: Vec<(&str, &str)>) -> HttpRequest {
    HttpRequest {
        method: method.to_string(),
        path: path.to_string(),
        query: query.to_string(),
        headers: headers
            .into_iter()
            .map(|(n, v)| (n.to_string(), v.to_string()))
            .collect(),
        body: Vec::new(),
    }
}

fn build(rules: Vec<ConfigRule>) -> Router {
    match routers(&rules) {
        Ok(r) => r,
        Err(_) => panic!("configuration refused"),
    }
}

fn reply(router: &Router, req: HttpRequest) -> HttpResponse {
    match router.dispatch(req) {
        Dispatch::Reply(r) => r,
        Dispatch::Forward(_) => panic!("expected a direct reply"),
    }
}

fn header<'a>(res: &'a HttpResponse, name: &str) -> Option<&'a str> {
    res.headers
        .iter()
        .find(|(n, _)| n == name)
        .map(|(_, v)| v.as_str())
}

#[test]
fn test_filter_path() {
    let rules = vec![
        rule_redirect("test1", None, Some("/test1"), "test1"),
        rule_redirect("test2", None, Some("/test2/<**>"), "test2"),
        rule_redirect("test3", None, Some("/test3/<a>/path/<b>"), "test3"),
    ];
    let router = build(rules);

    let mut res = reply(&router, request("GET", "/notfound", "", vec![]));
    assert_eq!(res.status, 404);
    assert!(catchers(&mut res));
    assert_eq!(res.body, b"404 - Not found".to_vec());

    let res = reply(&router, request("GET", "/test1", "", vec![]));
    assert_eq!(res.status, 307);
    assert_eq!(header(&res, "location"), Some("test1"));

    let res = reply(&router, request("POST", "/test2/with/path", "", vec![]));
    assert_eq!(res.status, 307);
    assert_eq!(header(&res, "location"), Some("test2"));

    let res = reply(&router, request("PUT", "/test3/a/path/b", "", vec![]));
    assert_eq!(res.status, 307);
    assert_eq!(header(&res, "location"), Some("test3"));
}

#[test]
fn test_filter_method() {
    let rules = vec![
        rule_redirect("post", Some("POST"), None, "test_post"),
        rule_redirect("get", Some("GET"), None, "test_get"),
        rule_redirect("delete", Some("DELETE"), None, "test_delete"),
    ];
    let router = build(rules);

    let res = reply(&router, request("POST", "/whatever", "", vec![]));
    assert_eq!(res.status, 307);
    assert_eq!(header(&res, "location"), Some("test_post"));

    let res = reply(&router, request("GET", "/whatever", "", vec![]));
    assert_eq!(res.status, 307);
    assert_eq!(header(&res, "location"), Some("test_get"));

    let res = reply(&router, request("DELETE", "/whatever", "", vec![]));
    assert_eq!(res.status, 307);
    assert_eq!(header(&res, "location"), Some("test_delete"));
}

#[test]
fn test_filter_header_condition() {
    let mut r1 = rule_redirect("test1", None, None, "test1");
    r1.headers = Some(vec![edge_router::config::ConfigRuleHeader {
        name: "Content-Type".to_string(),
        value: Some("foo".to_string()),
    }]);
    let mut r2 = rule_redirect("test2", None, None, "test2");
    r2.headers = Some(vec![edge_router::config::ConfigRuleHeader {
        name: "Content-Type".to_string(),
        value: Some("bar".to_string()),
    }]);
    let mut r3 = rule_redirect("test3", None, None, "test3");
    r3.headers = Some(vec![edge_router::config::ConfigRuleHeader {
        name: "foobar".to_string(),
        value: None,
    }]);
    let mut r4 = rule_redirect("test4", None, None, "test4");
    r4.headers = Some(vec![
        edge_router::config::ConfigRuleHeader {
            name: "foo".to_string(),
            value: None,
        },
        edge_router::config::ConfigRuleHeader {
            name: "bar".to_string(),
            value: Some("abc".to_string()),
        },
    ]);
    let router = build(vec![r1, r2, r3, r4]);

    let res = reply(&router, request("GET", "/whatever", "", vec![("Content-Type", "foo")]));
    assert_eq!(res.status, 307);
    assert_eq!(header(&res, "location"), Some("test1"));

    let res = reply(&router, request("GET", "/whatever", "", vec![("content-type", "bar")]));
    assert_eq!(res.status, 307);
    assert_eq!(header(&res, "location"), Some("test2"));

    let res = reply(&router, request("GET", "/whatever", "", vec![("foobar", "any value")]));
    assert_eq!(res.status, 307);
    assert_eq!(header(&res, "location"), Some("test3"));

    let res = reply(
        &router,
        request("GET", "/whatever", "", vec![("foo", "any value"), ("bar", "abc")]),
    );
    assert_eq!(res.status, 307);
    assert_eq!(header(&res, "location"), Some("test4"));

    let res = reply(
        &router,
        request("GET", "/whatever", "", vec![("foo", "any value"), ("bar", "cba")]),
    );
    assert_eq!(res.status, 404);
}

#[test]
fn test_redirect_action() {
    let mut r4 = rule_redirect("test4", None, Some("/test4"), "permanent");
    r4.redirect_status = Some(308);
    let rules = vec![
        rule_redirect("test1", None, Some("/test1"), "test"),
        rule_redirect("test2", None, Some("/test2/<a>/<b>/<c>"), "test2<a><b><c>"),
        rule_redirect("test3", None, Some("/test3/<a>/<b>/<c>"), "/test3?a=<a>&b=<c>"),
        r4,
    ];
    let router = build(rules);

    let res = reply(&router, request("GET", "/test1", "", vec![]));
    assert_eq!(res.status, 307);
    assert_eq!(header(&res, "location"), Some("test"));

    let res = reply(&router, request("POST", "/test2/42/b/hello", "", vec![]));
    assert_eq!(res.status, 307);
    assert_eq!(header(&res, "location"), Some("test242bhello"));

    let res = reply(&router, request("POST", "/test3/42/b/hello", "", vec![]));
    assert_eq!(res.status, 307);
    assert_eq!(header(&res, "location"), Some("/test3?a=42&b=hello"));

    let res = reply(&router, request("POST", "/test4", "", vec![]));
    assert_eq!(res.status, 308);
}

#[test]
fn first_match_wins_over_later_rules() {
    let rules = vec![
        rule_redirect("first", None, Some("/same"), "one"),
        rule_redirect("second", None, Some("/same"), "two"),
        rule_redirect("catchall", None, None, "three"),
    ];
    let router = build(rules);
    let res = reply(&router, request("GET", "/same", "", vec![]));
    assert_eq!(header(&res, "location"), Some("one"));
}

#[test]
fn captures_ignore_query_parameters() {
    let rules = vec![rule_redirect(
        "caps",
        None,
        Some("/u/<id>/<op>"),
        "<id>-<op>",
    )];
    let router = build(rules);
    let res = reply(&router, request("GET", "/u/7/del", "x=1&y=2", vec![]));
    assert_eq!(header(&res, "location"), Some("7-del"));
}

#[test]
fn unknown_placeholders_stay_as_they_are() {
    let rules = vec![rule_redirect(
        "tmpl",
        None,
        Some("/t/<a>"),
        "keep<b>and<a>",
    )];
    let router = build(rules);
    let res = reply(&router, request("GET", "/t/x", "", vec![]));
    assert_eq!(header(&res, "location"), Some("keep<b>andx"));
}

#[test]
fn template_without_placeholders_is_unchanged() {
    let rules = vec![rule_redirect("tmpl", None, Some("/t/<a>"), "static-target")];
    let router = build(rules);
    let res = reply(&router, request("GET", "/t/anything", "", vec![]));
    assert_eq!(header(&res, "location"), Some("static-target"));
}

#[test]
fn invalid_redirect_target_leaves_response_untouched() {
    let rules = vec![rule_redirect("bad", None, Some("/bad"), "line\nbreak")];
    let router = build(rules);
    let res = reply(&router, request("GET", "/bad", "", vec![]));
    assert_eq!(res.status, 200);
    assert!(res.headers.is_empty());
    assert!(res.body.is_empty());
}

#[test]
fn slash_and_empty_patterns_match_any_path() {
    let rules = vec![rule_redirect("root", None, Some("/"), "rooted")];
    let router = build(rules);
    let res = reply(&router, request("GET", "/deep/nested/path", "", vec![]));
    assert_eq!(header(&res, "location"), Some("rooted"));

    let rules = vec![rule_redirect("empty", None, Some(""), "anywhere")];
    let router = build(rules);
    let res = reply(&router, request("GET", "/other", "", vec![]));
    assert_eq!(header(&res, "location"), Some("anywhere"));
}

#[test]
fn empty_header_value_still_counts_as_present() {
    let mut rule = rule_redirect("present", None, None, "seen");
    rule.headers = Some(vec![edge_router::config::ConfigRuleHeader {
        name: "x-flag".to_string(),
        value: None,
    }]);
    let router = build(vec![rule]);
    let res = reply(&router, request("GET", "/x", "", vec![("x-flag", "")]));
    assert_eq!(header(&res, "location"), Some("seen"));
}

#[test]
fn proxy_rule_forwards_request_verbatim() {
    let rule = ConfigRule {
        name: "proxy".to_string(),
        method: None,
        path: None,
        headers: None,
        action: "proxy".to_string(),
        redirect_to: None,
        redirect_status: None,
        proxy_url: Some("http://upstream:8080".to_string()),
    };
    let router = build(vec![rule]);
    let mut req = request(
        "POST",
        "/api/v1",
        "k=v",
        vec![("x-one", "1"), ("x-two", "2")],
    );
    req.body = b"payload bytes".to_vec();
    match router.dispatch(req) {
        Dispatch::Forward(f) => {
            assert_eq!(f.host, "upstream");
            assert_eq!(f.port, 8080);
            assert_eq!(f.request.method, "POST");
            assert_eq!(f.request.path, "/api/v1");
            assert_eq!(f.request.query, "k=v");
            assert_eq!(
                f.request.headers,
                vec![
                    ("x-one".to_string(), "1".to_string()),
                    ("x-two".to_string(), "2".to_string())
                ]
            );
            assert_eq!(f.request.body, b"payload bytes".to_vec());
        }
        Dispatch::Reply(_) => panic!("expected a forwarding instruction"),
    }
}

#[test]
fn upstream_response_is_relayed_verbatim() {
    let mut res = HttpResponse::new();
    res.set_parts(
        200,
        vec![("x-upstream".to_string(), "yes".to_string())],
        b"ok".to_vec(),
    );
    assert_eq!(res.status, 200);
    assert_eq!(
        res.headers,
        vec![("x-upstream".to_string(), "yes".to_string())]
    );
    assert_eq!(res.body, b"ok".to_vec());
}
