use edge_router::action::{ProxyAction, RedirectAction};
use edge_router::catchers::catchers;
use edge_router::condition::ConditionHeader;
use edge_router::config::{Config, ConfigError, ConfigRule};
use edge_router::errors::Error;
use edge_router::message::{HttpRequest, HttpResponse};
use edge_router::proxy::Proxy;
use edge_router::routers::{create_route, routers};

fn bare_rule(action: &str) -> ConfigRule {
    ConfigRule {
        name: "r".to_string(),
        method: None,
        path: None,
        headers: None,
        action: action.to_string(),
        redirect_to: None,
        redirect_status: None,
        proxy_url: None,
    }
}

#[test]
fn redirect_without_target_is_refused_at_load_time() {
    let rule = bare_rule("redirect");
    assert!(matches!(
        create_route(&rule),
        Err(ConfigError::MissingRedirectTo)
    ));
    assert!(routers(&vec![rule]).is_err());
}

#[test]
fn redirect_status_must_be_redirection_class() {
    let mut rule = bare_rule("redirect");
    rule.redirect_to = Some("t".to_string());
    rule.redirect_status = Some(200);
    assert!(matches!(
        create_route(&rule),
        Err(ConfigError::InvalidRedirectStatus)
    ));
    rule.redirect_status = Some(301);
    assert!(create_route(&rule).is_ok());
    rule.redirect_status = None;
    let compiled = RedirectAction::new(&rule).unwrap();
    assert_eq!(compiled.status_code, 307);
}

#[test]
fn unknown_action_is_refused() {
    let rule = bare_rule("teapot");
    assert!(matches!(create_route(&rule), Err(ConfigError::InvalidAction)));
}

#[test]
fn invalid_method_token_is_refused() {
    let mut rule = bare_rule("redirect");
    rule.redirect_to = Some("t".to_string());
    rule.method = Some("BAD METHOD".to_string());
    assert!(matches!(create_route(&rule), Err(ConfigError::InvalidMethod)));
    rule.method = Some("".to_string());
    assert!(matches!(create_route(&rule), Err(ConfigError::InvalidMethod)));
    rule.method = Some("PATCH".to_string());
    assert!(create_route(&rule).is_ok());
}

#[test]
fn proxy_without_url_is_refused() {
    let rule = bare_rule("proxy");
    assert!(matches!(
        create_route(&rule),
        Err(ConfigError::MissingProxyUrl)
    ));
}

#[test]
fn proxy_url_must_name_a_host() {
    let mut rule = bare_rule("proxy");
    rule.proxy_url = Some("/just/a/path".to_string());
    assert!(matches!(
        create_route(&rule),
        Err(ConfigError::InvalidProxyUrl(_))
    ));
    rule.proxy_url = Some("http://upstream:8080".to_string());
    let action = ProxyAction::new(&rule).unwrap();
    assert_eq!(action.proxy.host, "upstream");
    assert_eq!(action.proxy.port, 8080);
}

#[test]
fn proxy_port_defaults_to_eighty() {
    let p = Proxy::create("http://example.com/some/path").unwrap();
    assert_eq!(p.host, "example.com");
    assert_eq!(p.port, 80);
    assert!(Proxy::create("not a url at all \u{7f}").is_err());
}

#[test]
fn condition_header_compares_names_case_insensitively() {
    let cond = ConditionHeader::new("X-Token", Some("secret"));
    let req = HttpRequest {
        method: "GET".to_string(),
        path: "/".to_string(),
        query: "".to_string(),
        headers: vec![("x-token".to_string(), "secret".to_string())],
        body: Vec::new(),
    };
    assert!(cond.filter(&req));
    let cond_wrong = ConditionHeader::new("X-Token", Some("SECRET"));
    assert!(!cond_wrong.filter(&req));
    let cond_any = ConditionHeader::new("x-TOKEN", None);
    assert!(cond_any.filter(&req));
    let cond_absent = ConditionHeader::new("other", None);
    assert!(!cond_absent.filter(&req));
}

#[test]
fn proxy_errors_render_as_json_bad_request() {
    let mut res = HttpResponse::new();
    Error::IOError("connection refused".to_string()).write(&mut res);
    assert_eq!(res.status, 400);
    assert_eq!(res.body, b"{\"error\":\"connection refused\"}".to_vec());
    assert!(res
        .headers
        .contains(&("content-type".to_string(), "application/json".to_string())));
}

#[test]
fn proxy_error_messages_are_json_escaped() {
    let mut res = HttpResponse::new();
    Error::HyperError("a\"b\\c\nd".to_string()).write(&mut res);
    assert_eq!(res.body, b"{\"error\":\"a\\\"b\\\\c\\nd\"}".to_vec());
}

#[test]
fn catchers_fill_only_bodyless_error_responses() {
    let mut res = HttpResponse::new();
    res.status = 400;
    assert!(catchers(&mut res));
    assert_eq!(res.body, b"400 - Bad request".to_vec());

    let mut res = HttpResponse::new();
    res.status = 500;
    assert!(catchers(&mut res));
    assert_eq!(res.body, b"500 - Internal error".to_vec());

    let mut res = HttpResponse::new();
    res.status = 404;
    res.body = b"already".to_vec();
    assert!(!catchers(&mut res));
    assert_eq!(res.body, b"already".to_vec());

    let mut res = HttpResponse::new();
    assert!(!catchers(&mut res));
    assert_eq!(res.status, 200);
}

#[test]
fn expand_var_substitutes_known_names_only() {
    let vars = vec![
        ("HOME".to_string(), "/root".to_string()),
        ("PORT_1".to_string(), "8080".to_string()),
    ];
    assert_eq!(Config::expand_var("bind: ${HOME}/sock", &vars), "bind: /root/sock");
    assert_eq!(Config::expand_var("${PORT_1}${HOME}", &vars), "8080/root");
    assert_eq!(Config::expand_var("${UNKNOWN} stays", &vars), "${UNKNOWN} stays");
    assert_eq!(Config::expand_var("${1BAD} stays", &vars), "${1BAD} stays");
    assert_eq!(Config::expand_var("no placeholders", &vars), "no placeholders");
    assert_eq!(Config::expand_var("$HOME unbraced", &vars), "$HOME unbraced");
}
