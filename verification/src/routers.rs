//! The router: rules are compiled once, in declaration order, and every
//! request is answered by the first rule whose whole predicate chain
//! (method, path pattern, header conditions) matches. A matched redirect is
//! answered on the spot; a matched proxy yields a forwarding instruction for
//! the caller, which owns the I/O.

use crate::action::{
    path_has_params, status_or_default, target_of, valid_header_value, ProxyAction, RedirectAction,
};
use crate::condition::{condition_matches, opt_str_view, ConditionHeader};
use crate::config::{ConfigError, ConfigRule, ConfigRuleHeader};
use crate::message::{HttpRequest, HttpResponse};
use crate::pattern::{
    parse_pattern, path_segments, pattern_captures, pattern_matches, pattern_parsed, split_path,
    PathPattern,
};
use crate::proxy::{port_or_default, url_host_of, url_port_of};
use crate::strutil::{pairs_view, str_eq, strs_view};
use vstd::prelude::*;

verus! {

/// A character an HTTP method token may hold.
pub open spec fn method_token_char(c: char) -> bool {
    let u = c as u32;
    (48 <= u && u <= 57) || (65 <= u && u <= 90) || (97 <= u && u <= 122) || c == '!' || c == '#'
        || c == '$' || c == '%' || c == '&' || c == '\'' || c == '*' || c == '+' || c == '-'
        || c == '.' || c == '^' || c == '_' || c == '`' || c == '|' || c == '~'
}

/// A well-formed HTTP method token: nonempty, token characters throughout.
pub open spec fn valid_method_token(s: Seq<char>) -> bool {
    s.len() > 0 && forall|k: int| 0 <= k < s.len() ==> method_token_char(#[trigger] s[k])
}

/// Checks that `s` is a well-formed HTTP method token.
fn check_method_token(s: &str) -> (r: bool)
    ensures
        r == valid_method_token(s@),
{
    let n = s.unicode_len();
    if n == 0 {
        return false;
    }
    let mut k: usize = 0;
    while k < n
        invariant
            n == s@.len(),
            k <= n,
            forall|j: int| 0 <= j < k ==> method_token_char(#[trigger] s@[j]),
        decreases n - k,
    {
        let c = s.get_char(k);
        let u = c as u32;
        if !((48 <= u && u <= 57) || (65 <= u && u <= 90) || (97 <= u && u <= 122) || c == '!'
            || c == '#' || c == '$' || c == '%' || c == '&' || c == '\'' || c == '*' || c == '+'
            || c == '-' || c == '.' || c == '^' || c == '_' || c == '`' || c == '|' || c == '~') {
            assert(!method_token_char(s@[k as int]));
            return false;
        }
        k += 1;
    }
    true
}

/// The action a compiled rule carries.
pub enum RuleAction {
    Redirect(RedirectAction),
    Proxy(ProxyAction),
}

/// One compiled rule: the predicate chain and the validated action.
pub struct CompiledRule {
    pub name: String,
    pub method: Option<String>,
    pub pattern: PathPattern,
    pub headers: Vec<ConditionHeader>,
    pub action: RuleAction,
}

/// An absent method matches every request; a configured one must equal the
/// request's method exactly.
pub open spec fn method_matches(m: Option<String>, method: Seq<char>) -> bool {
    match m {
        None => true,
        Some(s) => s@ == method,
    }
}

/// All of a rule's header conditions hold of the request's headers.
pub open spec fn headers_match(
    conds: Seq<ConditionHeader>,
    headers: Seq<(Seq<char>, Seq<char>)>,
) -> bool {
    forall|k: int|
        0 <= k < conds.len() ==> condition_matches(
            (#[trigger] conds[k]).name@,
            opt_str_view(conds[k].value),
            headers,
        )
}

/// A rule's whole predicate chain holds of a request. Only the request's
/// method, path and headers are read; its query and body never decide a
/// match.
pub open spec fn rule_matches(r: CompiledRule, req: HttpRequest) -> bool {
    method_matches(r.method, req.method@) && pattern_matches(r.pattern, path_segments(req.path@))
        && headers_match(r.headers@, pairs_view(req.headers@))
}

/// The capture bindings a rule produces for a request.
pub open spec fn rule_captures(r: CompiledRule, req: HttpRequest) -> Seq<(Seq<char>, Seq<char>)> {
    pattern_captures(r.pattern, path_segments(req.path@))
}

/// The index of the first matching rule at or after `i`, if any.
pub open spec fn first_match_from(rules: Seq<CompiledRule>, req: HttpRequest, i: int) -> Option<
    int,
>
    decreases rules.len() - i,
{
    if i < 0 || i >= rules.len() {
        None
    } else if rule_matches(rules[i], req) {
        Some(i)
    } else {
        first_match_from(rules, req, i + 1)
    }
}

/// The index of the first rule, in declaration order, whose whole predicate
/// chain matches the request.
pub open spec fn first_match(rules: Seq<CompiledRule>, req: HttpRequest) -> Option<int> {
    first_match_from(rules, req, 0)
}

proof fn lemma_first_match_from_earliest(rules: Seq<CompiledRule>, req: HttpRequest, i: int)
    requires
        0 <= i,
    ensures
        match first_match_from(rules, req, i) {
            Some(j) => i <= j < rules.len() && rule_matches(rules[j], req) && forall|k: int|
                i <= k < j ==> !rule_matches(rules[k], req),
            None => forall|k: int| i <= k < rules.len() ==> !rule_matches(rules[k], req),
        },
    decreases rules.len() - i,
{
    if i < rules.len() && !rule_matches(rules[i], req) {
        lemma_first_match_from_earliest(rules, req, i + 1);
    }
}

/// First match wins: the selected rule matches, and no rule declared before
/// it matches; when none is selected, no rule matches at all.
pub proof fn lemma_first_match_is_earliest(rules: Seq<CompiledRule>, req: HttpRequest)
    ensures
        match first_match(rules, req) {
            Some(j) => 0 <= j < rules.len() && rule_matches(rules[j], req) && forall|k: int|
                0 <= k < j ==> !rule_matches(rules[k], req),
            None => forall|k: int| 0 <= k < rules.len() ==> !rule_matches(rules[k], req),
        },
{
    lemma_first_match_from_earliest(rules, req, 0);
}

/// Rule selection and capture production read nothing of a request but its
/// method, path and headers: the query string never changes the outcome.
pub proof fn lemma_selection_ignores_query(
    rules: Seq<CompiledRule>,
    r1: HttpRequest,
    r2: HttpRequest,
)
    requires
        r1.method@ == r2.method@,
        r1.path@ == r2.path@,
        pairs_view(r1.headers@) == pairs_view(r2.headers@),
    ensures
        first_match(rules, r1) == first_match(rules, r2),
        forall|i: int|
            0 <= i < rules.len() ==> rule_captures(#[trigger] rules[i], r1) == rule_captures(
                rules[i],
                r2,
            ),
{
    lemma_first_match_from_query(rules, r1, r2, 0);
}

proof fn lemma_first_match_from_query(
    rules: Seq<CompiledRule>,
    r1: HttpRequest,
    r2: HttpRequest,
    i: int,
)
    requires
        0 <= i,
        r1.method@ == r2.method@,
        r1.path@ == r2.path@,
        pairs_view(r1.headers@) == pairs_view(r2.headers@),
    ensures
        first_match_from(rules, r1, i) == first_match_from(rules, r2, i),
    decreases rules.len() - i,
{
    if i < rules.len() {
        lemma_first_match_from_query(rules, r1, r2, i + 1);
    }
}

/// The rule's `action` field names the redirect action.
pub open spec fn action_is_redirect(rule: ConfigRule) -> bool {
    rule.action@ == "redirect"@
}

/// The rule's `action` field names the proxy action.
pub open spec fn action_is_proxy(rule: ConfigRule) -> bool {
    rule.action@ == "proxy"@
}

/// The rule's method, if configured, is a well-formed token.
pub open spec fn method_ok(m: Option<String>) -> bool {
    match m {
        None => true,
        Some(s) => valid_method_token(s@),
    }
}

/// The rule's header conditions, an absent list standing for no conditions.
pub open spec fn rule_header_conds(h: Option<Vec<ConfigRuleHeader>>) -> Seq<ConfigRuleHeader> {
    match h {
        None => Seq::empty(),
        Some(v) => v@,
    }
}

/// A redirect rule's action fields are valid.
pub open spec fn redirect_rule_wf(rule: ConfigRule) -> bool {
    rule.redirect_to is Some && 300 <= status_or_default(rule.redirect_status) < 400
}

/// A proxy rule's action fields are valid.
pub open spec fn proxy_rule_wf(rule: ConfigRule) -> bool {
    match rule.proxy_url {
        None => false,
        Some(u) => url_host_of(u@) is Some,
    }
}

/// A rule is loadable: valid method token, a known action, and that
/// action's fields valid.
pub open spec fn rule_ok(rule: ConfigRule) -> bool {
    method_ok(rule.method) && ((action_is_redirect(rule) && redirect_rule_wf(rule)) || (
    action_is_proxy(rule) && proxy_rule_wf(rule)))
}

/// The compiled redirect action carries the rule's fields.
pub open spec fn redirect_built(rule: ConfigRule, a: RedirectAction) -> bool {
    &&& match rule.redirect_to {
        Some(t) => a.redirect_to@ == t@,
        None => false,
    }
    &&& a.status_code == status_or_default(rule.redirect_status)
    &&& a.has_params == path_has_params(rule.path)
}

/// The compiled proxy action carries the upstream the rule's URL names.
pub open spec fn proxy_built(rule: ConfigRule, p: ProxyAction) -> bool {
    match rule.proxy_url {
        None => false,
        Some(u) => url_host_of(u@) == Some(p.proxy.host@) && p.proxy.port == port_or_default(
            url_port_of(u@),
        ),
    }
}

/// How a loadable rule compiles: every predicate and the action carried
/// over, in order.
pub open spec fn rule_compiled(rule: ConfigRule, cr: CompiledRule) -> bool {
    &&& opt_str_view(cr.method) == opt_str_view(rule.method)
    &&& match rule.path {
        None => cr.pattern is Any,
        Some(p) => pattern_parsed(p@, cr.pattern),
    }
    &&& cr.headers@.len() == rule_header_conds(rule.headers).len()
    &&& forall|k: int|
        0 <= k < cr.headers@.len() ==> (#[trigger] cr.headers@[k]).name@ == rule_header_conds(
            rule.headers,
        )[k].name@ && opt_str_view(cr.headers@[k].value) == opt_str_view(
            rule_header_conds(rule.headers)[k].value,
        )
    &&& (action_is_redirect(rule) ==> {
        &&& cr.action matches RuleAction::Redirect(a)
        &&& redirect_built(rule, a)
    })
    &&& (action_is_proxy(rule) ==> {
        &&& cr.action matches RuleAction::Proxy(p)
        &&& proxy_built(rule, p)
    })
}

/// Compiles one rule, validating it whole: an invalid method, an unknown
/// action or invalid action fields refuse the rule, never a request.
pub fn create_route(rule: &ConfigRule) -> (r: Result<CompiledRule, ConfigError>)
    ensures
        r is Ok <==> rule_ok(*rule),
        match r {
            Ok(cr) => rule_compiled(*rule, cr),
            Err(e) => {
                &&& (e is InvalidMethod <==> !method_ok(rule.method))
                &&& (e is InvalidAction <==> method_ok(rule.method) && !action_is_redirect(*rule)
                    && !action_is_proxy(*rule))
                &&& (e is MissingRedirectTo <==> method_ok(rule.method) && action_is_redirect(
                    *rule,
                ) && rule.redirect_to is None)
                &&& (e is InvalidRedirectStatus <==> method_ok(rule.method) && action_is_redirect(
                    *rule,
                ) && rule.redirect_to is Some && !(300 <= status_or_default(rule.redirect_status)
                    < 400))
                &&& (e is MissingProxyUrl <==> method_ok(rule.method) && action_is_proxy(*rule)
                    && rule.proxy_url is None)
                &&& (e matches ConfigError::InvalidProxyUrl(_) <==> method_ok(rule.method)
                    && action_is_proxy(*rule) && !proxy_rule_wf(*rule) && rule.proxy_url is Some)
            },
        },
{
    proof {
        reveal_strlit("redirect");
        reveal_strlit("proxy");
        assert("redirect"@ != "proxy"@) by {
            assert("redirect"@.len() != "proxy"@.len());
        }
    }
    match &rule.method {
        Some(m) => {
            if !check_method_token(m.as_str()) {
                return Err(ConfigError::InvalidMethod);
            }
        },
        None => {},
    }
    let method: Option<String> = match &rule.method {
        None => None,
        Some(m) => Some(m.clone()),
    };
    let pattern = match &rule.path {
        None => PathPattern::Any,
        Some(p) => parse_pattern(p.as_str()),
    };
    let mut headers: Vec<ConditionHeader> = Vec::new();
    match &rule.headers {
        None => {},
        Some(hs) => {
            let mut i: usize = 0;
            while i < hs.len()
                invariant
                    i <= hs@.len(),
                    headers@.len() == i,
                    rule_header_conds(rule.headers) == hs@,
                    forall|k: int|
                        0 <= k < i ==> (#[trigger] headers@[k]).name@ == hs@[k].name@
                            && opt_str_view(headers@[k].value) == opt_str_view(hs@[k].value),
                decreases hs@.len() - i,
            {
                let h = &hs[i];
                let value: Option<&str> = match &h.value {
                    None => None,
                    Some(v) => Some(v.as_str()),
                };
                headers.push(ConditionHeader::new(h.name.as_str(), value));
                i += 1;
            }
        },
    }
    if str_eq(rule.action.as_str(), "redirect") {
        match RedirectAction::new(rule) {
            Ok(a) => Ok(
                CompiledRule {
                    name: rule.name.clone(),
                    method,
                    pattern,
                    headers,
                    action: RuleAction::Redirect(a),
                },
            ),
            Err(e) => Err(e),
        }
    } else if str_eq(rule.action.as_str(), "proxy") {
        match ProxyAction::new(rule) {
            Ok(a) => Ok(
                CompiledRule {
                    name: rule.name.clone(),
                    method,
                    pattern,
                    headers,
                    action: RuleAction::Proxy(a),
                },
            ),
            Err(e) => Err(e),
        }
    } else {
        Err(ConfigError::InvalidAction)
    }
}

/// The compiled router: the rules in declaration order, read-only once
/// built.
pub struct Router {
    pub rules: Vec<CompiledRule>,
}

/// Compiles the whole ordered rule list; any invalid rule refuses the whole
/// configuration.
pub fn routers(rules: &Vec<ConfigRule>) -> (r: Result<Router, ConfigError>)
    ensures
        r is Ok <==> (forall|k: int| 0 <= k < rules@.len() ==> rule_ok(#[trigger] rules@[k])),
        match r {
            Ok(router) => router.rules@.len() == rules@.len() && forall|k: int|
                0 <= k < rules@.len() ==> rule_compiled(rules@[k], #[trigger] router.rules@[k]),
            Err(_) => true,
        },
{
    let mut compiled: Vec<CompiledRule> = Vec::new();
    let mut i: usize = 0;
    while i < rules.len()
        invariant
            i <= rules@.len(),
            compiled@.len() == i,
            forall|k: int| 0 <= k < i ==> rule_ok(#[trigger] rules@[k]),
            forall|k: int| 0 <= k < i ==> rule_compiled(rules@[k], #[trigger] compiled@[k]),
        decreases rules@.len() - i,
    {
        match create_route(&rules[i]) {
            Ok(cr) => {
                compiled.push(cr);
            },
            Err(e) => {
                assert(!rule_ok(rules@[i as int]));
                return Err(e);
            },
        }
        i += 1;
    }
    Ok(Router { rules: compiled })
}

/// Decides one rule against a request whose path components are `segs`.
fn match_rule(rule: &CompiledRule, req: &HttpRequest, segs: &Vec<String>) -> (r: Option<
    Vec<(String, String)>,
>)
    requires
        strs_view(segs@) == path_segments(req.path@),
    ensures
        match r {
            Some(c) => rule_matches(*rule, *req) && pairs_view(c@) == rule_captures(*rule, *req),
            None => !rule_matches(*rule, *req),
        },
{
    match &rule.method {
        Some(m) => {
            if !str_eq(m.as_str(), req.method.as_str()) {
                return None;
            }
        },
        None => {},
    }
    let mut k: usize = 0;
    while k < rule.headers.len()
        invariant
            k <= rule.headers@.len(),
            forall|j: int|
                0 <= j < k ==> condition_matches(
                    (#[trigger] rule.headers@[j]).name@,
                    opt_str_view(rule.headers@[j].value),
                    pairs_view(req.headers@),
                ),
        decreases rule.headers@.len() - k,
    {
        if !rule.headers[k].filter(req) {
            assert(!condition_matches(
                rule.headers@[k as int].name@,
                opt_str_view(rule.headers@[k as int].value),
                pairs_view(req.headers@),
            ));
            return None;
        }
        k += 1;
    }
    crate::pattern::match_pattern(&rule.pattern, segs)
}

/// What the router answers: a finished response, or the instruction to
/// forward the request to a fixed upstream and relay that upstream's answer.
pub enum Dispatch {
    /// Answer the client with this response.
    Reply(HttpResponse),
    /// Open a fresh connection to the upstream and relay.
    Forward(ForwardRequest),
}

/// A forwarding instruction: the upstream address, and the request to send
/// it, unchanged but for the authority the new connection implies.
pub struct ForwardRequest {
    pub host: String,
    pub port: u16,
    pub request: HttpRequest,
}

impl Router {
    /// Selects the first rule, in declaration order, whose whole predicate
    /// chain matches, with its capture bindings.
    pub fn select(&self, req: &HttpRequest) -> (r: Option<(usize, Vec<(String, String)>)>)
        ensures
            match r {
                Some((i, caps)) => i < self.rules@.len() && first_match(self.rules@, *req) == Some(
                    i as int,
                ) && pairs_view(caps@) == rule_captures(self.rules@[i as int], *req),
                None => first_match(self.rules@, *req) is None,
            },
    {
        let segs = split_path(req.path.as_str());
        let mut i: usize = 0;
        while i < self.rules.len()
            invariant
                i <= self.rules@.len(),
                strs_view(segs@) == path_segments(req.path@),
                first_match_from(self.rules@, *req, 0) == first_match_from(
                    self.rules@,
                    *req,
                    i as int,
                ),
            decreases self.rules@.len() - i,
        {
            match match_rule(&self.rules[i], req, &segs) {
                Some(caps) => {
                    return Some((i, caps));
                },
                None => {},
            }
            i += 1;
        }
        None
    }

    /// Routes one request: the first matching redirect rule yields its
    /// response at once; the first matching proxy rule yields a forwarding
    /// instruction carrying the request untouched; no match yields a bare
    /// not-found response for the catchers to fill.
    pub fn dispatch(&self, req: HttpRequest) -> (d: Dispatch)
        ensures
            match first_match(self.rules@, req) {
                None => d matches Dispatch::Reply(r) && r.status == 404 && r.headers@.len() == 0
                    && r.body@.len() == 0,
                Some(i) => match self.rules@[i].action {
                    RuleAction::Redirect(a) => d matches Dispatch::Reply(r) && ({
                        let target = target_of(a, rule_captures(self.rules@[i], req));
                        if valid_header_value(target) {
                            r.status == a.status_code && pairs_view(r.headers@) == seq![
                                ("location"@, target),
                            ] && r.body@.len() == 0
                        } else {
                            r.status == 200 && r.headers@.len() == 0 && r.body@.len() == 0
                        }
                    }),
                    RuleAction::Proxy(p) => d matches Dispatch::Forward(f) && f.host
                        == p.proxy.host && f.port == p.proxy.port && f.request == req,
                },
            },
    {
        match self.select(&req) {
            None => {
                let mut res = HttpResponse::new();
                res.status = 404;
                Dispatch::Reply(res)
            },
            Some((i, caps)) => match &self.rules[i].action {
                RuleAction::Redirect(a) => {
                    let mut res = HttpResponse::new();
                    let ghost before = pairs_view(res.headers@);
                    a.handle(&caps, &mut res);
                    proof {
                        let target = target_of(*a, rule_captures(self.rules@[i as int], req));
                        if valid_header_value(target) {
                            assert(pairs_view(res.headers@) =~~= seq![("location"@, target)]);
                        }
                    }
                    Dispatch::Reply(res)
                },
                RuleAction::Proxy(p) => Dispatch::Forward(
                    ForwardRequest { host: p.proxy.host.clone(), port: p.proxy.port, request: req },
                ),
            },
        }
    }
}

} // verus!
