//! The two actions a matched rule can carry: a redirect, which answers with
//! a redirection status and a `location` header computed from the rule's
//! target template and the request's path captures; and a proxy, which hands
//! the request on to a fixed upstream.

use crate::config::{ConfigError, ConfigRule};
use crate::message::HttpResponse;
use crate::proxy::{url_host_of, url_port_of, port_or_default, Proxy};
use crate::strutil::{
    assoc, find_from, has_char, lemma_find_from, pairs_view,
};
use vstd::prelude::*;

verus! {

/// The substitution of the template suffix `t[i..]`: each `<name>` whose
/// name is bound in `caps` is replaced by its binding; every other
/// character, unbound placeholders included, is copied unchanged.
pub open spec fn subst_from(t: Seq<char>, caps: Seq<(Seq<char>, Seq<char>)>, i: int) -> Seq<char>
    decreases t.len() - i,
    when 0 <= i
    via subst_from_dec
{
    if i >= t.len() {
        Seq::empty()
    } else if t[i] == '<' {
        match find_from(t, '>', i + 1) {
            Some(j) => match assoc(caps, t.subrange(i + 1, j)) {
                Some(v) => v + subst_from(t, caps, j + 1),
                None => seq!['<'] + subst_from(t, caps, i + 1),
            },
            None => seq!['<'] + subst_from(t, caps, i + 1),
        }
    } else {
        seq![t[i]] + subst_from(t, caps, i + 1)
    }
}

#[via_fn]
proof fn subst_from_dec(t: Seq<char>, caps: Seq<(Seq<char>, Seq<char>)>, i: int) {
    if 0 <= i < t.len() && t[i] == '<' {
        lemma_find_from(t, '>', i + 1);
    }
}

/// The substitution of a whole template under the given capture bindings.
pub open spec fn subst(t: Seq<char>, caps: Seq<(Seq<char>, Seq<char>)>) -> Seq<char> {
    subst_from(t, caps, 0)
}

/// Whether the placeholder `<name>` occurs anywhere in `t`.
pub open spec fn has_placeholder(t: Seq<char>, name: Seq<char>) -> bool {
    exists|i: int|
        0 <= i && i + name.len() + 2 <= t.len() && #[trigger] t.subrange(i, i + name.len() + 2)
            == seq!['<'] + name + seq!['>']
}

proof fn lemma_subst_from_no_placeholders(t: Seq<char>, caps: Seq<(Seq<char>, Seq<char>)>, i: int)
    requires
        0 <= i <= t.len(),
        forall|k: int| 0 <= k < caps.len() ==> !has_placeholder(t, (#[trigger] caps[k]).0),
    ensures
        subst_from(t, caps, i) == t.subrange(i, t.len() as int),
    decreases t.len() - i,
{
    if i >= t.len() {
        assert(subst_from(t, caps, i) =~= t.subrange(i, t.len() as int));
    } else if t[i] == '<' {
        lemma_find_from(t, '>', i + 1);
        match find_from(t, '>', i + 1) {
            Some(j) => {
                let name = t.subrange(i + 1, j);
                if assoc(caps, name) is Some {
                    crate::strutil::lemma_assoc_some(caps, name, 0);
                    let k = choose|k: int| 0 <= k < caps.len() && caps[k].0 == name;
                    assert(t.subrange(i, i + name.len() + 2) =~= seq!['<'] + name + seq!['>']);
                    assert(has_placeholder(t, name));
                    assert(false);
                }
                lemma_subst_from_no_placeholders(t, caps, i + 1);
                assert(subst_from(t, caps, i) =~= t.subrange(i, t.len() as int));
            },
            None => {
                lemma_subst_from_no_placeholders(t, caps, i + 1);
                assert(subst_from(t, caps, i) =~= t.subrange(i, t.len() as int));
            },
        }
    } else {
        lemma_subst_from_no_placeholders(t, caps, i + 1);
        assert(subst_from(t, caps, i) =~= t.subrange(i, t.len() as int));
    }
}

/// Substitution is the identity on a template in which no capture's name
/// occurs as a placeholder: the output equals the input.
pub proof fn lemma_subst_no_placeholders(t: Seq<char>, caps: Seq<(Seq<char>, Seq<char>)>)
    requires
        forall|k: int| 0 <= k < caps.len() ==> !has_placeholder(t, (#[trigger] caps[k]).0),
    ensures
        subst(t, caps) == t,
{
    lemma_subst_from_no_placeholders(t, caps, 0);
    assert(t.subrange(0, t.len() as int) =~= t);
}

/// Substitutes the template suffix starting at character `i`.
fn subst_str_from(t: &str, caps: &Vec<(String, String)>, i: usize) -> (r: String)
    requires
        i <= t@.len(),
    ensures
        r@ == subst_from(t@, pairs_view(caps@), i as int),
    decreases t@.len() - i,
{
    let n = t.unicode_len();
    if i == n {
        return String::new();
    }
    let c = t.get_char(i);
    if c == '<' {
        match crate::strutil::find_char_from(t, '>', i + 1) {
            Some(j) => {
                proof {
                    lemma_find_from(t@, '>', i as int + 1);
                }
                let name = t.substring_char(i + 1, j);
                match crate::strutil::assoc_get(caps, name) {
                    Some(v) => {
                        let rest = subst_str_from(t, caps, j + 1);
                        v.clone().concat(rest.as_str())
                    },
                    None => {
                        let rest = subst_str_from(t, caps, i + 1);
                        let head = t.substring_char(i, i + 1);
                        assert(head@ =~= seq!['<']);
                        String::from_str(head).concat(rest.as_str())
                    },
                }
            },
            None => {
                let rest = subst_str_from(t, caps, i + 1);
                let head = t.substring_char(i, i + 1);
                assert(head@ =~= seq!['<']);
                String::from_str(head).concat(rest.as_str())
            },
        }
    } else {
        let rest = subst_str_from(t, caps, i + 1);
        let head = t.substring_char(i, i + 1);
        assert(head@ =~= seq![t@[i as int]]);
        String::from_str(head).concat(rest.as_str())
    }
}

/// A character that may stand in an HTTP header value: horizontal tab or any
/// character other than the control characters and delete.
pub open spec fn valid_header_char(c: char) -> bool {
    c == '\t' || (32 <= c as u32 && c as u32 != 127)
}

/// A text that may stand whole as an HTTP header value.
pub open spec fn valid_header_value(s: Seq<char>) -> bool {
    forall|k: int| 0 <= k < s.len() ==> valid_header_char(#[trigger] s[k])
}

/// Checks that `s` may stand as an HTTP header value.
fn check_header_value(s: &str) -> (r: bool)
    ensures
        r == valid_header_value(s@),
{
    let n = s.unicode_len();
    let mut k: usize = 0;
    while k < n
        invariant
            n == s@.len(),
            k <= n,
            forall|j: int| 0 <= j < k ==> valid_header_char(#[trigger] s@[j]),
        decreases n - k,
    {
        let c = s.get_char(k);
        let u = c as u32;
        if !(c == '\t' || (32 <= u && u != 127)) {
            assert(!valid_header_char(s@[k as int]));
            return false;
        }
        k += 1;
    }
    true
}

/// The redirect status a rule configures, or 307 when it names none.
pub open spec fn status_or_default(o: Option<u16>) -> u16 {
    match o {
        None => 307,
        Some(s) => s,
    }
}

/// Whether a rule's path pattern holds capture placeholders at all.
pub open spec fn path_has_params(path: Option<String>) -> bool {
    match path {
        None => false,
        Some(p) => has_char(p@, '<'),
    }
}

/// A compiled redirect: the target template, whether the rule's pattern
/// captures anything, and the validated redirection status code.
pub struct RedirectAction {
    pub redirect_to: String,
    pub has_params: bool,
    pub status_code: u16,
}

/// The target a redirect answers with: the template, with the capture
/// bindings substituted when the rule's pattern captures at all.
pub open spec fn target_of(a: RedirectAction, caps: Seq<(Seq<char>, Seq<char>)>) -> Seq<char> {
    if a.has_params {
        subst(a.redirect_to@, caps)
    } else {
        a.redirect_to@
    }
}

impl RedirectAction {
    /// Validates a redirect rule: `redirect_to` must be present and the
    /// status, 307 when absent, must be a redirection (3xx) code.
    pub fn new(rule: &ConfigRule) -> (r: Result<RedirectAction, ConfigError>)
        ensures
            r is Ok <==> rule.redirect_to is Some && 300 <= status_or_default(rule.redirect_status)
                < 400,
            match r {
                Ok(a) => {
                    &&& match rule.redirect_to {
                        Some(t) => a.redirect_to@ == t@,
                        None => false,
                    }
                    &&& a.status_code == status_or_default(rule.redirect_status)
                    &&& a.has_params == path_has_params(rule.path)
                },
                Err(e) => {
                    &&& e is MissingRedirectTo <==> rule.redirect_to is None
                    &&& e is InvalidRedirectStatus <==> rule.redirect_to is Some && !(300
                        <= status_or_default(rule.redirect_status) < 400)
                },
            },
    {
        let redirect_to = match &rule.redirect_to {
            None => {
                return Err(ConfigError::MissingRedirectTo);
            },
            Some(t) => t.clone(),
        };
        let status_code = match rule.redirect_status {
            None => 307,
            Some(s) => s,
        };
        if !(300 <= status_code && status_code < 400) {
            return Err(ConfigError::InvalidRedirectStatus);
        }
        let has_params = match &rule.path {
            None => false,
            Some(p) => crate::strutil::contains_char(p.as_str(), '<'),
        };
        Ok(RedirectAction { redirect_to, has_params, status_code })
    }

    /// Writes the redirection onto the response: the configured status and a
    /// `location` header with the computed target. A target that cannot
    /// stand as a header value leaves the response as it was.
    fn redirect(&self, res: &mut HttpResponse, uri: String)
        ensures
            if valid_header_value(uri@) {
                final(res).status == self.status_code && pairs_view(final(res).headers@)
                    == pairs_view(old(res).headers@).push(("location"@, uri@)) && final(res).body
                    == old(res).body
            } else {
                *final(res) == *old(res)
            },
    {
        if check_header_value(uri.as_str()) {
            res.status = self.status_code;
            let ghost before = pairs_view(res.headers@);
            let ghost uriv = uri@;
            res.headers.push((String::from_str("location"), uri));
            assert(pairs_view(res.headers@) =~~= before.push(("location"@, uriv)));
        }
    }

    /// Answers a matched request: substitutes the capture bindings into the
    /// template when the pattern captures, then writes the redirection.
    pub fn handle(&self, caps: &Vec<(String, String)>, res: &mut HttpResponse)
        ensures
            ({
                let target = target_of(*self, pairs_view(caps@));
                if valid_header_value(target) {
                    final(res).status == self.status_code && pairs_view(final(res).headers@)
                        == pairs_view(old(res).headers@).push(("location"@, target))
                        && final(res).body == old(res).body
                } else {
                    *final(res) == *old(res)
                }
            }),
    {
        let target = if self.has_params {
            subst_str_from(self.redirect_to.as_str(), caps, 0)
        } else {
            self.redirect_to.clone()
        };
        self.redirect(res, target);
    }
}

/// A compiled proxy action: the fixed upstream the rule forwards to.
pub struct ProxyAction {
    pub proxy: Proxy,
}

impl ProxyAction {
    /// Validates a proxy rule: `proxy_url` must be present, parse, and name
    /// a host; its port defaults to 80.
    pub fn new(rule: &ConfigRule) -> (r: Result<ProxyAction, ConfigError>)
        ensures
            match rule.proxy_url {
                None => r matches Err(ConfigError::MissingProxyUrl),
                Some(u) => {
                    &&& r is Ok <==> url_host_of(u@) is Some
                    &&& match r {
                        Ok(a) => url_host_of(u@) == Some(a.proxy.host@) && a.proxy.port
                            == port_or_default(url_port_of(u@)),
                        Err(e) => e matches ConfigError::InvalidProxyUrl(_),
                    }
                },
            },
    {
        let url = match &rule.proxy_url {
            None => {
                return Err(ConfigError::MissingProxyUrl);
            },
            Some(u) => u,
        };
        match Proxy::create(url.as_str()) {
            Ok(proxy) => Ok(ProxyAction { proxy }),
            Err(e) => {
                let msg = match e {
                    crate::errors::Error::InvalidURLForProxy(m) => m,
                    crate::errors::Error::IOError(m) => m,
                    crate::errors::Error::HttpError(m) => m,
                    crate::errors::Error::HyperError(m) => m,
                };
                Err(ConfigError::InvalidProxyUrl(msg))
            },
        }
    }
}

} // verus!
