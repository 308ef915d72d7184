//! The configuration data the router is built from, and the expansion of
//! `${NAME}` placeholders in a raw configuration text from a list of variable
//! bindings.

use crate::strutil::{assoc, find_from, lemma_find_from, pairs_view};
use vstd::prelude::*;

verus! {

/// A whole configuration: where to listen, and the ordered rule list.
#[derive(Debug)]
pub struct Config {
    pub server: ConfigServer,
    pub rules: Vec<ConfigRule>,
}

/// The listener address.
#[derive(Debug)]
pub struct ConfigServer {
    pub bind: String,
}

/// One declarative rule, as loaded: matching fields and action fields.
#[derive(Debug)]
pub struct ConfigRule {
    pub name: String,
    pub method: Option<String>,
    pub path: Option<String>,
    pub headers: Option<Vec<ConfigRuleHeader>>,
    pub action: String,
    pub redirect_to: Option<String>,
    pub redirect_status: Option<u16>,
    pub proxy_url: Option<String>,
}

/// One header condition of a rule.
#[derive(Debug, Clone)]
pub struct ConfigRuleHeader {
    pub name: String,
    pub value: Option<String>,
}

/// What can be wrong with a rule at load time; every variant is fatal before
/// any request is served.
#[derive(Debug)]
pub enum ConfigError {
    /// The rule's `method` is not an HTTP method token.
    InvalidMethod,
    /// The rule's `action` is neither `redirect` nor `proxy`.
    InvalidAction,
    /// `action` is `redirect` but `redirect_to` is absent.
    MissingRedirectTo,
    /// The configured redirect status is not a redirection (3xx) code.
    InvalidRedirectStatus,
    /// `action` is `proxy` but `proxy_url` is absent.
    MissingProxyUrl,
    /// `proxy_url` does not parse to an URL with a host; holds the reason.
    InvalidProxyUrl(String),
}

/// A letter or underscore: what a variable name may start with.
pub open spec fn name_start_char(c: char) -> bool {
    let u = c as u32;
    (97 <= u && u <= 122) || (65 <= u && u <= 90) || u == 95
}

/// A letter, digit or underscore: what a variable name may continue with.
pub open spec fn name_char(c: char) -> bool {
    let u = c as u32;
    name_start_char(c) || (48 <= u && u <= 57)
}

/// A well-formed variable name: nonempty, a letter or underscore first, then
/// letters, digits and underscores.
pub open spec fn var_name_ok(n: Seq<char>) -> bool {
    n.len() >= 1 && name_start_char(n[0]) && forall|k: int|
        1 <= k < n.len() ==> name_char(#[trigger] n[k])
}

/// The expansion of the suffix `s[i..]`: each `${NAME}` whose name is
/// well-formed and bound in `vars` is replaced by its binding; everything
/// else, an unbound or ill-formed placeholder included, is copied unchanged.
pub open spec fn expand_from(s: Seq<char>, vars: Seq<(Seq<char>, Seq<char>)>, i: int) -> Seq<char>
    decreases s.len() - i,
    when 0 <= i
    via expand_from_dec
{
    if i >= s.len() {
        Seq::empty()
    } else if s[i] == '$' && i + 1 < s.len() && s[i + 1] == '{' {
        match find_from(s, '}', i + 2) {
            Some(j) => {
                let name = s.subrange(i + 2, j);
                match (if var_name_ok(name) {
                    assoc(vars, name)
                } else {
                    None
                }) {
                    Some(v) => v + expand_from(s, vars, j + 1),
                    None => seq!['$'] + expand_from(s, vars, i + 1),
                }
            },
            None => seq!['$'] + expand_from(s, vars, i + 1),
        }
    } else {
        seq![s[i]] + expand_from(s, vars, i + 1)
    }
}

#[via_fn]
proof fn expand_from_dec(s: Seq<char>, vars: Seq<(Seq<char>, Seq<char>)>, i: int) {
    if 0 <= i < s.len() && s[i] == '$' && i + 1 < s.len() && s[i + 1] == '{' {
        lemma_find_from(s, '}', i + 2);
    }
}

/// Checks that `s` is a well-formed variable name.
fn check_var_name(s: &str) -> (r: bool)
    ensures
        r == var_name_ok(s@),
{
    let n = s.unicode_len();
    if n == 0 {
        return false;
    }
    let c0 = s.get_char(0);
    let u0 = c0 as u32;
    if !((97 <= u0 && u0 <= 122) || (65 <= u0 && u0 <= 90) || u0 == 95) {
        return false;
    }
    let mut k: usize = 1;
    while k < n
        invariant
            n == s@.len(),
            1 <= k <= n,
            name_start_char(s@[0]),
            forall|j: int| 1 <= j < k ==> name_char(#[trigger] s@[j]),
        decreases n - k,
    {
        let c = s.get_char(k);
        let u = c as u32;
        if !((97 <= u && u <= 122) || (65 <= u && u <= 90) || u == 95 || (48 <= u && u <= 57)) {
            assert(!name_char(s@[k as int]));
            return false;
        }
        k += 1;
    }
    true
}

/// Expands the suffix of `raw` starting at character `i`.
fn expand_str_from(raw: &str, vars: &Vec<(String, String)>, i: usize) -> (r: String)
    requires
        i <= raw@.len(),
    ensures
        r@ == expand_from(raw@, pairs_view(vars@), i as int),
    decreases raw@.len() - i,
{
    let n = raw.unicode_len();
    if i == n {
        return String::new();
    }
    let c = raw.get_char(i);
    if c == '$' && i + 1 < n && raw.get_char(i + 1) == '{' {
        match crate::strutil::find_char_from(raw, '}', i + 2) {
            Some(j) => {
                proof {
                    lemma_find_from(raw@, '}', i as int + 2);
                }
                let name = raw.substring_char(i + 2, j);
                if check_var_name(name) {
                    match crate::strutil::assoc_get(vars, name) {
                        Some(v) => {
                            let rest = expand_str_from(raw, vars, j + 1);
                            return v.clone().concat(rest.as_str());
                        },
                        None => {},
                    }
                }
                let rest = expand_str_from(raw, vars, i + 1);
                let head = raw.substring_char(i, i + 1);
                assert(head@ =~= seq!['$']);
                String::from_str(head).concat(rest.as_str())
            },
            None => {
                let rest = expand_str_from(raw, vars, i + 1);
                let head = raw.substring_char(i, i + 1);
                assert(head@ =~= seq!['$']);
                String::from_str(head).concat(rest.as_str())
            },
        }
    } else {
        let rest = expand_str_from(raw, vars, i + 1);
        let head = raw.substring_char(i, i + 1);
        assert(head@ =~= seq![raw@[i as int]]);
        String::from_str(head).concat(rest.as_str())
    }
}

impl Config {
    /// Expands every `${NAME}` placeholder in a raw configuration text from
    /// the given (name, value) bindings; placeholders without a binding are
    /// left as they stand.
    pub fn expand_var(raw_config: &str, vars: &Vec<(String, String)>) -> (r: String)
        ensures
            r@ == expand_from(raw_config@, pairs_view(vars@), 0),
    {
        expand_str_from(raw_config, vars, 0)
    }
}

} // verus!
