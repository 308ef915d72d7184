//! Catchers: the fixed body texts for responses that reach the client with
//! an error status and no body of their own.

use crate::message::HttpResponse;
use vstd::prelude::*;
use vstd::string::StringSliceAdditionalSpecFns;
use vstd::utf8::encode_utf8;

verus! {

/// The fixed body text a bodyless response of this status receives, if any.
pub open spec fn caught_body(status: u16) -> Option<Seq<char>> {
    if status == 400 {
        Some("400 - Bad request"@)
    } else if status == 404 {
        Some("404 - Not found"@)
    } else if status == 500 {
        Some("500 - Internal error"@)
    } else {
        None
    }
}

/// Fills a bodyless 400 response with its fixed text.
pub fn catch_bad_request(res: &mut HttpResponse) -> (handled: bool)
    ensures
        if old(res).status == 400 && old(res).body@.len() == 0 {
            handled && final(res).status == old(res).status && final(res).headers == old(res).headers && final(res).body@ == encode_utf8("400 - Bad request"@)
        } else {
            !handled && *final(res) == *old(res)
        },
{
    if res.status == 400 && res.body.len() == 0 {
        res.body = "400 - Bad request".as_bytes_vec();
        true
    } else {
        false
    }
}

/// Fills a bodyless 404 response with its fixed text.
pub fn catch_not_found(res: &mut HttpResponse) -> (handled: bool)
    ensures
        if old(res).status == 404 && old(res).body@.len() == 0 {
            handled && final(res).status == old(res).status && final(res).headers == old(res).headers && final(res).body@ == encode_utf8("404 - Not found"@)
        } else {
            !handled && *final(res) == *old(res)
        },
{
    if res.status == 404 && res.body.len() == 0 {
        res.body = "404 - Not found".as_bytes_vec();
        true
    } else {
        false
    }
}

/// Fills a bodyless 500 response with its fixed text.
pub fn catch_internal_error(res: &mut HttpResponse) -> (handled: bool)
    ensures
        if old(res).status == 500 && old(res).body@.len() == 0 {
            handled && final(res).status == old(res).status && final(res).headers == old(res).headers && final(res).body@ == encode_utf8("500 - Internal error"@)
        } else {
            !handled && *final(res) == *old(res)
        },
{
    if res.status == 500 && res.body.len() == 0 {
        res.body = "500 - Internal error".as_bytes_vec();
        true
    } else {
        false
    }
}

/// Applies the catchers in order: a bodyless response with status 400, 404
/// or 500 receives its fixed body text; every other response is untouched.
pub fn catchers(res: &mut HttpResponse) -> (handled: bool)
    ensures
        match caught_body(old(res).status) {
            Some(text) => if old(res).body@.len() == 0 {
                handled && final(res).status == old(res).status && final(res).headers == old(res).headers && final(res).body@ == encode_utf8(text)
            } else {
                !handled && *final(res) == *old(res)
            },
            None => !handled && *final(res) == *old(res),
        },
{
    if catch_bad_request(res) {
        return true;
    }
    if catch_not_found(res) {
        return true;
    }
    catch_internal_error(res)
}

} // verus!
