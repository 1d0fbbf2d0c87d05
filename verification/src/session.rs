//! Signing in to and out of the console and the admin pages: which keys
//! open a session, and the cookies that carry it.
//!
//! A session lasts a week (`Max-Age=604800`); the cookie is HTTP-only and
//! strictly same-site. Signing out clears it.

use vstd::prelude::*;
use crate::admin::validate_admin_key;
use crate::auth::AuthStore;
use crate::console::cookie_value_spec;
use crate::text::{is_ws, push_str, starts_with, to_owned_str, trim, trim_str};

verus! {

/// The `Set-Cookie` value that opens a session of cookie `name` with `key`.
pub open spec fn session_cookie_text(name: Seq<char>, key: Seq<char>) -> Seq<char> {
    name + "="@ + key + "; Path=/; HttpOnly; SameSite=Strict; Max-Age=604800"@
}

/// The `Set-Cookie` value that clears cookie `name`.
pub open spec fn cleared_cookie_text(name: Seq<char>) -> Seq<char> {
    name + "=; Path=/; HttpOnly; SameSite=Strict; Max-Age=0"@
}

/// The `Set-Cookie` value that opens a session.
pub fn session_cookie(name: &str, key: &str) -> (res: String)
    ensures
        res@ == session_cookie_text(name@, key@),
{
    let mut s = String::new();
    push_str(&mut s, name);
    push_str(&mut s, "=");
    push_str(&mut s, key);
    push_str(&mut s, "; Path=/; HttpOnly; SameSite=Strict; Max-Age=604800");
    proof {
        assert(s@ =~= session_cookie_text(name@, key@));
    }
    s
}

/// The `Set-Cookie` value that clears a session.
pub fn cleared_cookie(name: &str) -> (res: String)
    ensures
        res@ == cleared_cookie_text(name@),
{
    let mut s = String::new();
    push_str(&mut s, name);
    push_str(&mut s, "=; Path=/; HttpOnly; SameSite=Strict; Max-Age=0");
    proof {
        assert(s@ =~= cleared_cookie_text(name@));
    }
    s
}

/// The outcome of a sign-in form.
#[derive(Debug)]
pub enum LoginOutcome {
    /// The key was refused: the form is shown again with an error (401).
    Rejected,
    /// A session starts: the cookie to set, and where to go (303).
    Accepted { set_cookie: String, location: String },
}

/// Signs in to the console with the submitted API key (surrounding white
/// space ignored): a key of a registered user opens a `wg_session` session
/// and leads to the console.
pub fn console_login(auth: &AuthStore, submitted: &str) -> (res: LoginOutcome)
    ensures
        auth.user_for_key(trim(submitted@)) is None ==> res is Rejected,
        auth.user_for_key(trim(submitted@)) is Some ==> (res matches LoginOutcome::Accepted {
            set_cookie,
            location,
        } && set_cookie@ == session_cookie_text("wg_session"@, trim(submitted@)) && location@
            == "/console/"@),
{
    let key = trim_str(submitted);
    match auth.validate(key.as_str()) {
        None => LoginOutcome::Rejected,
        Some(_) => LoginOutcome::Accepted {
            set_cookie: session_cookie("wg_session", key.as_str()),
            location: to_owned_str("/console/"),
        },
    }
}

/// Signs in to the admin pages with the submitted key (surrounding white
/// space ignored): a key that `validate_admin_key` accepts opens a
/// `wg_admin_session` session and leads to the admin overview.
pub fn admin_login(
    configured: Option<&str>,
    auth: &AuthStore,
    submitted: &str,
    first_user_id: Option<&str>,
) -> (res: LoginOutcome)
    ensures
        ({
            let k = trim(submitted@);
            let ok = match configured {
                Some(c) => k == c@,
                None => match auth.user_for_key(k) {
                    Some(u) => first_user_id matches Some(f) && f@ == u.id,
                    None => false,
                },
            };
            &&& !ok ==> res is Rejected
            &&& ok ==> (res matches LoginOutcome::Accepted { set_cookie, location }
                && set_cookie@ == session_cookie_text("wg_admin_session"@, k) && location@
                == "/admin/"@)
        }),
{
    let key = trim_str(submitted);
    if validate_admin_key(configured, auth, key.as_str(), first_user_id) {
        LoginOutcome::Accepted {
            set_cookie: session_cookie("wg_admin_session", key.as_str()),
            location: to_owned_str("/admin/"),
        }
    } else {
        LoginOutcome::Rejected
    }
}

/// Signing out of the console: the cleared `wg_session` cookie, and the
/// login page to go to.
pub fn console_logout() -> (res: (String, String))
    ensures
        res.0@ == cleared_cookie_text("wg_session"@),
        res.1@ == "/console/login"@,
{
    (cleared_cookie("wg_session"), to_owned_str("/console/login"))
}

/// Signing out of the admin pages: the cleared `wg_admin_session` cookie,
/// and the admin login page to go to.
pub fn admin_logout() -> (res: (String, String))
    ensures
        res.0@ == cleared_cookie_text("wg_admin_session"@),
        res.1@ == "/admin/login"@,
{
    (cleared_cookie("wg_admin_session"), to_owned_str("/admin/login"))
}

/// A session opened at sign-in is recognised afterwards: when the browser
/// sends back the cookie `name=key` (a key without `;` and without
/// trailing white space, as a trimmed API key is), looking the cookie up
/// by its `name=` prefix gives the key again.
pub proof fn law_session_cookie_read_back(name: Seq<char>, key: Seq<char>)
    requires
        name.len() > 0,
        !is_ws(name[0]),
        !name.contains(';'),
        !key.contains(';'),
        key.len() > 0 ==> !is_ws(key.last()),
    ensures
        cookie_value_spec(name + "="@ + key, name + "="@) == Some(key),
{
    reveal_strlit("=");
    let p = name + "="@;
    let s = p + key;
    assert(!s.contains(';')) by {
        if s.contains(';') {
            let i = s.index_of(';');
            if i < name.len() {
                assert(name[i] == ';');
            } else if i == name.len() {
                assert(s[i] == '=');
            } else {
                assert(key[i - name.len() - 1] == ';');
            }
        }
    }
    assert(s[0] == name[0]);
    lemma_no_leading_ws(s);
    assert(trim(s) == s) by {
        if key.len() > 0 {
            assert(s.last() == key.last());
        } else {
            assert(s.last() == '=');
        }
    }
    assert(starts_with(s, p)) by {
        assert(s.subrange(0, p.len() as int) =~= p);
    }
    assert(s.skip(p.len() as int) =~= key);
}

/// A string that does not start with white space is its own leading trim.
proof fn lemma_no_leading_ws(s: Seq<char>)
    requires
        s.len() > 0,
        !is_ws(s[0]),
    ensures
        crate::text::trim_start(s) == s,
{
}

} // verus!
