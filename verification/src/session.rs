//! Session and login plumbing: the typed session values, the login
//! decisions, and a verified parser that extracts one cookie's value from a
//! raw `Cookie` header.
//!
//! The header grammar handled here is the one the application relies on:
//! entries separated by `;`, each entry a `name=value` pair whose name and
//! value may carry surrounding ASCII spaces. An entry without `=` or with
//! an empty trimmed value never matches, and the first matching entry wins.

use vstd::prelude::*;

verus! {

/// A signed-in user's session as cached by the application.
#[derive(Debug)]
pub struct UserSession {
    pub username: String,
    pub level: u8,
}

/// A submitted login form.
#[derive(Debug)]
pub struct UserLoginForm {
    pub username: String,
    pub password: String,
}

/// The optional message a login page displays.
#[derive(Debug)]
pub struct LoginMessage {
    pub msg: Option<String>,
}

/// Whether a login form carries the credentials the cookie-login demo
/// accepts.
pub fn check_login(form: &UserLoginForm) -> (r: bool)
    ensures
        r == (form.username@ == "axum.rs"@ && form.password@ == "axum.rs"@),
{
    let expected = "axum.rs".to_string();
    form.username == expected && form.password == expected
}

/// Whether a login form carries the credentials the session demo accepts.
pub fn check_session_login(form: &UserLoginForm) -> (r: bool)
    ensures
        r == (form.username@ == "test"@ && form.password@ == "123123"@),
{
    let expected_name = "test".to_string();
    let expected_password = "123123".to_string();
    form.username == expected_name && form.password == expected_password
}

/// Decide a session login: accepted credentials yield the session to store
/// (the submitted username at the starting level), any others yield none,
/// and the caller redirects back to the login page.
pub fn session_login(form: UserLoginForm) -> (r: Option<UserSession>)
    ensures
        match r {
            Some(s) => {
                &&& form.username@ == "test"@
                &&& form.password@ == "123123"@
                &&& s.username@ == form.username@
                &&& s.level == 1
            },
            None => !(form.username@ == "test"@ && form.password@ == "123123"@),
        },
{
    if check_session_login(&form) {
        Some(UserSession { username: form.username, level: 1 })
    } else {
        None
    }
}

/// One step of the visit counter a cookie carries: past ten visits the
/// counter resets (`None`), otherwise it advances by one.
pub fn visit_step(visited: i32) -> (r: Option<i32>)
    ensures
        visited > 10 ==> r is None,
        visited <= 10 ==> r == Some((visited + 1) as i32),
{
    if visited > 10 {
        None
    } else {
        Some(visited + 1)
    }
}

/// The position of the first `b` in `s` within `[i, end)`, or `end` when
/// there is none.
pub open spec fn find_in(s: Seq<u8>, b: u8, i: int, end: int) -> int
    decreases end - i,
{
    if i >= end {
        end
    } else if s[i] == b {
        i
    } else {
        find_in(s, b, i + 1, end)
    }
}

/// The first position in `[i, end)` holding something other than an ASCII
/// space, or `end`.
pub open spec fn skip_spaces(s: Seq<u8>, i: int, end: int) -> int
    decreases end - i,
{
    if i >= end {
        end
    } else if s[i] == 32 {
        skip_spaces(s, i + 1, end)
    } else {
        i
    }
}

/// The position just past the last non-space in `[i, end)`, or `i`.
pub open spec fn rtrim_spaces(s: Seq<u8>, i: int, end: int) -> int
    decreases end - i,
{
    if end <= i {
        i
    } else if s[end - 1] == 32 {
        rtrim_spaces(s, i, end - 1)
    } else {
        end
    }
}

/// The value the cookie entry occupying `[i, end)` of `s` contributes for
/// `name`: the trimmed value when the entry splits at `=` into a trimmed
/// name equal to `name` and a non-empty trimmed value; nothing otherwise.
pub open spec fn entry_value(s: Seq<u8>, name: Seq<u8>, i: int, end: int) -> Option<Seq<u8>> {
    let k = find_in(s, 61, i, end);
    if k == end {
        None
    } else {
        let ns = skip_spaces(s, i, k);
        let ne = rtrim_spaces(s, ns, k);
        let vs = skip_spaces(s, k + 1, end);
        let ve = rtrim_spaces(s, vs, end);
        if s.subrange(ns, ne) == name && vs < ve {
            Some(s.subrange(vs, ve))
        } else {
            None
        }
    }
}

/// The value of the first entry matching `name` at or after position `i`.
pub open spec fn lookup_from(s: Seq<u8>, name: Seq<u8>, i: int) -> Option<Seq<u8>>
    recommends
        0 <= i <= s.len(),
    decreases s.len() - i,
{
    let end = find_in(s, 59, i, s.len() as int);
    match entry_value(s, name, i, end) {
        Some(v) => Some(v),
        None => if end >= s.len() || end < i {
            None
        } else {
            lookup_from(s, name, end + 1)
        },
    }
}

/// The value the whole `Cookie` header assigns to `name`, if any.
pub open spec fn cookie_lookup(s: Seq<u8>, name: Seq<u8>) -> Option<Seq<u8>> {
    lookup_from(s, name, 0)
}

fn find_byte(s: &[u8], b: u8, i: usize, end: usize) -> (r: usize)
    requires
        i <= end <= s@.len(),
    ensures
        r == find_in(s@, b, i as int, end as int),
        i <= r <= end,
        r < end ==> s@[r as int] == b,
    decreases end - i,
{
    if i >= end {
        end
    } else if s[i] == b {
        i
    } else {
        find_byte(s, b, i + 1, end)
    }
}

fn skip_spaces_exec(s: &[u8], i: usize, end: usize) -> (r: usize)
    requires
        i <= end <= s@.len(),
    ensures
        r == skip_spaces(s@, i as int, end as int),
        i <= r <= end,
    decreases end - i,
{
    if i >= end {
        end
    } else if s[i] == 32 {
        skip_spaces_exec(s, i + 1, end)
    } else {
        i
    }
}

fn rtrim_spaces_exec(s: &[u8], i: usize, end: usize) -> (r: usize)
    requires
        i <= end <= s@.len(),
    ensures
        r == rtrim_spaces(s@, i as int, end as int),
        i <= r <= end,
    decreases end - i,
{
    if end <= i {
        i
    } else if s[end - 1] == 32 {
        rtrim_spaces_exec(s, i, end - 1)
    } else {
        end
    }
}

fn range_eq(s: &[u8], i: usize, end: usize, name: &[u8]) -> (r: bool)
    requires
        i <= end <= s@.len(),
    ensures
        r == (s@.subrange(i as int, end as int) == name@),
{
    let n = name.len();
    if end - i != n {
        proof {
            assert(s@.subrange(i as int, end as int).len() != name@.len());
        }
        return false;
    }
    let mut j: usize = 0;
    while j < n
        invariant
            j <= n,
            i + n == end,
            end <= s@.len(),
            n == name@.len(),
            forall|m: int| 0 <= m < j ==> s@[i + m] == name@[m],
        decreases n - j,
    {
        if s[i + j] != name[j] {
            proof {
                assert(s@.subrange(i as int, end as int)[j as int] == s@[i + j]);
            }
            return false;
        }
        j += 1;
    }
    proof {
        assert(s@.subrange(i as int, end as int) =~= name@);
    }
    true
}

fn copy_range(s: &[u8], i: usize, end: usize) -> (v: Vec<u8>)
    requires
        i <= end <= s@.len(),
    ensures
        v@ == s@.subrange(i as int, end as int),
    decreases end - i,
{
    let mut v: Vec<u8> = Vec::new();
    let mut j: usize = i;
    while j < end
        invariant
            i <= j <= end <= s@.len(),
            v@.len() == j - i,
            forall|m: int| 0 <= m < v@.len() ==> v@[m] == s@[i + m],
        decreases end - j,
    {
        v.push(s[j]);
        j += 1;
    }
    proof {
        assert(v@ =~= s@.subrange(i as int, end as int));
    }
    v
}

fn cookie_value_from(header: &[u8], name: &[u8], i: usize) -> (r: Option<Vec<u8>>)
    requires
        i <= header@.len(),
    ensures
        match r {
            Some(v) => lookup_from(header@, name@, i as int) == Some(v@),
            None => lookup_from(header@, name@, i as int) is None,
        },
    decreases header@.len() - i,
{
    let len = header.len();
    let end = find_byte(header, 59, i, len);
    let k = find_byte(header, 61, i, end);
    if k < end {
        let ns = skip_spaces_exec(header, i, k);
        let ne = rtrim_spaces_exec(header, ns, k);
        let vs = skip_spaces_exec(header, k + 1, end);
        let ve = rtrim_spaces_exec(header, vs, end);
        if range_eq(header, ns, ne, name) && vs < ve {
            return Some(copy_range(header, vs, ve));
        }
    }
    if end >= len {
        None
    } else {
        cookie_value_from(header, name, end + 1)
    }
}

/// Extract the value the raw `Cookie` header assigns to `name`: the first
/// `name=value` entry whose trimmed name matches and whose trimmed value is
/// non-empty.
pub fn cookie_value(header: &[u8], name: &[u8]) -> (r: Option<Vec<u8>>)
    ensures
        match r {
            Some(v) => cookie_lookup(header@, name@) == Some(v@),
            None => cookie_lookup(header@, name@) is None,
        },
{
    cookie_value_from(header, name, 0)
}

} // verus!
