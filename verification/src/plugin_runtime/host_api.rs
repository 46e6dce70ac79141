//! The host API's rules: which paths a plugin may touch, which request method
//! a call names, and which environment variables a plugin may read.
//!
//! Paths are read by the rules of the platform: `/` separates components, and
//! on Windows `\` too; a leading separator makes a path rooted, and on Windows
//! a drive such as `C:` is a prefix. Joining a rooted or prefixed path onto
//! another gives that path.

use vstd::prelude::*;

use crate::text::{copy_opt, opt_view, str_eq};

verus! {

/// A path separator: `/`, and on Windows also `\`.
pub open spec fn is_separator(c: char, windows: bool) -> bool {
    c == '/' || (windows && c == '\\')
}

/// The separator that joining puts between two paths.
pub open spec fn main_separator(windows: bool) -> char {
    if windows {
        '\\'
    } else {
        '/'
    }
}

pub open spec fn is_ascii_letter(c: char) -> bool {
    ('a' <= c && c <= 'z') || ('A' <= c && c <= 'Z')
}

/// `p` starts with a separator (a root, or on Windows also a UNC or device
/// prefix).
pub open spec fn has_root(p: Seq<char>, windows: bool) -> bool {
    p.len() > 0 && is_separator(p[0], windows)
}

/// On Windows, `p` starts with a drive prefix such as `C:`.
pub open spec fn has_drive_prefix(p: Seq<char>, windows: bool) -> bool {
    windows && p.len() >= 2 && is_ascii_letter(p[0]) && p[1] == ':'
}

/// `p` has a root or a prefix component.
pub open spec fn is_absolute(p: Seq<char>, windows: bool) -> bool {
    has_root(p, windows) || has_drive_prefix(p, windows)
}

/// `p` starts with the character `/`.
pub open spec fn begins_with_slash(p: Seq<char>) -> bool {
    p.len() > 0 && p[0] == '/'
}

/// A `..` component starts at position `i` of `p`.
pub open spec fn parent_component_at(p: Seq<char>, i: int, windows: bool) -> bool {
    &&& 0 <= i
    &&& i + 2 <= p.len()
    &&& p[i] == '.'
    &&& p[i + 1] == '.'
    &&& (i == 0 || is_separator(p[i - 1], windows))
    &&& (i + 2 == p.len() || is_separator(p[i + 2], windows))
}

pub open spec fn has_parent_component(p: Seq<char>, windows: bool) -> bool {
    exists|i: int| #[trigger] parent_component_at(p, i, windows)
}

/// A relative path that cannot climb out of the directory it is joined to: no
/// root, no prefix, no `..` component.
pub open spec fn is_contained(p: Seq<char>, windows: bool) -> bool {
    !is_absolute(p, windows) && !has_parent_component(p, windows)
}

/// `rel` appended to `base` as a path: a `rel` with a root or a prefix replaces
/// `base`, else a separator is put between them where `base` is non-empty and
/// does not end in one.
pub open spec fn joined(base: Seq<char>, rel: Seq<char>, windows: bool) -> Seq<char> {
    if is_absolute(rel, windows) {
        rel
    } else if base.len() > 0 && !is_separator(base.last(), windows) {
        base + seq![main_separator(windows)] + rel
    } else {
        base + rel
    }
}

/// A path that `sanitize_path` keeps, joined to a directory, lies inside it:
/// the directory, a separator where one is needed, then a relative path
/// without root, prefix or `..` components.
pub proof fn lemma_contained_paths_stay_inside(dir: Seq<char>, path: Seq<char>, windows: bool)
    requires
        is_contained(path, windows),
    ensures
        joined(dir, path, windows) == dir + path || joined(dir, path, windows) == dir + seq![
            main_separator(windows),
        ] + path,
        !is_absolute(path, windows),
        !has_parent_component(path, windows),
{
}

/// `p` starts with `~/`.
pub open spec fn is_home_relative(p: Seq<char>) -> bool {
    p.len() >= 2 && p[0] == '~' && p[1] == '/'
}

/// Where `readText` and `exists` look: `~/x` under the home directory (nowhere
/// if it is unknown), a path starting with `/` as it is, a contained relative
/// path under the data directory, and nowhere else.
pub open spec fn spec_resolve_path(
    path: Seq<char>,
    data_dir: Seq<char>,
    home: Option<Seq<char>>,
    windows: bool,
) -> Option<Seq<char>> {
    if is_home_relative(path) {
        match home {
            Some(h) => Some(joined(h, path.skip(2), windows)),
            None => None,
        }
    } else if begins_with_slash(path) {
        Some(path)
    } else if is_contained(path, windows) {
        Some(joined(data_dir, path, windows))
    } else {
        None
    }
}

/// The database a sqlite call opens: the plugin's own for `""`, `~/x` under the
/// home directory (an unknown home reads as `""`), any other path as it is.
pub open spec fn spec_resolve_db_path(
    db_path: Seq<char>,
    default_db: Seq<char>,
    home: Option<Seq<char>>,
    windows: bool,
) -> Seq<char> {
    if db_path.len() == 0 {
        default_db
    } else if is_home_relative(db_path) {
        joined(
            match home {
                Some(h) => h,
                None => Seq::empty(),
            },
            db_path.skip(2),
            windows,
        )
    } else {
        db_path
    }
}

/// `p` holds a `:` (a drive on Windows).
pub open spec fn has_colon(p: Seq<char>) -> bool {
    exists|i: int| 0 <= i < p.len() && p[i] == ':'
}

/// The directory that `ls` lists: the data directory when none is named, a
/// path starting with `/` (on Windows also one with a `:`) as it is, else the
/// path under the data directory.
pub open spec fn spec_ls_target(path: Option<Seq<char>>, data_dir: Seq<char>, windows: bool) -> Seq<
    char,
> {
    match path {
        Some(p) => if begins_with_slash(p) || (windows && has_colon(p)) {
            p
        } else {
            joined(data_dir, p, windows)
        },
        None => data_dir,
    }
}

fn separator_char(c: char, windows: bool) -> (r: bool)
    ensures
        r == is_separator(c, windows),
{
    c == '/' || (windows && c == '\\')
}

/// Whether `p` starts with `/`.
pub fn starts_with_slash(p: &str) -> (r: bool)
    ensures
        r == begins_with_slash(p@),
{
    p.unicode_len() > 0 && p.get_char(0) == '/'
}

/// Whether `p` has a root or a prefix component.
pub fn absolute_path(p: &str, windows: bool) -> (r: bool)
    ensures
        r == is_absolute(p@, windows),
{
    let n = p.unicode_len();
    if n > 0 && separator_char(p.get_char(0), windows) {
        return true;
    }
    if windows && n >= 2 {
        let c = p.get_char(0);
        return (('a' <= c && c <= 'z') || ('A' <= c && c <= 'Z')) && p.get_char(1) == ':';
    }
    false
}

fn starts_with_home(p: &str) -> (r: bool)
    ensures
        r == is_home_relative(p@),
{
    p.unicode_len() >= 2 && p.get_char(0) == '~' && p.get_char(1) == '/'
}

/// Keeps a path only where it has no root, no prefix and no `..` component, so
/// that it stays inside the directory it is joined to. On Windows `\` separates
/// components too, and a drive such as `C:` is a prefix.
pub fn sanitize_path(path: &str, windows: bool) -> (r: Option<String>)
    ensures
        match r {
            Some(s) => is_contained(path@, windows) && s@ == path@,
            None => !is_contained(path@, windows),
        },
{
    let ghost p = path@;
    let n = path.unicode_len();
    if absolute_path(path, windows) {
        return None;
    }
    let mut i: usize = 0;
    while i < n
        invariant
            p == path@,
            n == p.len(),
            i <= n,
            forall|j: int| 0 <= j < i ==> !#[trigger] parent_component_at(p, j, windows),
        decreases n - i,
    {
        if i + 1 < n && path.get_char(i) == '.' && path.get_char(i + 1) == '.' && (i == 0
            || separator_char(path.get_char(i - 1), windows)) && (i + 2 == n || separator_char(
            path.get_char(i + 2),
            windows,
        )) {
            assert(parent_component_at(p, i as int, windows));
            return None;
        }
        i = i + 1;
    }
    assert forall|j: int| !#[trigger] parent_component_at(p, j, windows) by {
        if 0 <= j < n {
        }
    }
    Some(String::from_str(path))
}

/// `rel` appended to `base` as a path.
pub fn join_path(base: &str, rel: &str, windows: bool) -> (r: String)
    ensures
        r@ == joined(base@, rel@, windows),
{
    if absolute_path(rel, windows) {
        return String::from_str(rel);
    }
    let mut r = String::from_str(base);
    let n = base.unicode_len();
    if n > 0 && !separator_char(base.get_char(n - 1), windows) {
        if windows {
            proof {
                reveal_strlit("\\");
            }
            r.append("\\");
        } else {
            proof {
                reveal_strlit("/");
            }
            r.append("/");
        }
    }
    r.append(rel);
    r
}

/// The rest of a `~/` path after the `~/`.
fn after_home(p: &str) -> (r: &str)
    requires
        is_home_relative(p@),
    ensures
        r@ == p@.skip(2),
{
    let n = p.unicode_len();
    let r = p.substring_char(2, n);
    assert(r@ =~= p@.skip(2));
    r
}

pub open spec fn opt_str_view(o: Option<&str>) -> Option<Seq<char>> {
    match o {
        Some(h) => Some(h@),
        None => None,
    }
}

/// Where `readText` and `exists` look (see `spec_resolve_path`).
pub fn resolve_path(path: &str, data_dir: &str, home: Option<&str>, windows: bool) -> (r: Option<
    String,
>)
    ensures
        match r {
            Some(s) => spec_resolve_path(path@, data_dir@, opt_str_view(home), windows) == Some(s@),
            None => spec_resolve_path(path@, data_dir@, opt_str_view(home), windows) is None,
        },
{
    if starts_with_home(path) {
        match home {
            Some(h) => Some(join_path(h, after_home(path), windows)),
            None => None,
        }
    } else if starts_with_slash(path) {
        Some(String::from_str(path))
    } else {
        match sanitize_path(path, windows) {
            Some(rel) => Some(join_path(data_dir, rel.as_str(), windows)),
            None => None,
        }
    }
}

/// The database a sqlite call opens (see `spec_resolve_db_path`).
pub fn resolve_db_path(db_path: &str, default_db: &str, home: Option<&str>, windows: bool) -> (r:
    String)
    ensures
        r@ == spec_resolve_db_path(db_path@, default_db@, opt_str_view(home), windows),
{
    if db_path.unicode_len() == 0 {
        String::from_str(default_db)
    } else if starts_with_home(db_path) {
        let base = match home {
            Some(h) => h,
            None => "",
        };
        proof {
            reveal_strlit("");
        }
        join_path(base, after_home(db_path), windows)
    } else {
        String::from_str(db_path)
    }
}

fn contains_colon(p: &str) -> (r: bool)
    ensures
        r == has_colon(p@),
{
    let n = p.unicode_len();
    let mut i: usize = 0;
    while i < n
        invariant
            n == p@.len(),
            i <= n,
            forall|j: int| 0 <= j < i ==> p@[j] != ':',
        decreases n - i,
    {
        if p.get_char(i) == ':' {
            return true;
        }
        i = i + 1;
    }
    false
}

/// The directory that `ls` lists (see `spec_ls_target`).
pub fn ls_target(path: Option<&str>, data_dir: &str, windows: bool) -> (r: String)
    ensures
        r@ == spec_ls_target(opt_str_view(path), data_dir@, windows),
{
    match path {
        Some(p) => if starts_with_slash(p) || (windows && contains_colon(p)) {
            String::from_str(p)
        } else {
            join_path(data_dir, p, windows)
        },
        None => String::from_str(data_dir),
    }
}

/// A plugin's data directory: `data` under its directory.
pub fn plugin_data_dir(plugin_dir: &str, windows: bool) -> (r: String)
    ensures
        r@ == joined(plugin_dir@, "data"@, windows),
{
    join_path(plugin_dir, "data", windows)
}

/// A plugin's own database: `plugin.db` in its data directory.
pub fn plugin_db_path(plugin_dir: &str, windows: bool) -> (r: String)
    ensures
        r@ == joined(joined(plugin_dir@, "data"@, windows), "plugin.db"@, windows),
{
    let data = plugin_data_dir(plugin_dir, windows);
    join_path(data.as_str(), "plugin.db", windows)
}

/// A request method.
#[derive(Debug, Clone, Copy, PartialEq, Eq, Structural)]
pub enum HttpMethod {
    Get,
    Post,
    Put,
    Delete,
    Patch,
}

/// The upper-case form of a string, as `str::to_uppercase` gives it.
pub uninterp spec fn upper_case(s: Seq<char>) -> Seq<char>;

/// Calls `str::to_uppercase`; its result is named `upper_case` of the argument.
#[verifier::external_body]
fn to_upper(s: &str) -> (r: String)
    ensures
        r@ == upper_case(s@),
{
    s.to_uppercase()
}

/// The method an upper-case method name selects; names other than POST, PUT,
/// DELETE and PATCH select GET.
pub open spec fn method_for(upper: Seq<char>) -> HttpMethod {
    if upper == "POST"@ {
        HttpMethod::Post
    } else if upper == "PUT"@ {
        HttpMethod::Put
    } else if upper == "DELETE"@ {
        HttpMethod::Delete
    } else if upper == "PATCH"@ {
        HttpMethod::Patch
    } else {
        HttpMethod::Get
    }
}

/// The method an upper-case method name selects.
pub fn method_from_upper(upper: &str) -> (r: HttpMethod)
    ensures
        r == method_for(upper@),
{
    if str_eq(upper, "POST") {
        HttpMethod::Post
    } else if str_eq(upper, "PUT") {
        HttpMethod::Put
    } else if str_eq(upper, "DELETE") {
        HttpMethod::Delete
    } else if str_eq(upper, "PATCH") {
        HttpMethod::Patch
    } else {
        HttpMethod::Get
    }
}

/// The method that a plugin's request names, in any case.
pub fn request_method(method: &str) -> (r: HttpMethod)
    ensures
        r == method_for(upper_case(method@)),
{
    let upper = to_upper(method);
    method_from_upper(upper.as_str())
}

/// A response is `ok` when its status is 2xx.
pub fn is_success_status(status: u16) -> (r: bool)
    ensures
        r == (200 <= status < 300),
{
    200 <= status && status < 300
}

/// The members of a JSON object text, in the order of serde_json's map, each
/// with its value where that is a string; `None` where the text is not a JSON
/// object.
pub uninterp spec fn json_object_members(text: Seq<char>) -> Option<
    Seq<(Seq<char>, Option<Seq<char>>)>,
>;

/// The characters of a list of members.
pub open spec fn members_view(v: Seq<(String, Option<String>)>) -> Seq<
    (Seq<char>, Option<Seq<char>>),
> {
    v.map_values(|m: (String, Option<String>)| (m.0@, opt_view(m.1)))
}

/// Calls `serde_json::from_str` into a `serde_json::Map`; its members, each with
/// its value where that is a string, are named `json_object_members` of the
/// text.
#[verifier::external_body]
fn parse_object_members(text: &str) -> (r: Option<Vec<(String, Option<String>)>>)
    ensures
        match r {
            Some(v) => json_object_members(text@) == Some(members_view(v@)),
            None => json_object_members(text@) is None,
        },
{
    serde_json::from_str::<serde_json::Map<String, serde_json::Value>>(text).ok().map(
        |m| {
            m.into_iter().map(|(k, v)| match v {
                serde_json::Value::String(s) => (k, Some(s)),
                _ => (k, None),
            }).collect()
        },
    )
}

/// A token character of an HTTP header name.
pub open spec fn is_token_char(c: char) -> bool {
    is_ascii_letter(c) || ('0' <= c && c <= '9') || c == '!' || c == '#' || c == '$' || c == '%'
        || c == '&' || c == '\'' || c == '*' || c == '+' || c == '-' || c == '.' || c == '^' || c
        == '_' || c == '`' || c == '|' || c == '~'
}

/// An HTTP header name: 1 to 65535 token characters.
pub open spec fn valid_header_name(s: Seq<char>) -> bool {
    1 <= s.len() <= 65535 && forall|i: int| 0 <= i < s.len() ==> is_token_char(#[trigger] s[i])
}

/// An HTTP header value: no control character but the tab, and no DEL.
pub open spec fn valid_header_value(s: Seq<char>) -> bool {
    forall|i: int|
        0 <= i < s.len() ==> ((' ' <= #[trigger] s[i] && s[i] != '\x7f') || s[i] == '\t')
}

/// Calls `reqwest::header::HeaderName::from_bytes` on the name's bytes: it
/// accepts 1 to 65535 bytes, each a token character.
#[verifier::external_body]
fn header_name_accepted(name: &str) -> (r: bool)
    ensures
        r == valid_header_name(name@),
{
    reqwest::header::HeaderName::from_bytes(name.as_bytes()).is_ok()
}

/// Calls `reqwest::header::HeaderValue::from_str`: it accepts bytes from 32 up
/// but 127, and the tab.
#[verifier::external_body]
fn header_value_accepted(value: &str) -> (r: bool)
    ensures
        r == valid_header_value(value@),
{
    reqwest::header::HeaderValue::from_str(value).is_ok()
}

/// A header that a request carries: its value is a string, and the name and
/// value are valid.
pub open spec fn kept_header(m: (Seq<char>, Option<Seq<char>>)) -> bool {
    m.1 is Some && valid_header_name(m.0) && valid_header_value(m.1->0)
}

/// The headers of a request, in order, from the members of the headers object.
pub open spec fn spec_request_headers(members: Seq<(Seq<char>, Option<Seq<char>>)>) -> Seq<
    (Seq<char>, Seq<char>),
>
    decreases members.len(),
{
    if members.len() == 0 {
        Seq::empty()
    } else {
        spec_request_headers(members.drop_last()) + if kept_header(members.last()) {
            seq![(members.last().0, members.last().1->0)]
        } else {
            Seq::empty()
        }
    }
}

/// The characters of a list of headers.
pub open spec fn pairs_view(v: Seq<(String, String)>) -> Seq<(Seq<char>, Seq<char>)> {
    v.map_values(|p: (String, String)| (p.0@, p.1@))
}

/// The headers of a request from the members of its headers object.
pub fn header_pairs(members: &Vec<(String, Option<String>)>) -> (r: Vec<(String, String)>)
    ensures
        pairs_view(r@) == spec_request_headers(members_view(members@)),
{
    let mut r: Vec<(String, String)> = Vec::new();
    let n = members.len();
    let mut i: usize = 0;
    while i < n
        invariant
            n == members@.len(),
            i <= n,
            pairs_view(r@) == spec_request_headers(members_view(members@.take(i as int))),
        decreases n - i,
    {
        let ghost before = pairs_view(r@);
        let ghost mv = members_view(members@.take(i + 1));
        proof {
            assert(members@.take(i + 1).drop_last() =~= members@.take(i as int));
            assert(mv.drop_last() =~= members_view(members@.take(i as int)));
            assert(mv.last() == (members@[i as int].0@, opt_view(members@[i as int].1)));
        }
        let (name, value) = &members[i];
        match value {
            Some(v) => {
                if header_name_accepted(name.as_str()) && header_value_accepted(v.as_str()) {
                    r.push((name.clone(), v.clone()));
                    assert(pairs_view(r@) =~= before + seq![(name@, v@)]);
                } else {
                    assert(pairs_view(r@) =~= before + Seq::<(Seq<char>, Seq<char>)>::empty());
                }
            },
            None => {
                assert(pairs_view(r@) =~= before + Seq::<(Seq<char>, Seq<char>)>::empty());
            },
        }
        i = i + 1;
    }
    assert(members@.take(n as int) =~= members@);
    r
}

/// The headers of a request from the JSON text a plugin gave: the members of
/// the object, in order, whose value is a string and that make a valid header;
/// none where the text is not a JSON object.
pub fn request_headers(headers_json: &str) -> (r: Vec<(String, String)>)
    ensures
        pairs_view(r@) == match json_object_members(headers_json@) {
            Some(m) => spec_request_headers(m),
            None => Seq::empty(),
        },
{
    match parse_object_members(headers_json) {
        Some(members) => header_pairs(&members),
        None => Vec::new(),
    }
}

/// What a request answers a plugin.
#[derive(Debug, Clone)]
pub struct HttpResponse {
    pub ok: bool,
    pub status: u16,
    pub headers: Vec<(String, String)>,
    pub body: String,
    pub error: Option<String>,
}

/// The answer to a request: `ok` for a 2xx status, with status, headers and
/// body passed through; where sending failed, not `ok`, status 0, no headers,
/// an empty body and the error's text.
pub fn http_response(outcome: Result<(u16, Vec<(String, String)>, String), String>) -> (r:
    HttpResponse)
    ensures
        match outcome {
            Ok((s, h, b)) => r.ok == (200 <= s < 300) && r.status == s && r.headers@ == h@
                && r.body@ == b@ && r.error is None,
            Err(e) => !r.ok && r.status == 0 && r.headers@.len() == 0 && r.body@.len() == 0
                && opt_view(r.error) == Some(e@),
        },
{
    match outcome {
        Ok((status, headers, body)) => HttpResponse {
            ok: is_success_status(status),
            status,
            headers,
            body,
            error: None,
        },
        Err(e) => HttpResponse {
            ok: false,
            status: 0,
            headers: Vec::new(),
            body: String::new(),
            error: Some(e),
        },
    }
}

/// The string value of the first member named `key`.
pub open spec fn string_member(members: Seq<(Seq<char>, Option<Seq<char>>)>, key: Seq<char>) -> Option<
    Seq<char>,
>
    decreases members.len(),
{
    if members.len() == 0 {
        None
    } else if members[0].0 == key {
        members[0].1
    } else {
        string_member(members.drop_first(), key)
    }
}

/// The string value of the member `key` of an options JSON object, if any.
pub open spec fn option_member(options: Option<Seq<char>>, key: Seq<char>) -> Option<Seq<char>> {
    match options {
        Some(t) => match json_object_members(t) {
            Some(m) => string_member(m, key),
            None => None,
        },
        None => None,
    }
}

/// The string value of the first member named `key`.
pub fn member_string(members: &Vec<(String, Option<String>)>, key: &str) -> (r: Option<String>)
    ensures
        opt_view(r) == string_member(members_view(members@), key@),
{
    let n = members.len();
    let mut i: usize = 0;
    assert(members_view(members@).skip(0) =~= members_view(members@));
    while i < n
        invariant
            n == members@.len(),
            i <= n,
            string_member(members_view(members@), key@) == string_member(
                members_view(members@).skip(i as int),
                key@,
            ),
        decreases n - i,
    {
        let ghost rest = members_view(members@).skip(i as int);
        assert(rest[0] == (members@[i as int].0@, opt_view(members@[i as int].1)));
        assert(rest.drop_first() =~= members_view(members@).skip(i + 1));
        if str_eq(members[i].0.as_str(), key) {
            return copy_opt(&members[i].1);
        }
        i = i + 1;
    }
    assert(members_view(members@).skip(n as int).len() == 0);
    None
}

/// The arguments of a `ccusage` call: `--json`, then `--since` and `--until`
/// with the dates the plugin gave.
pub open spec fn spec_ccusage_args(since: Option<Seq<char>>, until: Option<Seq<char>>) -> Seq<
    Seq<char>,
> {
    seq!["--json"@] + match since {
        Some(s) => seq!["--since"@, s],
        None => Seq::empty(),
    } + match until {
        Some(u) => seq!["--until"@, u],
        None => Seq::empty(),
    }
}

/// The arguments of a `ccusage` call (see `spec_ccusage_args`).
pub fn ccusage_args(since: Option<String>, until: Option<String>) -> (r: Vec<String>)
    ensures
        r@.map_values(|a: String| a@) == spec_ccusage_args(
            crate::text::opt_view(since),
            crate::text::opt_view(until),
        ),
{
    let mut r: Vec<String> = Vec::new();
    r.push(String::from_str("--json"));
    let ghost sv = crate::text::opt_view(since);
    let ghost uv = crate::text::opt_view(until);
    if let Some(s) = since {
        r.push(String::from_str("--since"));
        r.push(s);
    }
    assert(r@.map_values(|a: String| a@) =~= seq!["--json"@] + match sv {
        Some(s) => seq!["--since"@, s],
        None => Seq::empty(),
    });
    let ghost before = r@.map_values(|a: String| a@);
    if let Some(u) = until {
        r.push(String::from_str("--until"));
        r.push(u);
    }
    assert(r@.map_values(|a: String| a@) =~= before + match uv {
        Some(u) => seq!["--until"@, u],
        None => Seq::empty(),
    });
    r
}

/// The arguments of a `ccusage` call for the options JSON a plugin gave: its
/// string members `since` and `until`.
pub fn ccusage_command_args(options: Option<&str>) -> (r: Vec<String>)
    ensures
        r@.map_values(|a: String| a@) == spec_ccusage_args(
            option_member(opt_str_view(options), "since"@),
            option_member(opt_str_view(options), "until"@),
        ),
{
    let members = match options {
        Some(t) => parse_object_members(t),
        None => None,
    };
    match members {
        Some(m) => ccusage_args(member_string(&m, "since"), member_string(&m, "until")),
        None => ccusage_args(None, None),
    }
}

/// The environment variables that plugins may read.
pub open spec fn allowed_env_vars() -> Seq<Seq<char>> {
    seq![
        "HOME"@,
        "USER"@,
        "USERNAME"@,
        "USERPROFILE"@,
        "PATH"@,
        "SHELL"@,
        "XDG_CONFIG_HOME"@,
        "XDG_DATA_HOME"@,
        "ANTHROPIC_API_KEY"@,
        "OPENAI_API_KEY"@,
        "GEMINI_API_KEY"@,
        "GOOGLE_API_KEY"@,
        "GROQ_API_KEY"@,
        "MINIMAX_API_KEY"@,
        "MINIMAX_CN_API_KEY"@,
        "MINIMAX_CN_SECRET"@,
        "CURSOR_API_KEY"@,
    ]
}

/// Whether a plugin may read the environment variable `name`.
pub fn is_allowed_env_var(name: &str) -> (r: bool)
    ensures
        r == allowed_env_vars().contains(name@),
{
    let names: Vec<&str> = vec![
        "HOME",
        "USER",
        "USERNAME",
        "USERPROFILE",
        "PATH",
        "SHELL",
        "XDG_CONFIG_HOME",
        "XDG_DATA_HOME",
        "ANTHROPIC_API_KEY",
        "OPENAI_API_KEY",
        "GEMINI_API_KEY",
        "GOOGLE_API_KEY",
        "GROQ_API_KEY",
        "MINIMAX_API_KEY",
        "MINIMAX_CN_API_KEY",
        "MINIMAX_CN_SECRET",
        "CURSOR_API_KEY",
    ];
    let ghost allowed = allowed_env_vars();
    assert(names@.len() == allowed.len());
    assert forall|j: int| 0 <= j < allowed.len() implies #[trigger] names@[j]@ == allowed[j] by {}
    let mut i: usize = 0;
    while i < names.len()
        invariant
            allowed == allowed_env_vars(),
            names@.len() == allowed.len(),
            forall|j: int| 0 <= j < allowed.len() ==> #[trigger] names@[j]@ == allowed[j],
            i <= names@.len(),
            forall|j: int| 0 <= j < i ==> allowed[j] != name@,
        decreases names@.len() - i,
    {
        if str_eq(names[i], name) {
            assert(allowed[i as int] == name@);
            assert(allowed.contains(name@));
            return true;
        }
        i = i + 1;
    }
    false
}

/// Plugins may read each of these variables: the home directory, user name
/// and profile, `PATH`, the shell, the XDG config and data directories, and
/// the API keys of Anthropic, OpenAI, Gemini, Google, Groq, MiniMax (global
/// and China, key and secret) and Cursor.
pub proof fn lemma_whitelisted_env_vars()
    ensures
        allowed_env_vars().contains("HOME"@),
        allowed_env_vars().contains("USER"@),
        allowed_env_vars().contains("USERNAME"@),
        allowed_env_vars().contains("USERPROFILE"@),
        allowed_env_vars().contains("PATH"@),
        allowed_env_vars().contains("SHELL"@),
        allowed_env_vars().contains("XDG_CONFIG_HOME"@),
        allowed_env_vars().contains("XDG_DATA_HOME"@),
        allowed_env_vars().contains("ANTHROPIC_API_KEY"@),
        allowed_env_vars().contains("OPENAI_API_KEY"@),
        allowed_env_vars().contains("GEMINI_API_KEY"@),
        allowed_env_vars().contains("GOOGLE_API_KEY"@),
        allowed_env_vars().contains("GROQ_API_KEY"@),
        allowed_env_vars().contains("MINIMAX_API_KEY"@),
        allowed_env_vars().contains("MINIMAX_CN_API_KEY"@),
        allowed_env_vars().contains("MINIMAX_CN_SECRET"@),
        allowed_env_vars().contains("CURSOR_API_KEY"@),
{
    assert(allowed_env_vars()[0] == "HOME"@);
    assert(allowed_env_vars()[1] == "USER"@);
    assert(allowed_env_vars()[2] == "USERNAME"@);
    assert(allowed_env_vars()[3] == "USERPROFILE"@);
    assert(allowed_env_vars()[4] == "PATH"@);
    assert(allowed_env_vars()[5] == "SHELL"@);
    assert(allowed_env_vars()[6] == "XDG_CONFIG_HOME"@);
    assert(allowed_env_vars()[7] == "XDG_DATA_HOME"@);
    assert(allowed_env_vars()[8] == "ANTHROPIC_API_KEY"@);
    assert(allowed_env_vars()[9] == "OPENAI_API_KEY"@);
    assert(allowed_env_vars()[10] == "GEMINI_API_KEY"@);
    assert(allowed_env_vars()[11] == "GOOGLE_API_KEY"@);
    assert(allowed_env_vars()[12] == "GROQ_API_KEY"@);
    assert(allowed_env_vars()[13] == "MINIMAX_API_KEY"@);
    assert(allowed_env_vars()[14] == "MINIMAX_CN_API_KEY"@);
    assert(allowed_env_vars()[15] == "MINIMAX_CN_SECRET"@);
    assert(allowed_env_vars()[16] == "CURSOR_API_KEY"@);
}

} // verus!
