//! URL arithmetic of the two pipelines: the trailing-slash retry of
//! discovery, resolution of relative calendar paths against the base
//! URL's origin, the destination collection base, and the per-event
//! upload target.

use vstd::prelude::*;

use crate::text::{has_prefix, has_suffix, str_has_prefix, str_has_suffix};

verus! {

/// `s` with its trailing slash toggled: appended when absent, removed
/// when present. Discovery retries a failed PROPFIND once against this.
pub open spec fn spec_toggle_slash(s: Seq<char>) -> Seq<char> {
    if s.len() > 0 && s.last() == '/' {
        s.drop_last()
    } else {
        s + "/"@
    }
}

/// Toggles the trailing slash of a URL.
pub fn toggle_trailing_slash(url: &str) -> (r: String)
    ensures
        r@ == spec_toggle_slash(url@),
{
    let len = url.unicode_len();
    if len > 0 && url.get_char(len - 1) == '/' {
        proof {
            assert(url@.subrange(0, url@.len() - 1) =~= url@.drop_last());
        }
        url.substring_char(0, len - 1).to_owned()
    } else {
        let mut r = url.to_owned();
        r.append("/");
        r
    }
}

/// `s` with every trailing slash removed.
pub open spec fn strip_trailing_slashes(s: Seq<char>) -> Seq<char>
    decreases s.len(),
{
    if s.len() > 0 && s.last() == '/' {
        strip_trailing_slashes(s.drop_last())
    } else {
        s
    }
}

/// The collection base of a destination: the CalDAV URL without its
/// trailing slashes, the collection name appended unless the URL already
/// ends with it, and a single trailing slash.
pub open spec fn spec_collection_base(url: Seq<char>, name: Seq<char>) -> Seq<char> {
    let n = strip_trailing_slashes(url);
    if has_suffix(n, name) {
        n + "/"@
    } else {
        n + "/"@ + name + "/"@
    }
}

/// Computes the collection base a destination's events are uploaded
/// under.
pub fn collection_base(caldav_url: &str, calendar_name: &str) -> (r: String)
    ensures
        r@ == spec_collection_base(caldav_url@, calendar_name@),
{
    let len = caldav_url.unicode_len();
    let mut b: usize = len;
    proof {
        assert(caldav_url@.subrange(0, len as int) =~= caldav_url@);
    }
    while b > 0 && caldav_url.get_char(b - 1) == '/'
        invariant
            b <= len,
            len == caldav_url@.len(),
            strip_trailing_slashes(caldav_url@) == strip_trailing_slashes(
                caldav_url@.subrange(0, b as int),
            ),
        decreases b,
    {
        proof {
            let t = caldav_url@.subrange(0, b as int);
            assert(t.last() == caldav_url@[b - 1]);
            assert(t.drop_last() =~= caldav_url@.subrange(0, b - 1));
        }
        b -= 1;
    }
    proof {
        let t = caldav_url@.subrange(0, b as int);
        if b > 0 {
            assert(t.last() == caldav_url@[b - 1]);
        }
        assert(strip_trailing_slashes(t) == t);
        assert(caldav_url@.subrange(0, len as int) =~= caldav_url@);
    }
    let normalized = caldav_url.substring_char(0, b);
    let mut r = normalized.to_owned();
    if str_has_suffix(normalized, calendar_name) {
        r.append("/");
    } else {
        r.append("/");
        r.append(calendar_name);
        r.append("/");
    }
    r
}

/// The upload target of one event: the collection base followed by the
/// event's UID and the `.ics` suffix.
pub open spec fn spec_event_put_url(base: Seq<char>, uid: Seq<char>) -> Seq<char> {
    base + uid + ".ics"@
}

/// Builds the URL one event is PUT to.
pub fn event_put_url(base: &str, uid: &str) -> (r: String)
    ensures
        r@ == spec_event_put_url(base@, uid@),
{
    let mut r = base.to_owned();
    r.append(uid);
    r.append(".ics");
    r
}

/// The position of the first `"://"` in `s` at or after `i`.
pub open spec fn find_scheme_sep(s: Seq<char>, i: int) -> Option<int>
    decreases s.len() - i,
{
    if i < 0 || i + 3 > s.len() {
        None
    } else if s.subrange(i, i + 3) == "://"@ {
        Some(i)
    } else {
        find_scheme_sep(s, i + 1)
    }
}

/// The position of the first `'/'` in `s` at or after `i`.
pub open spec fn find_slash(s: Seq<char>, i: int) -> Option<int>
    decreases s.len() - i,
{
    if i < 0 || i >= s.len() {
        None
    } else if s[i] == '/' {
        Some(i)
    } else {
        find_slash(s, i + 1)
    }
}

/// The origin of a URL: scheme, separator and authority, up to the first
/// slash of the path. `None` when the URL has no scheme separator.
pub open spec fn spec_origin(base: Seq<char>) -> Option<Seq<char>> {
    match find_scheme_sep(base, 0) {
        Option::None => Option::None,
        Option::Some(p) => match find_slash(base, p + 3) {
            Option::None => Option::Some(base),
            Option::Some(e) => Option::Some(base.subrange(0, e)),
        },
    }
}

/// Where a REPORT for one calendar path is sent: an absolute path is
/// used as it stands; a relative one is resolved against the base URL's
/// origin. `None` when the base URL has no scheme separator.
pub open spec fn spec_resolve_event_url(base: Seq<char>, path: Seq<char>) -> Option<Seq<char>> {
    if has_prefix(path, "http"@) {
        Option::Some(path)
    } else {
        match spec_origin(base) {
            Option::None => Option::None,
            Option::Some(o) => Option::Some(o + path),
        }
    }
}

fn find_scheme_sep_exec(s: &str) -> (r: Option<usize>)
    ensures
        match r {
            Option::Some(p) => find_scheme_sep(s@, 0) == Option::Some(p as int) && p + 3
                <= s@.len(),
            Option::None => find_scheme_sep(s@, 0) is None,
        },
{
    let len = s.unicode_len();
    if len < 3 {
        return None;
    }
    let mut i: usize = 0;
    while len - i >= 3
        invariant
            i <= len,
            len == s@.len(),
            find_scheme_sep(s@, 0) == find_scheme_sep(s@, i as int),
        decreases len - i,
    {
        let c0 = s.get_char(i);
        let c1 = s.get_char(i + 1);
        let c2 = s.get_char(i + 2);
        if c0 == ':' && c1 == '/' && c2 == '/' {
            proof {
                reveal_strlit("://");
                assert(s@.subrange(i as int, i + 3) =~= "://"@);
            }
            return Some(i);
        }
        proof {
            assert(s@.subrange(i as int, i + 3) != "://"@) by {
                reveal_strlit("://");
                if s@.subrange(i as int, i + 3) == "://"@ {
                    assert(s@.subrange(i as int, i + 3)[0] == ':');
                    assert(s@.subrange(i as int, i + 3)[1] == '/');
                    assert(s@.subrange(i as int, i + 3)[2] == '/');
                }
            }
        }
        i += 1;
    }
    None
}

fn find_slash_exec(s: &str, from: usize) -> (r: Option<usize>)
    requires
        from <= s@.len(),
    ensures
        match r {
            Option::Some(p) => find_slash(s@, from as int) == Option::Some(p as int) && p
                < s@.len(),
            Option::None => find_slash(s@, from as int) is None,
        },
{
    let len = s.unicode_len();
    let mut i: usize = from;
    while i < len
        invariant
            from <= i <= len,
            len == s@.len(),
            find_slash(s@, from as int) == find_slash(s@, i as int),
        decreases len - i,
    {
        if s.get_char(i) == '/' {
            return Some(i);
        }
        i += 1;
    }
    None
}

/// Resolves one calendar path against the base URL, borrowing the base's
/// origin for a relative path.
pub fn resolve_event_url(base: &str, path: &str) -> (r: Option<String>)
    ensures
        match r {
            Option::Some(u) => spec_resolve_event_url(base@, path@) == Option::Some(u@),
            Option::None => spec_resolve_event_url(base@, path@) is None,
        },
{
    if str_has_prefix(path, "http") {
        return Some(path.to_owned());
    }
    let base_len = base.unicode_len();
    match find_scheme_sep_exec(base) {
        None => None,
        Some(p) => {
            let end = match find_slash_exec(base, p + 3) {
                None => base_len,
                Some(e) => e,
            };
            proof {
                assert(base@.subrange(0, base@.len() as int) =~= base@);
            }
            let mut r = base.substring_char(0, end).to_owned();
            r.append(path);
            Some(r)
        },
    }
}

/// The URI a proxied request is forwarded to: the proxy URL followed by
/// the request's path and query.
pub fn proxy_target_uri(proxy_url: &str, path_query: &str) -> (r: String)
    ensures
        r@ == proxy_url@ + path_query@,
{
    let mut r = proxy_url.to_owned();
    r.append(path_query);
    r
}

/// The Host header of a proxied request: the host, with the port when
/// one is given.
pub fn host_header_value(host: &str, port: Option<u16>) -> (r: String)
    ensures
        match port {
            Option::Some(p) => r@ == host@ + ":"@ + crate::numeric::dec_str(p as nat),
            Option::None => r@ == host@,
        },
{
    let mut r = host.to_owned();
    match port {
        Some(p) => {
            r.append(":");
            let d = crate::numeric::u64_to_string(p as u64);
            r.append(d.as_str());
        },
        None => {},
    }
    r
}

} // verus!
