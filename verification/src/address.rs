//! Join-target validation and normalization, and self-join detection.
//!
//! A join target is what a user or a discovery event supplies to dial a peer.
//! Normalization yields `host:port` with an explicit port in 1..=65535 and no
//! scheme, path, query or fragment; the self-join guard keeps an instance from
//! dialing its own listening endpoint.

use vstd::prelude::*;
use vstd::string::StrSliceExecFns;
use vstd::string::StringExecFns;

use crate::strutil::{
    dec_str, is_space, parse_u16, res_view, spec_parse_u16, spec_trim, str_eq, trim_str,
    u64_to_string,
};

verus! {

/// The fixed port this instance listens on and the default for targets
/// that name no port.
pub const LISTEN_PORT: u16 = 4747;

/// A path, query or fragment delimiter, unsupported inside a target.
pub open spec fn is_reserved(c: char) -> bool {
    c == '/' || c == '?' || c == '#'
}

/// Whether the candidate holds a character no target may carry.
pub open spec fn has_bad_char(v: Seq<char>) -> bool {
    exists|i: int| 0 <= i < v.len() && (is_space(#[trigger] v[i]) || is_reserved(v[i]))
}

/// Whether the candidate holds a colon, the host/port separator.
pub open spec fn has_colon(v: Seq<char>) -> bool {
    exists|i: int| 0 <= i < v.len() && #[trigger] v[i] == ':'
}

/// Index of the last colon, or -1 when there is none.
pub open spec fn last_colon(v: Seq<char>) -> int
    decreases v.len(),
{
    if v.len() == 0 {
        -1
    } else if v.last() == ':' {
        v.len() - 1
    } else {
        last_colon(v.drop_last())
    }
}

/// `last_colon` names the rightmost colon: a colon stands there and none
/// stands after it; without any colon it is -1.
pub proof fn lemma_last_colon(v: Seq<char>)
    ensures
        has_colon(v) ==> 0 <= last_colon(v) < v.len() && v[last_colon(v)] == ':' && (forall|m: int|
            last_colon(v) < m < v.len() ==> v[m] != ':'),
        !has_colon(v) ==> last_colon(v) == -1,
    decreases v.len(),
{
    if v.len() == 0 {
    } else if v.last() == ':' {
        assert(has_colon(v));
    } else {
        let w = v.drop_last();
        lemma_last_colon(w);
        assert(forall|i: int| 0 <= i < w.len() ==> w[i] == #[trigger] v[i]);
        if has_colon(v) {
            let i = choose|i: int| 0 <= i < v.len() && #[trigger] v[i] == ':';
            assert(i < v.len() - 1);
            assert(w[i] == ':');
            assert(has_colon(w));
        }
        if has_colon(w) {
            let i = choose|i: int| 0 <= i < w.len() && #[trigger] w[i] == ':';
            assert(v[i] == ':');
            assert(has_colon(v));
        }
    }
}

/// The outcome `parse_host_port_target` owes on a candidate: the exact
/// normalized string on success, the exact reason on failure.
pub open spec fn spec_parse_host_port(v: Seq<char>, require_port: bool) -> Result<
    Seq<char>,
    Seq<char>,
> {
    if v.len() == 0 {
        Err("target is empty"@)
    } else if has_bad_char(v) {
        Err("target contains unsupported characters"@)
    } else if has_colon(v) {
        let ci = last_colon(v);
        let host = v.take(ci);
        let port_raw = v.skip(ci + 1);
        if host.len() == 0 {
            Err("host is missing"@)
        } else if has_colon(host) {
            Err("target host format is invalid"@)
        } else {
            match spec_parse_u16(port_raw) {
                Some(p) => if p > 0 {
                    Ok(host + seq![':'] + dec_str(p as nat))
                } else {
                    Err("port must be between 1 and 65535"@)
                },
                None => Err("port must be between 1 and 65535"@),
            }
        }
    } else if require_port {
        Err("target must be ws://host:port"@)
    } else {
        Ok(v + seq![':'] + dec_str(LISTEN_PORT as nat))
    }
}

fn is_bad_char(c: char) -> (r: bool)
    ensures
        r == (is_space(c) || is_reserved(c)),
{
    let x = c as u32;
    x == 0x20 || (0x09 <= x && x <= 0x0d) || x == 0x85 || x == 0xa0 || x == 0x1680 || (0x2000 <= x
        && x <= 0x200a) || x == 0x2028 || x == 0x2029 || x == 0x202f || x == 0x205f || x == 0x3000
        || c == '/' || c == '?' || c == '#'
}

/// Finds the index of the last colon, if any.
fn find_last_colon(s: &str) -> (r: Option<usize>)
    ensures
        match r {
            Some(ci) => has_colon(s@) && ci == last_colon(s@),
            None => !has_colon(s@),
        },
{
    let n = s.unicode_len();
    let mut k: usize = n;
    while k > 0
        invariant
            k <= n,
            n == s@.len(),
            forall|m: int| k <= m < n ==> s@[m] != ':',
        decreases k,
    {
        if s.get_char(k - 1) == ':' {
            proof {
                lemma_last_colon(s@);
                assert(has_colon(s@));
                let lc = last_colon(s@);
                assert(s@[lc] == ':');
                assert(lc == k - 1);
            }
            return Some(k - 1);
        }
        k = k - 1;
    }
    proof {
        if has_colon(s@) {
            let i = choose|i: int| 0 <= i < s@.len() && #[trigger] s@[i] == ':';
            assert(false);
        }
    }
    None
}

/// Validates a schemeless `host[:port]` candidate and renders the normalized
/// target; `require_port` is set when the candidate came with a `ws://` scheme.
pub fn parse_host_port_target(value: &str, require_port: bool) -> (r: Result<String, String>)
    ensures
        res_view(r) == spec_parse_host_port(value@, require_port),
{
    let n = value.unicode_len();
    if n == 0 {
        return Err("target is empty".to_owned());
    }
    let mut i: usize = 0;
    while i < n
        invariant
            i <= n,
            n == value@.len(),
            forall|k: int| 0 <= k < i ==> !(is_space(#[trigger] value@[k]) || is_reserved(
                value@[k],
            )),
        decreases n - i,
    {
        if is_bad_char(value.get_char(i)) {
            assert(has_bad_char(value@));
            return Err("target contains unsupported characters".to_owned());
        }
        i = i + 1;
    }
    assert(!has_bad_char(value@));
    match find_last_colon(value) {
        Some(ci) => {
            proof {
                lemma_last_colon(value@);
            }
            if ci == 0 {
                assert(value@.take(0).len() == 0);
                return Err("host is missing".to_owned());
            }
            let host = value.substring_char(0, ci);
            assert(host@ =~= value@.take(ci as int));
            match find_last_colon(host) {
                Some(_) => {
                    return Err("target host format is invalid".to_owned());
                },
                None => {},
            }
            let port_str = value.substring_char(ci + 1, n);
            assert(port_str@ =~= value@.skip(ci + 1));
            match parse_u16(port_str) {
                Some(p) if p > 0 => {
                    let mut out = host.to_owned();
                    crate::strutil::push_char(&mut out, ':');
                    let ps = u64_to_string(p as u64);
                    out.append(ps.as_str());
                    proof {
                        assert(out@ =~= value@.take(ci as int) + seq![':'] + dec_str(p as nat));
                    }
                    Ok(out)
                },
                _ => Err("port must be between 1 and 65535".to_owned()),
            }
        },
        None => {
            if require_port {
                return Err("target must be ws://host:port".to_owned());
            }
            let mut out = value.to_owned();
            crate::strutil::push_char(&mut out, ':');
            let ps = u64_to_string(LISTEN_PORT as u64);
            out.append(ps.as_str());
            proof {
                assert(out@ =~= value@ + seq![':'] + dec_str(LISTEN_PORT as nat));
            }
            Ok(out)
        },
    }
}

/// Whether the trimmed target opens with the one supported scheme, `ws://`.
pub open spec fn has_ws_prefix(t: Seq<char>) -> bool {
    t.len() >= 5 && t[0] == 'w' && t[1] == 's' && t[2] == ':' && t[3] == '/' && t[4] == '/'
}

/// Whether the target carries some scheme separator `://`.
pub open spec fn has_scheme_sep(t: Seq<char>) -> bool {
    exists|i: int|
        0 <= i && i + 3 <= t.len() && #[trigger] t[i] == ':' && t[i + 1] == '/' && t[i + 2] == '/'
}

/// The outcome `normalize_join_target` owes on raw input: trim, reject empty
/// input and foreign schemes, then validate the `host[:port]` remainder
/// (the port is mandatory under `ws://`).
pub open spec fn spec_normalize(raw: Seq<char>) -> Result<Seq<char>, Seq<char>> {
    let t = spec_trim(raw);
    if t.len() == 0 {
        Err("target is empty"@)
    } else if has_ws_prefix(t) {
        spec_parse_host_port(t.skip(5), true)
    } else if has_scheme_sep(t) {
        Err("only ws:// scheme is supported"@)
    } else {
        spec_parse_host_port(t, false)
    }
}

fn has_ws_prefix_exec(t: &str) -> (r: bool)
    ensures
        r == has_ws_prefix(t@),
{
    let n = t.unicode_len();
    n >= 5 && t.get_char(0) == 'w' && t.get_char(1) == 's' && t.get_char(2) == ':' && t.get_char(3)
        == '/' && t.get_char(4) == '/'
}

fn has_scheme_sep_exec(t: &str) -> (r: bool)
    ensures
        r == has_scheme_sep(t@),
{
    let n = t.unicode_len();
    if n < 3 {
        return false;
    }
    let mut i: usize = 0;
    while i <= n - 3
        invariant
            n == t@.len(),
            n >= 3,
            i <= n - 2,
            forall|k: int| 0 <= k < i ==> !(#[trigger] t@[k] == ':' && t@[k + 1] == '/' && t@[k + 2]
                == '/'),
        decreases n - i,
    {
        if t.get_char(i) == ':' && t.get_char(i + 1) == '/' && t.get_char(i + 2) == '/' {
            assert(has_scheme_sep(t@));
            return true;
        }
        i = i + 1;
    }
    proof {
        if has_scheme_sep(t@) {
            let k = choose|k: int|
                0 <= k && k + 3 <= t@.len() && #[trigger] t@[k] == ':' && t@[k + 1] == '/' && t@[k
                    + 2] == '/';
            assert(k < i);
            assert(false);
        }
    }
    false
}

/// Trims the raw join target and normalizes it to `host:port`, or reports
/// exactly why the input is no valid target.
pub fn normalize_join_target(raw: &str) -> (r: Result<String, String>)
    ensures
        res_view(r) == spec_normalize(raw@),
{
    let t = trim_str(raw);
    let n = t.unicode_len();
    if n == 0 {
        return Err("target is empty".to_owned());
    }
    if has_ws_prefix_exec(t) {
        let rest = t.substring_char(5, n);
        assert(rest@ =~= t@.skip(5));
        return parse_host_port_target(rest, true);
    }
    if has_scheme_sep_exec(t) {
        return Err("only ws:// scheme is supported".to_owned());
    }
    parse_host_port_target(t, false)
}

proof fn lemma_renormalize(host: Seq<char>, p: u16)
    requires
        host.len() > 0,
        !has_colon(host),
        !has_bad_char(host),
        1 <= p,
    ensures
        spec_normalize(host + seq![':'] + dec_str(p as nat)) == Ok::<Seq<char>, Seq<char>>(
            host + seq![':'] + dec_str(p as nat),
        ),
        ({
            let t = host + seq![':'] + dec_str(p as nat);
            &&& t.len() > 0
            &&& !has_bad_char(t)
            &&& !has_ws_prefix(t)
            &&& !has_scheme_sep(t)
            &&& has_colon(t)
            &&& last_colon(t) == host.len()
            &&& t.take(last_colon(t)) == host
            &&& t.skip(last_colon(t) + 1) == dec_str(p as nat)
            &&& spec_parse_u16(t.skip(last_colon(t) + 1)) == Some(p)
        }),
{
    let d = dec_str(p as nat);
    let t = host + seq![':'] + d;
    crate::strutil::lemma_dec_str_digits(p as nat);
    assert forall|i: int| 0 <= i < t.len() implies !(is_space(#[trigger] t[i]) || is_reserved(t[i])
        || t[i] == '/') && (i > host.len() ==> crate::strutil::is_digit(t[i])) by {
        if i < host.len() {
            assert(t[i] == host[i]);
            assert(!(is_space(host[i]) || is_reserved(host[i])));
        } else if i == host.len() {
            assert(t[i] == ':');
        } else {
            assert(t[i] == d[i - host.len() - 1]);
            assert(crate::strutil::is_digit(t[i]));
        }
    }
    assert(t.first() == host[0]);
    assert(t.last() == d.last());
    assert(spec_trim(t) == t);
    assert(!has_bad_char(t));
    assert(!has_ws_prefix(t));
    assert(!has_scheme_sep(t));
    assert(t[host.len() as int] == ':');
    assert(has_colon(t));
    lemma_last_colon(t);
    let lc = last_colon(t);
    assert(t[lc] == ':');
    assert(lc >= host.len());
    assert(lc == host.len());
    assert(t.take(lc) =~= host);
    assert(t.skip(lc + 1) =~= d);
    assert(d[0] != '+') by {
        assert(crate::strutil::is_digit(d[0]));
    }
    assert(spec_parse_u16(d) == Some(p)) by {
        assert(crate::strutil::digits_val(d) == p as nat);
    }
    assert(spec_parse_host_port(t, false) == Ok::<Seq<char>, Seq<char>>(t));
    assert(spec_normalize(t) == Ok::<Seq<char>, Seq<char>>(t));
}

/// Normalization is idempotent: a target that normalization accepts comes
/// back unchanged when normalized again.
pub proof fn lemma_normalize_idempotent(raw: Seq<char>)
    requires
        spec_normalize(raw) is Ok,
    ensures
        spec_normalize(spec_normalize(raw)->Ok_0) == spec_normalize(raw),
{
    let t = spec_trim(raw);
    let v = if has_ws_prefix(t) {
        t.skip(5)
    } else {
        t
    };
    let rp = has_ws_prefix(t);
    assert(spec_normalize(raw) == spec_parse_host_port(v, rp));
    if has_colon(v) {
        lemma_last_colon(v);
        let ci = last_colon(v);
        let host = v.take(ci);
        let port_raw = v.skip(ci + 1);
        let p = spec_parse_u16(port_raw)->Some_0;
        assert(spec_normalize(raw) == Ok::<Seq<char>, Seq<char>>(host + seq![':'] + dec_str(
            p as nat,
        )));
        assert(!has_bad_char(host)) by {
            if has_bad_char(host) {
                let i = choose|i: int|
                    0 <= i < host.len() && (is_space(#[trigger] host[i]) || is_reserved(host[i]));
                assert(host[i] == v[i]);
                assert(has_bad_char(v));
            }
        }
        lemma_renormalize(host, p);
    } else {
        assert(!rp);
        assert(spec_normalize(raw) == Ok::<Seq<char>, Seq<char>>(v + seq![':'] + dec_str(
            LISTEN_PORT as nat,
        )));
        lemma_renormalize(v, LISTEN_PORT);
    }
}

/// Every target that normalization accepts has the promised shape: a
/// nonempty host free of colons, whitespace, scheme, path, query and
/// fragment delimiters, then one colon, then a port that parses back into
/// the range 1..=65535.
pub proof fn lemma_normalized_target_shape(raw: Seq<char>)
    requires
        spec_normalize(raw) is Ok,
    ensures
        ({
            let t = spec_normalize(raw)->Ok_0;
            &&& t.len() > 0
            &&& !has_bad_char(t)
            &&& !has_ws_prefix(t)
            &&& !has_scheme_sep(t)
            &&& has_colon(t)
            &&& 1 <= last_colon(t) < t.len()
            &&& t.take(last_colon(t)).len() > 0
            &&& !has_colon(t.take(last_colon(t)))
            &&& (match spec_parse_u16(t.skip(last_colon(t) + 1)) {
                Some(p) => 1 <= p,
                None => false,
            })
        }),
{
    let t0 = spec_trim(raw);
    let v = if has_ws_prefix(t0) {
        t0.skip(5)
    } else {
        t0
    };
    let rp = has_ws_prefix(t0);
    assert(spec_normalize(raw) == spec_parse_host_port(v, rp));
    if has_colon(v) {
        lemma_last_colon(v);
        let ci = last_colon(v);
        let host = v.take(ci);
        let port_raw = v.skip(ci + 1);
        let p = spec_parse_u16(port_raw)->Some_0;
        assert(!has_bad_char(host)) by {
            if has_bad_char(host) {
                let i = choose|i: int|
                    0 <= i < host.len() && (is_space(#[trigger] host[i]) || is_reserved(host[i]));
                assert(host[i] == v[i]);
                assert(has_bad_char(v));
            }
        }
        lemma_renormalize(host, p);
    } else {
        assert(!rp);
        lemma_renormalize(v, LISTEN_PORT);
    }
}

/// The code of a character with an ASCII capital folded to lower case.
pub open spec fn lower_code(c: char) -> int {
    if 65 <= c as int <= 90 {
        c as int + 32
    } else {
        c as int
    }
}

/// Equality up to ASCII case, as the self-join host comparisons apply it.
pub open spec fn eq_ci(a: Seq<char>, b: Seq<char>) -> bool {
    a.len() == b.len() && forall|i: int| 0 <= i < a.len() ==> lower_code(#[trigger] a[i])
        == lower_code(b[i])
}

fn eq_ignore_case(a: &str, b: &str) -> (r: bool)
    ensures
        r == eq_ci(a@, b@),
{
    let na = a.unicode_len();
    let nb = b.unicode_len();
    if na != nb {
        return false;
    }
    let mut i: usize = 0;
    while i < na
        invariant
            i <= na,
            na == a@.len(),
            na == b@.len(),
            forall|k: int| 0 <= k < i ==> lower_code(#[trigger] a@[k]) == lower_code(b@[k]),
        decreases na - i,
    {
        let xa = a.get_char(i) as u32;
        let xb = b.get_char(i) as u32;
        let la = if 65 <= xa && xa <= 90 {
            xa + 32
        } else {
            xa
        };
        let lb = if 65 <= xb && xb <= 90 {
            xb + 32
        } else {
            xb
        };
        if la != lb {
            return false;
        }
        i = i + 1;
    }
    true
}

/// A loopback name or address, always treated as this machine.
pub open spec fn is_loopback_host(h: Seq<char>) -> bool {
    eq_ci(h, "localhost"@) || eq_ci(h, "127.0.0.1"@) || eq_ci(h, "0.0.0.0"@) || eq_ci(h, "::1"@)
}

/// When a `host:port` target points at this instance: the port is the fixed
/// listening port, and the host is loopback, the machine's own name (with or
/// without a `.local` suffix, ignoring ASCII case), or its detected IPv4
/// address.
pub open spec fn spec_is_self(
    addr: Seq<char>,
    local_host: Seq<char>,
    local_ip: Option<Seq<char>>,
) -> bool {
    has_colon(addr) && {
        let ci = last_colon(addr);
        let host = addr.take(ci);
        let port_raw = addr.skip(ci + 1);
        match spec_parse_u16(port_raw) {
            Some(p) => p == LISTEN_PORT && (is_loopback_host(host) || eq_ci(host, local_host)
                || eq_ci(host, local_host + ".local"@) || (match local_ip {
                Some(ip) => host == ip,
                None => false,
            })),
            None => false,
        }
    }
}

/// Decides whether a target would dial this very instance. The machine's own
/// host name and its detected IPv4 address, which only the process edge can
/// observe, come in as arguments.
pub fn is_self_join_target(addr: &str, local_host: &str, local_ipv4: Option<&str>) -> (r: bool)
    ensures
        r == spec_is_self(
            addr@,
            local_host@,
            match local_ipv4 {
                Some(ip) => Some(ip@),
                None => None,
            },
        ),
{
    let n = addr.unicode_len();
    let ci = match find_last_colon(addr) {
        Some(ci) => ci,
        None => {
            return false;
        },
    };
    proof {
        lemma_last_colon(addr@);
    }
    let host = addr.substring_char(0, ci);
    assert(host@ =~= addr@.take(ci as int));
    let port_str = addr.substring_char(ci + 1, n);
    assert(port_str@ =~= addr@.skip(ci + 1));
    let p = match parse_u16(port_str) {
        Some(p) => p,
        None => {
            return false;
        },
    };
    if p != LISTEN_PORT {
        return false;
    }
    if eq_ignore_case(host, "localhost") || eq_ignore_case(host, "127.0.0.1") || eq_ignore_case(
        host,
        "0.0.0.0",
    ) || eq_ignore_case(host, "::1") {
        return true;
    }
    if eq_ignore_case(host, local_host) {
        return true;
    }
    let mut suffixed = local_host.to_owned();
    suffixed.append(".local");
    if eq_ignore_case(host, suffixed.as_str()) {
        return true;
    }
    match local_ipv4 {
        Some(ip) => str_eq(host, ip),
        None => false,
    }
}

/// The host this instance advertises when no IPv4 address was detected: the
/// machine name itself when it already carries a domain, else with `.local`.
pub open spec fn spec_default_share_host(h: Seq<char>) -> Seq<char> {
    if exists|i: int| 0 <= i < h.len() && #[trigger] h[i] == '.' {
        h
    } else {
        h + ".local"@
    }
}

/// Renders the fallback share host from the machine's host name.
pub fn default_share_host(local_host: &str) -> (r: String)
    ensures
        r@ == spec_default_share_host(local_host@),
{
    let n = local_host.unicode_len();
    let mut i: usize = 0;
    while i < n
        invariant
            i <= n,
            n == local_host@.len(),
            forall|k: int| 0 <= k < i ==> local_host@[k] != '.',
        decreases n - i,
    {
        if local_host.get_char(i) == '.' {
            return local_host.to_owned();
        }
        i = i + 1;
    }
    proof {
        if exists|k: int| 0 <= k < local_host@.len() && #[trigger] local_host@[k] == '.' {
            let k = choose|k: int| 0 <= k < local_host@.len() && #[trigger] local_host@[k] == '.';
            assert(false);
        }
    }
    let mut out = local_host.to_owned();
    out.append(".local");
    out
}

/// The user-displayable dial target for this instance, preferring the
/// detected IPv4 address over the machine name.
pub open spec fn spec_share_target(detected: Option<Seq<char>>, local_host: Seq<char>) -> Seq<
    char,
> {
    let host = match detected {
        Some(ip) => ip,
        None => spec_default_share_host(local_host),
    };
    "ws://"@ + host + ":4747"@
}

/// Builds the `ws://host:4747` string shown to users who want to join this
/// instance.
pub fn get_share_target(detected_ipv4: Option<&str>, local_host: &str) -> (r: String)
    ensures
        r@ == spec_share_target(
            match detected_ipv4 {
                Some(ip) => Some(ip@),
                None => None,
            },
            local_host@,
        ),
{
    let mut out = "ws://".to_owned();
    match detected_ipv4 {
        Some(ip) => out.append(ip),
        None => {
            let h = default_share_host(local_host);
            out.append(h.as_str());
        },
    }
    out.append(":4747");
    out
}

} // verus!
