//! What a forwarded request and its relayed response carry: the outbound URL, proxy
//! headers, whether the body goes along, and the rewritten response headers.
use crate::headers::{has_header, header_value, headers_view, names_equal, Header};
use crate::text::{contains_text, is_suffix};
use vstd::prelude::*;
use vstd::string::StringExecFns;

verus! {

/// The name of the header that carries the chain of client addresses.
pub open spec fn xff_name() -> Seq<char> {
    seq!['x', '-', 'f', 'o', 'r', 'w', 'a', 'r', 'd', 'e', 'd', '-', 'f', 'o', 'r']
}

/// The name of the header that carries the host the client asked for.
pub open spec fn xfh_name() -> Seq<char> {
    seq!['x', '-', 'f', 'o', 'r', 'w', 'a', 'r', 'd', 'e', 'd', '-', 'h', 'o', 's', 't']
}

/// The name of the header that carries the scheme the client used.
pub open spec fn xfp_name() -> Seq<char> {
    seq!['x', '-', 'f', 'o', 'r', 'w', 'a', 'r', 'd', 'e', 'd', '-', 'p', 'r', 'o', 't', 'o']
}

/// The `x-forwarded-for` value sent upstream: the incoming value, a comma and the client
/// IP; or the client IP alone.
pub open spec fn forwarded_for_value(incoming: Option<Seq<char>>, client_ip: Seq<char>) -> Seq<char> {
    match incoming {
        Some(v) => v + seq![','] + client_ip,
        None => client_ip,
    }
}

/// The proxy headers set on a forwarded request: `x-forwarded-for` always, then
/// `x-forwarded-host` and `x-forwarded-proto` where the request lacks them.
pub open spec fn proxy_headers_of(
    client_ip: Seq<char>,
    host: Seq<char>,
    proto: Seq<char>,
    incoming: Seq<Header>,
) -> Seq<Header> {
    let xff = seq![(xff_name(), forwarded_for_value(header_value(incoming, xff_name()), client_ip))];
    let xfh = if has_header(incoming, xfh_name()) { Seq::empty() } else { seq![(xfh_name(), host)] };
    let xfp = if has_header(incoming, xfp_name()) { Seq::empty() } else { seq![(xfp_name(), proto)] };
    xff + xfh + xfp
}

/// The `x-forwarded-for` value for a request from `client_ip`.
pub fn forwarded_for(incoming: Option<&str>, client_ip: &str) -> (r: String)
    ensures
        r@ == forwarded_for_value(
            match incoming {
                Some(v) => Some(v@),
                None => None,
            },
            client_ip@,
        ),
{
    match incoming {
        Some(v) => {
            proof {
                reveal_strlit(",");
            }
            String::from_str(v).concat(",").concat(client_ip)
        },
        None => String::from_str(client_ip),
    }
}

/// The proxy headers to set on the outbound request, in order.
pub fn set_proxy_headers(
    client_ip: &str,
    host: &str,
    proto: &str,
    request_headers: &Vec<(String, String)>,
) -> (r: Vec<(String, String)>)
    ensures
        headers_view(r@) == proxy_headers_of(client_ip@, host@, proto@, headers_view(request_headers@)),
{
    proof {
        reveal_strlit("x-forwarded-for");
        reveal_strlit("x-forwarded-host");
        reveal_strlit("x-forwarded-proto");
    }
    let xff_key = "x-forwarded-for";
    let xfh_key = "x-forwarded-host";
    let xfp_key = "x-forwarded-proto";
    assert(xff_key@ =~= xff_name());
    assert(xfh_key@ =~= xfh_name());
    assert(xfp_key@ =~= xfp_name());
    let mut r: Vec<(String, String)> = Vec::new();
    let existing = crate::headers::find_header(request_headers, xff_key);
    let xff = match &existing {
        Some(v) => forwarded_for(Some(v.as_str()), client_ip),
        None => forwarded_for(None, client_ip),
    };
    r.push((String::from_str(xff_key), xff));
    if !crate::headers::contains_header(request_headers, xfh_key) {
        r.push((String::from_str(xfh_key), String::from_str(host)));
    }
    if !crate::headers::contains_header(request_headers, xfp_key) {
        r.push((String::from_str(xfp_key), String::from_str(proto)));
    }
    let ghost orig = headers_view(request_headers@);
    assert(headers_view(r@) =~= proxy_headers_of(client_ip@, host@, proto@, orig));
    r
}

/// The URL a request is forwarded to: the upstream's base followed by the request's path
/// and query.
pub fn outbound_url(target: &str, path_and_query: &str) -> (r: String)
    ensures
        r@ == target@ + path_and_query@,
{
    String::from_str(target).concat(path_and_query)
}

/// The host a request is for: its `Host` header when present, else its URI authority.
pub fn request_host(host_header: Option<&str>, authority: Option<&str>) -> (r: Option<String>)
    ensures
        match host_header {
            Some(h) => r matches Some(v) && v@ == h@,
            None => match authority {
                Some(a) => r matches Some(v) && v@ == a@,
                None => r is None,
            },
        },
{
    match host_header {
        Some(h) => Some(String::from_str(h)),
        None => match authority {
            Some(a) => Some(String::from_str(a)),
            None => None,
        },
    }
}

/// The number of decimal digits at the end of `h`.
pub open spec fn trailing_digits(h: Seq<char>) -> nat
    decreases h.len(),
{
    if h.len() > 0 && '0' <= h.last() && h.last() <= '9' {
        1 + trailing_digits(h.drop_last())
    } else {
        0
    }
}

/// The host name routes are matched against: the host without a trailing `:port`.
pub open spec fn host_without_port(h: Seq<char>) -> Seq<char> {
    let k = trailing_digits(h);
    if k < h.len() && h[h.len() - 1 - k] == ':' {
        h.subrange(0, h.len() - 1 - k)
    } else {
        h
    }
}

/// The host a request is routed by: its host with any `:port` removed.
pub fn routing_host(host: &str) -> (r: String)
    ensures
        r@ == host_without_port(host@),
{
    let c = crate::text::chars_of(host);
    let n = c.len();
    let mut k: usize = 0;
    assert(host@.subrange(0, n as int) =~= host@);
    while k < n && '0' <= c[n - 1 - k] && c[n - 1 - k] <= '9'
        invariant
            k <= n,
            n == host@.len(),
            c@ == host@,
            trailing_digits(host@) == k + trailing_digits(host@.subrange(0, n - k)),
        decreases n - k,
    {
        assert(host@.subrange(0, n - k).drop_last() =~= host@.subrange(0, n - k - 1));
        k = k + 1;
    }
    assert(trailing_digits(host@.subrange(0, n - k)) == 0);
    if k < n && c[n - 1 - k] == ':' {
        crate::text::prefix_string(host, n - 1 - k)
    } else {
        String::from_str(host)
    }
}

/// The scheme reported upstream: `"https"` exactly when the request's scheme is `https`.
pub fn forwarded_proto(scheme: Option<&str>) -> (r: &'static str)
    ensures
        r@ == if scheme matches Some(s) && s@ == seq!['h', 't', 't', 'p', 's'] {
            seq!['h', 't', 't', 'p', 's']
        } else {
            seq!['h', 't', 't', 'p']
        },
{
    proof {
        reveal_strlit("https");
        reveal_strlit("http");
    }
    assert("https"@ =~= seq!['h', 't', 't', 'p', 's']);
    assert("http"@ =~= seq!['h', 't', 't', 'p']);
    let is_https = match scheme {
        Some(s) => {
            let c = crate::text::chars_of(s);
            let https = crate::text::chars_of("https");
            crate::text::chars_equal(&c, &https)
        },
        None => false,
    };
    if is_https {
        "https"
    } else {
        "http"
    }
}

/// Whether a request's body is collected and forwarded: for `POST`, `PUT` and `PATCH`.
pub fn forwards_body(method: &str) -> (r: bool)
    ensures
        r == (method@ == seq!['P', 'O', 'S', 'T'] || method@ == seq!['P', 'U', 'T'] || method@ == seq![
            'P',
            'A',
            'T',
            'C',
            'H',
        ]),
{
    proof {
        reveal_strlit("POST");
        reveal_strlit("PUT");
        reveal_strlit("PATCH");
    }
    assert("POST"@ =~= seq!['P', 'O', 'S', 'T']);
    assert("PUT"@ =~= seq!['P', 'U', 'T']);
    assert("PATCH"@ =~= seq!['P', 'A', 'T', 'C', 'H']);
    let m = crate::text::chars_of(method);
    let post = crate::text::chars_of("POST");
    let put = crate::text::chars_of("PUT");
    let patch = crate::text::chars_of("PATCH");
    crate::text::chars_equal(&m, &post) || crate::text::chars_equal(&m, &put) || crate::text::chars_equal(
        &m,
        &patch,
    )
}

/// The product name written in `Server` headers and error pages.
pub open spec fn server_name() -> Seq<char> {
    seq!['p', 'o', 'r', 't', 'i', 'q']
}

/// The name of the `Server` header.
pub open spec fn server_header() -> Seq<char> {
    seq!['S', 'e', 'r', 'v', 'e', 'r']
}

/// The headers relayed to the client: the upstream's, in order, without any `Server`
/// header, followed by `Server: portiq`.
pub open spec fn relayed_headers(upstream: Seq<Header>) -> Seq<Header> {
    upstream.filter(|h: Header| !names_equal(h.0, server_header())).push((server_header(), server_name()))
}

/// The response headers relayed to the client.
pub fn relay_response_headers(upstream: &Vec<(String, String)>) -> (r: Vec<(String, String)>)
    ensures
        headers_view(r@) == relayed_headers(headers_view(upstream@)),
{
    proof {
        reveal_strlit("Server");
        reveal_strlit("portiq");
    }
    let server = "Server";
    assert(server@ =~= server_header());
    assert("portiq"@ =~= server_name());
    let ghost up = headers_view(upstream@);
    let mut r: Vec<(String, String)> = Vec::new();
    for i in 0..upstream.len()
        invariant
            up == headers_view(upstream@),
            server@ == server_header(),
            headers_view(r@) == up.subrange(0, i as int).filter(|h: Header| !names_equal(h.0, server_header())),
    {
        reveal(Seq::filter);
        let ghost before = up.subrange(0, i as int);
        assert(up.subrange(0, i + 1).drop_last() =~= before);
        assert(up.subrange(0, i + 1).last() == (upstream@[i as int].0@, upstream@[i as int].1@));
        if !crate::headers::names_equal_exec(upstream[i].0.as_str(), server) {
            r.push((upstream[i].0.clone(), upstream[i].1.clone()));
        }
        assert(headers_view(r@) =~= up.subrange(0, i + 1).filter(|h: Header| !names_equal(h.0, server_header())));
    }
    assert(up.subrange(0, up.len() as int) =~= up);
    let ghost kept = headers_view(r@);
    r.push((String::from_str(server), String::from_str("portiq")));
    assert(headers_view(r@) =~= kept.push((server_header(), server_name())));
    r
}

/// The page answered when the upstream cannot be reached.
pub open spec fn bad_gateway_page() -> Seq<char> {
    "<!DOCTYPE html>\n<html>\n<head>\n<title>502 Bad Gateway</title>\n</head>\n<body>\n<center><h1>502 Bad Gateway</h1></center>\n<hr><center>portiq</center>\n</body>\n</html>"@
}

/// The body of the page answered when the upstream cannot be reached: an HTML document
/// that names the status `502 Bad Gateway` and the product `portiq`.
pub fn bad_gateway_body() -> (r: &'static str)
    ensures
        r@ == bad_gateway_page(),
        contains_text(r@, "502 Bad Gateway"@),
        contains_text(r@, server_name()),
        is_suffix(seq!['<', '/', 'h', 't', 'm', 'l', '>'], r@),
{
    proof {
        reveal_strlit("<!DOCTYPE html>\n<html>\n<head>\n<title>502 Bad Gateway</title>\n</head>\n<body>\n<center><h1>502 Bad Gateway</h1></center>\n<hr><center>portiq</center>\n</body>\n</html>");
        reveal_strlit("502 Bad Gateway");
    }
    let r = "<!DOCTYPE html>\n<html>\n<head>\n<title>502 Bad Gateway</title>\n</head>\n<body>\n<center><h1>502 Bad Gateway</h1></center>\n<hr><center>portiq</center>\n</body>\n</html>";
    assert(r@.subrange(r@.len() - 7, r@.len() as int) =~= seq!['<', '/', 'h', 't', 'm', 'l', '>']);
    assert(r@.subrange(37int, 52int) =~= "502 Bad Gateway"@);
    assert(r@.subrange(37int, 37int + "502 Bad Gateway"@.len()) == "502 Bad Gateway"@);
    assert(r@.subrange(130int, 136int) =~= server_name());
    assert(r@.subrange(130int, 130int + server_name().len()) == server_name());
    r
}

} // verus!
