//! The decisions of a client that fetches a URL.
use crate::text::{chars, Header};
use crate::time::Duration;
use vstd::prelude::*;
use vstd::string::StringExecFns;
use vstd::utf8::encode_utf8;

verus! {

/// The longest label that the `idna` crate is certain to encode: it counts in 32 bits meanwhile.
pub const MAX_ENCODED_LABEL: usize = 3855;

/// The longest label with characters that the `idna` crate maps, each to at most 18, before it
/// encodes the label.
pub const MAX_MAPPED_LABEL: usize = 214;

/// The longest text that is parsed: the `url` crate counts its characters in 31 bits.
pub const MAX_URL: usize = 0x7fff_ffff;

/// A letter from `A` to `Z` in lower case; any other character as it is.
pub open spec fn lower(c: char) -> char {
    if 'A' <= c && c <= 'Z' {
        (c as u32 + 32) as char
    } else {
        c
    }
}

/// Where the scheme of a URL ends: at its first colon, or where it ends itself.
pub open spec fn scheme_len(url: Seq<char>) -> int
    decreases url.len(),
{
    if url.len() == 0 || url[0] == ':' {
        0
    } else {
        1 + scheme_len(url.skip(1))
    }
}

/// A scheme in lower case, without blanks and control characters.
pub open spec fn scheme_name(scheme: Seq<char>) -> Seq<char>
    decreases scheme.len(),
{
    if scheme.len() == 0 {
        Seq::empty()
    } else {
        let name = scheme_name(scheme.drop_last());
        if scheme.last() <= ' ' {
            name
        } else {
            name.push(lower(scheme.last()))
        }
    }
}

/// The schemes of the URLs whose hosts are domains. The host of any other URL is taken as it is.
pub open spec fn has_domain(name: Seq<char>) -> bool {
    ||| name == "http"@
    ||| name == "https"@
    ||| name == "ws"@
    ||| name == "wss"@
    ||| name == "ftp"@
    ||| name == "gopher"@
    ||| name == "file"@
}

/// The character may stand between the scheme of a URL and its host: a slash, or one that is passed
/// over.
pub open spec fn precedes_host(c: char) -> bool {
    c == '/' || c == '\\' || passed_over(c)
}

/// The character is passed over wherever it stands in a URL.
pub open spec fn passed_over(c: char) -> bool {
    c == '\t' || c == '\n' || c == '\r'
}

/// The character ends the part of a URL that holds the user information, the host and the port.
pub open spec fn ends_authority(c: char) -> bool {
    c == '/' || c == '\\' || c == '?' || c == '#'
}

/// What follows the slashes that a text begins with.
pub open spec fn after_slashes(text: Seq<char>) -> Seq<char>
    decreases text.len(),
{
    if text.len() > 0 && precedes_host(text[0]) {
        after_slashes(text.skip(1))
    } else {
        text
    }
}

/// Where the user information, the host and the port end that a text begins with.
pub open spec fn authority_len(text: Seq<char>) -> int
    decreases text.len(),
{
    if text.len() == 0 || ends_authority(text[0]) {
        0
    } else {
        1 + authority_len(text.skip(1))
    }
}

/// The user information, the host and the port of a URL.
pub open spec fn authority(url: Seq<char>) -> Seq<char> {
    if scheme_len(url) < url.len() {
        let rest = after_slashes(url.skip(scheme_len(url) + 1));
        rest.take(authority_len(rest))
    } else {
        Seq::empty()
    }
}

/// Where the user information ends: after the last `@`.
pub open spec fn userinfo_len(authority: Seq<char>) -> int
    decreases authority.len(),
{
    if authority.len() == 0 || authority.last() == '@' {
        authority.len() as int
    } else {
        userinfo_len(authority.drop_last())
    }
}

/// Whether what follows `c` is inside square brackets.
pub open spec fn in_brackets(c: char, before: bool) -> bool {
    c == '[' || (before && c != ']')
}

/// Where the host ends that a text begins with: at the first colon outside square brackets.
pub open spec fn host_len(text: Seq<char>, bracketed: bool) -> int
    decreases text.len(),
{
    if text.len() == 0 || (text[0] == ':' && !bracketed) {
        0
    } else {
        1 + host_len(text.skip(1), in_brackets(text[0], bracketed))
    }
}

/// The host of a URL. In a URL of a file it has neither user information nor a port beside it.
pub open spec fn host_part(url: Seq<char>) -> Seq<char> {
    let all = authority(url);
    if scheme_name(url.take(scheme_len(url))) == "file"@ {
        all
    } else {
        let rest = all.skip(userinfo_len(all));
        rest.take(host_len(rest, false))
    }
}

/// The label holds characters that are mapped to others, or escaped ones.
pub open spec fn is_mapped(label: Seq<char>) -> bool {
    exists|k: int| 0 <= k < label.len() && (#[trigger] label[k] > '\x7f' || label[k] == '%')
}

/// The label may be one that is encoded already, and so is decoded and encoded again.
pub open spec fn may_be_encoded(label: Seq<char>) -> bool {
    ||| label.len() >= 4 && lower(label[0]) == 'x' && lower(label[1]) == 'n' && label[2] == '-'
        && label[3] == '-'
    ||| exists|k: int| 0 <= k < label.len() && passed_over(#[trigger] label[k])
}

/// The label is not so long that encoding it could overflow.
pub open spec fn label_fits(label: Seq<char>) -> bool {
    &&& is_mapped(label) ==> label.len() <= MAX_MAPPED_LABEL
    &&& may_be_encoded(label) ==> label.len() <= MAX_ENCODED_LABEL
}

/// The characters of `host` from `i` up to, but not including, `j` are one of its labels.
pub open spec fn is_label(host: Seq<char>, i: int, j: int) -> bool {
    &&& 0 <= i <= j <= host.len()
    &&& i == 0 || host[i - 1] == '.'
    &&& j == host.len() || host[j] == '.'
    &&& forall|k: int| i <= k < j ==> #[trigger] host[k] != '.'
}

/// No label of the host is so long that encoding it could overflow.
pub open spec fn labels_fit(host: Seq<char>) -> bool {
    forall|i: int, j: int| #[trigger] is_label(host, i, j) ==> label_fits(host.subrange(i, j))
}

/// The text can be parsed: neither it nor a label of its host is so long that a counter of the
/// parser could overflow.
pub open spec fn parsable(url: Seq<char>) -> bool {
    &&& url.len() <= MAX_URL
    &&& has_domain(scheme_name(url.take(scheme_len(url)))) ==> labels_fit(host_part(url))
}

/// The characters of a text.
fn chars_of(text: &str) -> (list: Vec<char>)
    ensures
        list@ == text@,
{
    let mut list: Vec<char> = Vec::new();
    for c in it: text.chars()
        invariant
            it.seq() == text@,
            list@ == text@.take(it.index() as int),
    {
        list.push(c);
    }
    assert(text@.take(text@.len() as int) =~= text@);
    list
}

/// Whether `list` holds the characters of `text`.
fn spells(list: &Vec<char>, text: &str) -> (same: bool)
    ensures
        same == (list@ == text@),
{
    let other = chars_of(text);
    if list.len() != other.len() {
        return false;
    }
    let mut i: usize = 0;
    while i < list.len()
        invariant
            i <= list@.len(),
            list@.len() == other@.len(),
            other@ == text@,
            forall|j: int| 0 <= j < i ==> list@[j] == other@[j],
        decreases list@.len() - i,
    {
        if list[i] != other[i] {
            return false;
        }
        i = i + 1;
    }
    assert(list@ =~= text@);
    true
}

/// A letter from `A` to `Z` in lower case; any other character as it is.
fn lowered(c: char) -> (result: char)
    ensures
        result == lower(c),
{
    if 'A' <= c && c <= 'Z' {
        (c as u8 + 32) as char
    } else {
        c
    }
}

/// The scheme that `list` begins with, in lower case and without blanks and control characters, and
/// where it ends.
fn read_scheme(list: &Vec<char>) -> (scheme: (Vec<char>, usize))
    ensures
        scheme.1 == scheme_len(list@),
        scheme.1 <= list@.len(),
        scheme.0@ == scheme_name(list@.take(scheme_len(list@))),
{
    let mut name: Vec<char> = Vec::new();
    let mut i: usize = 0;
    assert(list@.skip(0) =~= list@);
    while i < list.len() && list[i] != ':'
        invariant
            i <= list@.len(),
            scheme_len(list@) == i + scheme_len(list@.skip(i as int)),
            name@ == scheme_name(list@.take(i as int)),
        decreases list@.len() - i,
    {
        assert(list@.skip(i as int).skip(1) =~= list@.skip(i + 1));
        assert(list@.take(i + 1).drop_last() =~= list@.take(i as int));
        if list[i] > ' ' {
            name.push(lowered(list[i]));
        }
        i = i + 1;
    }
    (name, i)
}

/// Where the user information, the host and the port in `list` begin and end, when the scheme ends
/// at `scheme_end`.
fn read_authority(list: &Vec<char>, scheme_end: usize) -> (bounds: (usize, usize))
    requires
        scheme_end == scheme_len(list@),
        scheme_end <= list@.len(),
    ensures
        bounds.0 <= bounds.1 <= list@.len(),
        list@.subrange(bounds.0 as int, bounds.1 as int) == authority(list@),
{
    if scheme_end == list.len() {
        assert(list@.subrange(scheme_end as int, scheme_end as int) =~= authority(list@));
        return (scheme_end, scheme_end);
    }
    let mut start: usize = scheme_end + 1;
    let ghost tail = list@.skip(start as int);
    while start < list.len() && (list[start] == '/' || list[start] == '\\' || list[start] == '\t'
        || list[start] == '\n' || list[start] == '\r')
        invariant
            start <= list@.len(),
            after_slashes(list@.skip(start as int)) == after_slashes(tail),
        decreases list@.len() - start,
    {
        assert(list@.skip(start as int).skip(1) =~= list@.skip(start + 1));
        start = start + 1;
    }
    let ghost rest = list@.skip(start as int);
    assert(rest == after_slashes(tail));
    let mut end: usize = start;
    while end < list.len() && !(list[end] == '/' || list[end] == '\\' || list[end] == '?'
        || list[end] == '#')
        invariant
            start <= end <= list@.len(),
            rest == list@.skip(start as int),
            authority_len(rest) == (end - start) + authority_len(list@.skip(end as int)),
        decreases list@.len() - end,
    {
        assert(list@.skip(end as int).skip(1) =~= list@.skip(end + 1));
        end = end + 1;
    }
    assert(list@.subrange(start as int, end as int) =~= rest.take(authority_len(rest)));
    (start, end)
}

/// Where the host begins and ends in `list`, which holds user information, a host and a port between
/// `start` and `end`.
fn read_host(list: &Vec<char>, start: usize, end: usize) -> (bounds: (usize, usize))
    requires
        start <= end <= list@.len(),
    ensures
        bounds.0 <= bounds.1 <= list@.len(),
        ({
            let all = list@.subrange(start as int, end as int);
            let rest = all.skip(userinfo_len(all));
            list@.subrange(bounds.0 as int, bounds.1 as int) == rest.take(host_len(rest, false))
        }),
{
    let ghost all = list@.subrange(start as int, end as int);
    let mut first: usize = end;
    assert(all.take(all.len() as int) =~= all);
    while first > start && list[first - 1] != '@'
        invariant
            start <= first <= end <= list@.len(),
            all == list@.subrange(start as int, end as int),
            userinfo_len(all) == userinfo_len(all.take(first - start)),
        decreases first - start,
    {
        assert(all.take(first - start).drop_last() =~= all.take(first - 1 - start));
        first = first - 1;
    }
    assert(userinfo_len(all) == first - start);
    let ghost rest = all.skip(userinfo_len(all));
    assert(rest =~= list@.subrange(first as int, end as int));
    let mut last: usize = first;
    let mut bracketed = false;
    while last < end && !(list[last] == ':' && !bracketed)
        invariant
            start <= first <= last <= end <= list@.len(),
            rest == list@.subrange(first as int, end as int),
            host_len(rest, false) == (last - first) + host_len(
                list@.subrange(last as int, end as int),
                bracketed,
            ),
        decreases end - last,
    {
        assert(list@.subrange(last as int, end as int).skip(1) =~= list@.subrange(
            last + 1,
            end as int,
        ));
        bracketed = list[last] == '[' || (bracketed && list[last] != ']');
        last = last + 1;
    }
    assert(list@.subrange(first as int, last as int) =~= rest.take(host_len(rest, false)));
    (first, last)
}

/// Whether the label between `start` and `end` in `list` is not so long that encoding it could
/// overflow.
fn does_label_fit(list: &Vec<char>, start: usize, end: usize) -> (fits: bool)
    requires
        start <= end <= list@.len(),
    ensures
        fits == label_fits(list@.subrange(start as int, end as int)),
{
    let ghost label = list@.subrange(start as int, end as int);
    let len = end - start;
    let mut mapped = false;
    let mut encoded = len >= 4 && lowered(list[start]) == 'x' && lowered(list[start + 1]) == 'n'
        && list[start + 2] == '-' && list[start + 3] == '-';
    let ghost prefixed = encoded;
    let mut k: usize = start;
    while k < end
        invariant
            start <= k <= end <= list@.len(),
            label == list@.subrange(start as int, end as int),
            mapped == exists|j: int|
                0 <= j < k - start && (#[trigger] label[j] > '\x7f' || label[j] == '%'),
            encoded == (prefixed || exists|j: int|
                0 <= j < k - start && passed_over(#[trigger] label[j])),
        decreases end - k,
    {
        let c = list[k];
        assert(label[k - start] == c);
        if c > '\x7f' || c == '%' {
            mapped = true;
        }
        if c == '\t' || c == '\n' || c == '\r' {
            encoded = true;
        }
        k = k + 1;
    }
    (!mapped || len <= MAX_MAPPED_LABEL) && (!encoded || len <= MAX_ENCODED_LABEL)
}

/// Whether no label of the host between `start` and `end` in `list` is so long that encoding it could
/// overflow.
fn do_labels_fit(list: &Vec<char>, start: usize, end: usize) -> (fit: bool)
    requires
        start <= end <= list@.len(),
    ensures
        fit == labels_fit(list@.subrange(start as int, end as int)),
{
    let ghost host = list@.subrange(start as int, end as int);
    let mut label: usize = start;
    let mut i: usize = start;
    loop
        invariant
            start <= label <= i <= end <= list@.len(),
            host == list@.subrange(start as int, end as int),
            label == start || host[label - 1 - start] == '.',
            forall|k: int| label - start <= k < i - start ==> #[trigger] host[k] != '.',
            forall|a: int, b: int|
                #[trigger] is_label(host, a, b) && b < label - start ==> label_fits(
                    host.subrange(a, b),
                ),
        decreases end - i,
    {
        if i == end || list[i] == '.' {
            let ghost from = label - start;
            let ghost to = i - start;
            assert(i < end ==> host[to] == '.');
            assert(host.subrange(from, to) =~= list@.subrange(label as int, i as int));
            assert(is_label(host, from, to));
            if !does_label_fit(list, label, i) {
                return false;
            }
            assert forall|a: int, b: int| #[trigger]
                is_label(host, a, b) && b < to + 1 implies label_fits(host.subrange(a, b)) by {
                if b >= from {
                    if b < to {
                        assert(host[b] != '.');
                    }
                    if a < from {
                        assert(host[from - 1] != '.');
                    } else if a > from {
                        assert(host[a - 1] != '.');
                    }
                }
            }
            if i == end {
                return true;
            }
            label = i + 1;
        }
        i = i + 1;
    }
}

/// Whether a text can be parsed as a URL.
pub fn is_parsable(url: &str) -> (possible: bool)
    ensures
        possible == parsable(url@),
{
    let list = chars_of(url);
    if list.len() > MAX_URL {
        return false;
    }
    let (name, scheme_end) = read_scheme(&list);
    let is_file = spells(&name, "file");
    if !(spells(&name, "http") || spells(&name, "https") || spells(&name, "ws") || spells(
        &name,
        "wss",
    ) || spells(&name, "ftp") || spells(&name, "gopher") || is_file) {
        return true;
    }
    let (start, end) = read_authority(&list, scheme_end);
    if is_file {
        do_labels_fit(&list, start, end)
    } else {
        let (first, last) = read_host(&list, start, end);
        do_labels_fit(&list, first, last)
    }
}

/// The scheme of the URL that a text parses to, if it does: what `url::Url::scheme` gives.
pub uninterp spec fn url_scheme(url: Seq<char>) -> Option<Seq<char>>;

/// The host of the URL that a text parses to, if it does and has one: what `url::Url::host_str`
/// gives.
pub uninterp spec fn url_host(url: Seq<char>) -> Option<Seq<char>>;

/// The domain of the URL that a text parses to, if it does and its host is a domain: what
/// `url::Url::domain` gives.
pub uninterp spec fn url_domain(url: Seq<char>) -> Option<Seq<char>>;

/// The path of the URL that a text parses to, if it does: what `url::Url::path` gives.
pub uninterp spec fn url_path(url: Seq<char>) -> Option<Seq<char>>;

/// The query of the URL that a text parses to, if it does and has one: what `url::Url::query` gives.
pub uninterp spec fn url_query(url: Seq<char>) -> Option<Seq<char>>;

/// Calls `url::Url::parse` and `url::Url::scheme`. The scheme depends on the text alone.
#[verifier::external_body]
fn scheme_of(url: &str) -> (scheme: Option<String>)
    requires
        parsable(url@),
    ensures
        chars(scheme) == url_scheme(url@),
{
    match url::Url::parse(url) {
        Ok(url) => Some(url.scheme().to_string()),
        Err(_) => None,
    }
}

/// Calls `url::Url::parse` and `url::Url::host_str`. The host depends on the text alone.
#[verifier::external_body]
fn host_of(url: &str) -> (host: Option<String>)
    requires
        parsable(url@),
    ensures
        chars(host) == url_host(url@),
{
    match url::Url::parse(url) {
        Ok(url) => match url.host_str() {
            Some(host) => Some(host.to_string()),
            None => None,
        },
        Err(_) => None,
    }
}

/// Calls `url::Url::parse` and `url::Url::domain`. The domain depends on the text alone.
#[verifier::external_body]
fn domain_of(url: &str) -> (domain: Option<String>)
    requires
        parsable(url@),
    ensures
        chars(domain) == url_domain(url@),
{
    match url::Url::parse(url) {
        Ok(url) => match url.domain() {
            Some(domain) => Some(domain.to_string()),
            None => None,
        },
        Err(_) => None,
    }
}

/// Calls `url::Url::parse` and `url::Url::path`. The path depends on the text alone.
#[verifier::external_body]
fn path_of(url: &str) -> (path: Option<String>)
    requires
        parsable(url@),
    ensures
        chars(path) == url_path(url@),
{
    match url::Url::parse(url) {
        Ok(url) => Some(url.path().to_string()),
        Err(_) => None,
    }
}

/// Calls `url::Url::parse` and `url::Url::query`. The query depends on the text alone.
#[verifier::external_body]
fn query_of(url: &str) -> (query: Option<String>)
    requires
        parsable(url@),
    ensures
        chars(query) == url_query(url@),
{
    match url::Url::parse(url) {
        Ok(url) => match url.query() {
            Some(query) => Some(query.to_string()),
            None => None,
        },
        Err(_) => None,
    }
}

/// The path of a request: the path of the URL, followed by its query if it has one.
pub open spec fn full_path(path: Seq<char>, query: Option<Seq<char>>) -> Seq<char> {
    match query {
        Some(query) => path + "?"@ + query,
        None => path,
    }
}

/// The path of a request.
pub fn request_path(path: &str, query: Option<&str>) -> (full: String)
    ensures
        full@ == full_path(
            path@,
            match query {
                Some(query) => Some(query@),
                None => None,
            },
        ),
{
    let mut full = path.to_owned();
    if let Some(query) = query {
        full.append("?");
        full.append(query);
    }
    full
}

/// A header with the given name and value.
pub open spec fn is_header(header: Header, name: Seq<char>, value: Seq<char>) -> bool {
    header.name@ == encode_utf8(name) && header.value@ == encode_utf8(value)
}

/// A header with the given name and value.
fn header(name: &str, value: &str) -> (header: Header)
    ensures
        is_header(header, name@, value@),
{
    let mut n: Vec<u8> = Vec::new();
    n.extend_from_slice(name.as_bytes());
    let mut v: Vec<u8> = Vec::new();
    v.extend_from_slice(value.as_bytes());
    assert(n@ =~= encode_utf8(name@));
    assert(v@ =~= encode_utf8(value@));
    Header { name: n, value: v }
}

/// The headers of a request for a URL with these parts.
pub open spec fn are_request_headers(
    headers: Seq<Header>,
    scheme: Seq<char>,
    authority: Seq<char>,
    path: Seq<char>,
) -> bool {
    &&& headers.len() == 5
    &&& is_header(headers[0], ":method"@, "GET"@)
    &&& is_header(headers[1], ":scheme"@, scheme)
    &&& is_header(headers[2], ":authority"@, authority)
    &&& is_header(headers[3], ":path"@, path)
    &&& is_header(headers[4], "user-agent"@, "quiche"@)
}

/// The headers of an HTTP/3 request.
pub fn request_headers(scheme: &str, authority: &str, path: &str) -> (headers: Vec<Header>)
    ensures
        are_request_headers(headers@, scheme@, authority@, path@),
{
    let mut headers: Vec<Header> = Vec::new();
    headers.push(header(":method", "GET"));
    headers.push(header(":scheme", scheme));
    headers.push(header(":authority", authority));
    headers.push(header(":path", path));
    headers.push(header("user-agent", "quiche"));
    headers
}

/// The text of an HTTP/0.9 request.
pub open spec fn hq_text(path: Seq<char>) -> Seq<char> {
    "GET "@ + path + "\r\n"@
}

/// An HTTP/0.9 request.
pub fn hq_request(path: &str) -> (request: String)
    ensures
        request@ == hq_text(path@),
{
    let mut request = "GET ".to_owned();
    request.append(path);
    request.append("\r\n");
    request
}

/// The headers of the HTTP/3 request for `url`. `None` if it is not a URL, or has no host.
pub fn request_for(url: &str) -> (headers: Option<Vec<Header>>)
    requires
        parsable(url@),
    ensures
        match headers {
            Some(headers) => {
                &&& url_scheme(url@) is Some && url_host(url@) is Some && url_path(url@) is Some
                &&& are_request_headers(
                    headers@,
                    url_scheme(url@)->0,
                    url_host(url@)->0,
                    full_path(url_path(url@)->0, url_query(url@)),
                )
            },
            None => url_scheme(url@) is None || url_host(url@) is None || url_path(url@) is None,
        },
{
    match (scheme_of(url), host_of(url), path_of(url)) {
        (Some(scheme), Some(host), Some(path)) => {
            let query = query_of(url);
            let full = match &query {
                Some(query) => request_path(path.as_str(), Some(query.as_str())),
                None => request_path(path.as_str(), None),
            };
            Some(request_headers(scheme.as_str(), host.as_str(), full.as_str()))
        },
        _ => None,
    }
}

/// The HTTP/0.9 request for `url`. `None` if it is not a URL.
pub fn hq_request_for(url: &str) -> (request: Option<String>)
    requires
        parsable(url@),
    ensures
        match request {
            Some(request) => url_path(url@) is Some && request@ == hq_text(url_path(url@)->0),
            None => url_path(url@) is None,
        },
{
    match path_of(url) {
        Some(path) => Some(hq_request(path.as_str())),
        None => None,
    }
}

/// The name to ask the server for: that of `domain`, or a name for local tests if there is none.
pub fn server_name(domain: Option<String>) -> (name: String)
    ensures
        name@ == match domain {
            Some(domain) => domain@,
            None => "server4"@,
        },
{
    match domain {
        Some(domain) => domain,
        None => "server4".to_owned(),
    }
}

/// The name to ask the server of `url` for.
pub fn server_name_for(url: &str) -> (name: String)
    requires
        parsable(url@),
    ensures
        name@ == match url_domain(url@) {
            Some(domain) => domain,
            None => "server4"@,
        },
{
    server_name(domain_of(url))
}

/// The local address to bind to: any address of the family of the server's.
pub fn bind_address(is_ipv4: bool) -> (address: &'static str)
    ensures
        address@ == if is_ipv4 {
            "0.0.0.0:0"@
        } else {
            "[::]:0"@
        },
{
    if is_ipv4 {
        "0.0.0.0:0"
    } else {
        "[::]:0"
    }
}

/// The earlier one of two timeouts.
pub open spec fn first_timeout(conn: Option<Duration>, oack: Option<Duration>) -> Option<Duration> {
    match (conn, oack) {
        (Some(conn), Some(oack)) => if oack.nanos < conn.nanos {
            Some(oack)
        } else {
            Some(conn)
        },
        (Some(conn), None) => Some(conn),
        (None, oack) => oack,
    }
}

/// How long to wait for the network: until the first timeout of the connection or of the
/// acknowledgments.
pub fn next_timeout(conn: Option<Duration>, oack: Option<Duration>) -> (timeout: Option<Duration>)
    ensures
        timeout == first_timeout(conn, oack),
{
    match (conn, oack) {
        (Some(conn), Some(oack)) => if oack.nanos < conn.nanos {
            Some(oack)
        } else {
            Some(conn)
        },
        (Some(conn), None) => Some(conn),
        (None, oack) => oack,
    }
}

/// What a client has done so far.
#[derive(Clone, Copy, Debug, PartialEq, Eq, Structural)]
pub struct Client {
    /// Whether to use HTTP/0.9 instead of HTTP/3.
    pub hq_interop: bool,

    /// Whether acknowledgments are sent opportunistically.
    pub do_oack: bool,

    /// Whether there is an HTTP/3 connection.
    pub h3_open: bool,

    /// Whether the request has been sent.
    pub req_sent: bool,

    /// The stream of the request.
    pub stream_id: u64,

    /// Whether higher flow control limits have been advertised.
    pub did_increase_max_data: bool,
}

/// What to do about the request.
#[derive(Clone, Copy, Debug, PartialEq, Eq, Structural)]
pub struct RequestPlan {
    /// Leave: the connection is closed.
    pub leave: bool,

    /// Send the HTTP/0.9 request.
    pub send_hq: bool,

    /// Open the HTTP/3 connection.
    pub open_h3: bool,

    /// Send the HTTP/3 request, on the connection that is open by then.
    pub send_h3: bool,
}

/// What an HTTP/3 connection reports.
#[derive(Clone, Copy, Debug, PartialEq, Eq, Structural)]
pub enum H3Event {
    /// The headers of a response.
    Headers,

    /// Data of a response.
    Data,

    /// The end of a response.
    Finished,

    /// The request was reset by the peer.
    Reset,

    /// The peer goes away.
    GoAway,

    /// There is nothing to report.
    Done,

    /// Something went wrong.
    Failed,
}

/// What to do about what an HTTP/3 connection reports.
#[derive(Clone, Copy, Debug, PartialEq, Eq, Structural)]
pub enum H3Action {
    /// Ask for the next report.
    Next,

    /// Read the data, and ask for the next report.
    ReadBody,

    /// Close the connection, and ask for the next report.
    Close,

    /// Stop asking.
    Stop,
}

/// The stream of the request, before one has been assigned.
pub const REQUEST_STREAM: u64 = 4;

impl Client {
    /// What to do about the request.
    pub open spec fn request_plan(self, established: bool, closed: bool) -> RequestPlan {
        let open_h3 = !closed && !self.hq_interop && established && !self.h3_open;
        RequestPlan {
            leave: closed,
            send_hq: !closed && self.hq_interop && established && !self.req_sent,
            open_h3,
            send_h3: !closed && !self.hq_interop && (self.h3_open || open_h3) && !self.req_sent,
        }
    }

    /// The client once it has done what was planned.
    pub open spec fn after_request(self, plan: RequestPlan) -> Client {
        Client {
            h3_open: self.h3_open || plan.open_h3,
            req_sent: self.req_sent || plan.send_hq || plan.send_h3,
            stream_id: if plan.send_hq {
                REQUEST_STREAM
            } else {
                self.stream_id
            },
            ..self
        }
    }

    /// Whether to advertise higher flow control limits.
    pub open spec fn limits_due(self, readable: bool) -> bool {
        readable && self.do_oack && !self.did_increase_max_data
    }

    /// The client once it has decided whether to advertise higher flow control limits.
    pub open spec fn after_limits(self, readable: bool) -> Client {
        Client {
            did_increase_max_data: self.did_increase_max_data || self.limits_due(readable),
            ..self
        }
    }

    /// What to do about what an HTTP/3 connection reports.
    pub open spec fn h3_action(self, event: H3Event) -> H3Action {
        match event {
            H3Event::Headers => H3Action::Next,
            H3Event::Data => if self.do_oack {
                H3Action::Next
            } else {
                H3Action::ReadBody
            },
            H3Event::Finished => H3Action::Close,
            H3Event::Reset => H3Action::Close,
            H3Event::GoAway => H3Action::Next,
            H3Event::Done => H3Action::Stop,
            H3Event::Failed => H3Action::Stop,
        }
    }

    /// A client that has not done anything yet.
    pub fn new(hq_interop: bool, do_oack: bool) -> (client: Client)
        ensures
            client == (Client {
                hq_interop,
                do_oack,
                h3_open: false,
                req_sent: false,
                stream_id: REQUEST_STREAM,
                did_increase_max_data: false,
            }),
    {
        Client {
            hq_interop,
            do_oack,
            h3_open: false,
            req_sent: false,
            stream_id: REQUEST_STREAM,
            did_increase_max_data: false,
        }
    }

    /// Whether the acknowledgments have to be activated: once the connection is established.
    pub fn activates_oack(&self, established: bool, active: bool) -> (activate: bool)
        ensures
            activate == (established && !active),
    {
        established && !active
    }

    /// Decides what to do about the request. It is sent once, when the connection is established.
    pub fn next_request(&mut self, established: bool, closed: bool) -> (plan: RequestPlan)
        ensures
            plan == old(self).request_plan(established, closed),
            *final(self) == old(self).after_request(plan),
    {
        let mut plan = RequestPlan {
            leave: false,
            send_hq: false,
            open_h3: false,
            send_h3: false,
        };
        if closed {
            plan.leave = true;
        } else if self.hq_interop {
            if established && !self.req_sent {
                plan.send_hq = true;
                self.req_sent = true;
                self.stream_id = REQUEST_STREAM;
            }
        } else {
            if established && !self.h3_open {
                plan.open_h3 = true;
                self.h3_open = true;
            }
            if self.h3_open && !self.req_sent {
                plan.send_h3 = true;
                self.req_sent = true;
            }
        }
        plan
    }

    /// Takes note of the stream that has been assigned to the request.
    pub fn on_request_stream(&mut self, stream_id: u64)
        ensures
            *final(self) == (Client { stream_id, ..*old(self) }),
    {
        self.stream_id = stream_id;
    }

    /// Decides what to do about what the HTTP/3 connection reports. Data is left unread where
    /// acknowledgments are sent opportunistically.
    pub fn on_h3_event(&self, event: H3Event) -> (action: H3Action)
        ensures
            action == self.h3_action(event),
    {
        match event {
            H3Event::Headers => H3Action::Next,
            H3Event::Data => if self.do_oack {
                H3Action::Next
            } else {
                H3Action::ReadBody
            },
            H3Event::Finished => H3Action::Close,
            H3Event::Reset => H3Action::Close,
            H3Event::GoAway => H3Action::Next,
            H3Event::Done => H3Action::Stop,
            H3Event::Failed => H3Action::Stop,
        }
    }

    /// Whether to advertise higher flow control limits: once, when the stream of the request becomes
    /// readable and acknowledgments are sent opportunistically.
    pub fn raises_limits(&mut self, readable: bool) -> (raise: bool)
        ensures
            raise == old(self).limits_due(readable),
            *final(self) == old(self).after_limits(readable),
    {
        if readable && self.do_oack && !self.did_increase_max_data {
            self.did_increase_max_data = true;
            return true;
        }
        false
    }
}

} // verus!
