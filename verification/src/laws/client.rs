//! What a client decides, and what it sends.
use crate::client::{
    after_slashes, are_request_headers, authority, authority_len, ends_authority, first_timeout,
    full_path, host_len, host_part, hq_text, in_brackets, is_label, label_fits,
    labels_fit, lower, parsable, passed_over, precedes_host, scheme_len, scheme_name,
    userinfo_len, Client, H3Action, H3Event, REQUEST_STREAM,
};
use crate::connection::ConnectionView;
use crate::packet::SpaceView;
use crate::text::Header;
use crate::time::Duration;
use vstd::prelude::*;
use vstd::utf8::encode_utf8;

verus! {

/// The client waits for whatever comes first, and without end if nothing does.
pub proof fn earlier_timeout_comes_first(conn: Option<Duration>, oack: Option<Duration>)
    ensures
        ({
            let first = first_timeout(conn, oack);
            &&& first is None <==> conn is None && oack is None
            &&& first is Some ==> first == conn || first == oack
            &&& conn is Some ==> first->0.nanos <= conn->0.nanos
            &&& oack is Some ==> first->0.nanos <= oack->0.nanos
        }),
{
}

/// A client leaves when its connection is closed, and does nothing else. Otherwise it sends its
/// request, if it has not done so: over HTTP/0.9 once the connection is established, or over HTTP/3,
/// whose connection it opens first if that is not open.
pub proof fn request_goes_out_when_established(client: Client, established: bool, closed: bool)
    ensures
        ({
            let plan = client.request_plan(established, closed);
            let after = client.after_request(plan);
            &&& plan.leave <==> closed
            &&& closed ==> !plan.send_hq && !plan.open_h3 && !plan.send_h3
            &&& !closed && client.hq_interop ==> {
                &&& plan.send_hq <==> established && !client.req_sent
                &&& !plan.open_h3 && !plan.send_h3
            }
            &&& !closed && !client.hq_interop ==> {
                &&& plan.open_h3 <==> established && !client.h3_open
                &&& plan.send_h3 <==> (established || client.h3_open) && !client.req_sent
                &&& !plan.send_hq
            }
            &&& after.h3_open <==> client.h3_open || plan.open_h3
            &&& after.req_sent <==> client.req_sent || plan.send_hq || plan.send_h3
            &&& plan.send_hq ==> after.stream_id == 4
            &&& !plan.send_hq ==> after.stream_id == client.stream_id
            &&& after == Client {
                h3_open: after.h3_open,
                req_sent: after.req_sent,
                stream_id: after.stream_id,
                ..client
            }
        }),
        REQUEST_STREAM == 4,
{
}

/// Higher limits are due when the stream of the request is readable, acknowledgments are sent
/// opportunistically and the limits have not been raised. Only that is noted.
pub proof fn limits_are_due_once_readable(client: Client, readable: bool)
    ensures
        ({
            let after = client.after_limits(readable);
            &&& client.limits_due(readable) <==> readable && client.do_oack
                && !client.did_increase_max_data
            &&& after.did_increase_max_data <==> client.did_increase_max_data || (readable
                && client.do_oack)
            &&& after == Client { did_increase_max_data: after.did_increase_max_data, ..client }
            &&& readable ==> !after.limits_due(true)
        }),
{
}

/// The connection is closed at the end of a response and when it is reset, and nothing more is asked
/// for once there is nothing or something went wrong. Data is read if and only if acknowledgments are
/// not sent opportunistically.
pub proof fn reports_are_followed(client: Client, event: H3Event)
    ensures
        ({
            let action = client.h3_action(event);
            &&& action == H3Action::Close <==> event == H3Event::Finished || event == H3Event::Reset
            &&& action == H3Action::Stop <==> event == H3Event::Done || event == H3Event::Failed
            &&& action == H3Action::ReadBody <==> event == H3Event::Data && !client.do_oack
        }),
{
}

/// The path of a request is that of the URL. A query follows it after a question mark.
pub proof fn query_follows_the_path(path: Seq<char>, query: Seq<char>)
    ensures
        full_path(path, None) == path,
        ({
            let full = full_path(path, Some(query));
            &&& full.len() == path.len() + 1 + query.len()
            &&& full.take(path.len() as int) == path
            &&& full[path.len() as int] == '?'
            &&& full.skip(path.len() as int + 1) == query
        }),
{
    reveal_strlit("?");
    let full = full_path(path, Some(query));
    assert(full.take(path.len() as int) =~= path);
    assert(full.skip(path.len() as int + 1) =~= query);
}

/// An HTTP/0.9 request is one line: the method, a blank and the path, ended by a carriage return and
/// a line feed.
pub proof fn hq_request_is_one_line(path: Seq<char>)
    ensures
        hq_text(path) == seq!['G', 'E', 'T', ' '] + path + seq!['\r', '\n'],
{
    reveal_strlit("GET ");
    reveal_strlit("\r\n");
    assert("GET "@ =~= seq!['G', 'E', 'T', ' ']);
    assert("\r\n"@ =~= seq!['\r', '\n']);
}

/// An HTTP/3 request has five headers: the method, the three parts of the URL in their order, and
/// who asks.
pub proof fn request_has_its_headers(
    headers: Seq<Header>,
    scheme: Seq<char>,
    host: Seq<char>,
    path: Seq<char>,
)
    ensures
        are_request_headers(headers, scheme, host, path) <==> {
            &&& headers.len() == 5
            &&& headers[0].name@ == encode_utf8(":method"@) && headers[0].value@ == encode_utf8(
                "GET"@,
            )
            &&& headers[1].name@ == encode_utf8(":scheme"@) && headers[1].value@ == encode_utf8(
                scheme,
            )
            &&& headers[2].name@ == encode_utf8(":authority"@) && headers[2].value@ == encode_utf8(
                host,
            )
            &&& headers[3].name@ == encode_utf8(":path"@) && headers[3].value@ == encode_utf8(path)
            &&& headers[4].name@ == encode_utf8("user-agent"@) && headers[4].value@ == encode_utf8(
                "quiche"@,
            )
        },
{
}

/// Enabling opportunistic acknowledgments starts the logs of the handshake and application spaces
/// anew and keeps the factor. Nothing else changes.
pub proof fn enabling_starts_the_logs(conn: ConnectionView, factor: u64)
    ensures
        ({
            let after = conn.after_enabling(factor);
            &&& after.oack_scaling_factor == Some(factor)
            &&& after.pkt_num_spaces.initial == conn.pkt_num_spaces.initial
            &&& after.pkt_num_spaces.handshake == SpaceView {
                oack_new_recv_pn: Some(Set::empty()),
                ..conn.pkt_num_spaces.handshake
            }
            &&& after.pkt_num_spaces.application == SpaceView {
                oack_new_recv_pn: Some(Set::empty()),
                ..conn.pkt_num_spaces.application
            }
            &&& after == ConnectionView {
                oack_scaling_factor: after.oack_scaling_factor,
                pkt_num_spaces: after.pkt_num_spaces,
                ..conn
            }
        }),
{
}

/// Higher limits are advertised for the connection and for one stream, if the packet numbers of the
/// application space are logged. Otherwise nothing changes.
pub proof fn higher_limits_are_scheduled(conn: ConnectionView, stream_id: u64, factor: u64)
    ensures
        conn.pkt_num_spaces.application.oack_new_recv_pn is None ==> conn.after_new_max_data(
            stream_id,
        ) == conn,
        conn.pkt_num_spaces.application.oack_new_recv_pn is Some ==> {
            let after = conn.after_new_max_data(stream_id);
            &&& after.almost_full
            &&& after.almost_full_streams.contains(stream_id)
            &&& forall|id: u64|
                id != stream_id ==> (#[trigger] after.almost_full_streams.contains(id)
                    <==> conn.almost_full_streams.contains(id))
            &&& after == ConnectionView {
                almost_full: true,
                almost_full_streams: after.almost_full_streams,
                ..conn
            }
        },
        conn.after_enabling(factor).after_new_max_data(stream_id).almost_full,
{
}

/// A letter from `A` to `Z` is lowered to the one at its place from `a` to `z`. Other characters stay
/// as they are.
pub proof fn letters_are_lowered(c: char)
    ensures
        'A' <= c && c <= 'Z' ==> lower(c) as int - 'a' as int == c as int - 'A' as int,
        c < 'A' || c > 'Z' ==> lower(c) == c,
{
}

/// A label is too long with more than 214 characters if there is one in it that is not ASCII, or a
/// percent sign, and with more than 3855 if it begins like an encoded one or holds a character that
/// is passed over. Any other label is not.
pub proof fn only_long_labels_do_not_fit(label: Seq<char>)
    ensures
        label_fits(label) <==> {
            &&& (exists|k: int|
                0 <= k < label.len() && (#[trigger] label[k] > '\x7f' || label[k] == '%'))
                ==> label.len() <= 214
            &&& (label.len() >= 4 && (label[0] == 'x' || label[0] == 'X') && (label[1] == 'n'
                || label[1] == 'N') && label[2] == '-' && label[3] == '-') || (exists|k: int|
                0 <= k < label.len() && (#[trigger] label[k] == '\t' || label[k] == '\n'
                    || label[k] == '\r')) ==> label.len() <= 3855
        },
{
    if label.len() >= 4 {
        letters_are_lowered(label[0]);
        letters_are_lowered(label[1]);
    }
    assert(forall|k: int|
        0 <= k < label.len() ==> (passed_over(#[trigger] label[k]) <==> label[k] == '\t' || label[k]
            == '\n' || label[k] == '\r'));
}

/// A host without a dot is one label, and a dot divides a host into two that are judged apart.
pub proof fn labels_are_judged_apart(host: Seq<char>, rest: Seq<char>)
    requires
        forall|k: int| 0 <= k < host.len() ==> #[trigger] host[k] != '.',
    ensures
        labels_fit(host) <==> label_fits(host),
        labels_fit(host + seq!['.'] + rest) <==> label_fits(host) && labels_fit(rest),
{
    assert(is_label(host, 0, host.len() as int));
    assert(host.subrange(0, host.len() as int) =~= host);
    assert forall|i: int, j: int| #[trigger] is_label(host, i, j) implies i == 0 && j
        == host.len() by {
        if i > 0 {
            assert(host[i - 1] != '.');
        }
        if j < host.len() {
            assert(host[j] != '.');
        }
    }
    let all = host + seq!['.'] + rest;
    let n = host.len() as int;
    assert(all[n] == '.');
    assert(forall|k: int| 0 <= k < n ==> all[k] == host[k]);
    assert(forall|k: int| n < k < all.len() ==> all[k] == rest[k - n - 1]);
    assert(is_label(all, 0, n));
    assert(all.subrange(0, n) =~= host);
    assert forall|i: int, j: int| #[trigger] is_label(all, i, j) implies (i == 0 && j == n) || (i
        > n && is_label(rest, i - n - 1, j - n - 1)) by {
        if i > n {
            assert forall|k: int| i - n - 1 <= k < j - n - 1 implies #[trigger] rest[k] != '.' by {
                assert(all[k + n + 1] != '.');
            }
            if j < all.len() {
                assert(rest[j - n - 1] == all[j]);
            }
            if i - n - 1 > 0 {
                assert(rest[i - n - 2] == all[i - 1]);
            }
        } else {
            if i > 0 {
                assert(all[i - 1] == host[i - 1]);
                assert(host[i - 1] != '.');
            }
            if j > n {
                assert(all[n] != '.');
            }
            if j < n {
                assert(all[j] == host[j]);
                assert(host[j] != '.');
            }
        }
    }
    assert forall|i: int, j: int| #[trigger] is_label(rest, i, j) implies is_label(
        all,
        i + n + 1,
        j + n + 1,
    ) && all.subrange(i + n + 1, j + n + 1) == rest.subrange(i, j) by {
        assert forall|k: int| i + n + 1 <= k < j + n + 1 implies #[trigger] all[k] != '.' by {
            assert(rest[k - n - 1] != '.');
        }
        if i > 0 {
            assert(all[i + n] == rest[i - 1]);
        }
        if j < rest.len() {
            assert(all[j + n + 1] == rest[j]);
        }
        assert(all.subrange(i + n + 1, j + n + 1) =~= rest.subrange(i, j));
    }
    if label_fits(host) && labels_fit(rest) {
        assert forall|i: int, j: int| #[trigger] is_label(all, i, j) implies label_fits(
            all.subrange(i, j),
        ) by {
            if i > n {
                assert(is_label(rest, i - n - 1, j - n - 1));
                assert(all.subrange(i, j) =~= rest.subrange(i - n - 1, j - n - 1));
            }
        }
    }
    if labels_fit(all) {
        assert forall|i: int, j: int| #[trigger] is_label(rest, i, j) implies label_fits(
            rest.subrange(i, j),
        ) by {
            assert(is_label(all, i + n + 1, j + n + 1));
        }
    }
}

/// The host of a URL is no longer than the URL.
proof fn lemma_host_is_within(url: Seq<char>)
    ensures
        host_part(url).len() <= url.len(),
{
    lemma_scheme_is_within(url);
    if scheme_len(url) < url.len() {
        let tail = url.skip(scheme_len(url) + 1);
        lemma_slashes_are_within(tail);
        lemma_authority_is_within(after_slashes(tail));
    }
    let all = authority(url);
    lemma_userinfo_is_within(all);
    let rest = all.skip(userinfo_len(all));
    lemma_host_len_is_within(rest, false);
}

/// The scheme of a URL ends within the URL.
proof fn lemma_scheme_is_within(url: Seq<char>)
    ensures
        0 <= scheme_len(url) <= url.len(),
    decreases url.len(),
{
    if url.len() > 0 && url[0] != ':' {
        lemma_scheme_is_within(url.skip(1));
    }
}

/// What follows slashes is no longer than all.
proof fn lemma_slashes_are_within(text: Seq<char>)
    ensures
        after_slashes(text).len() <= text.len(),
    decreases text.len(),
{
    if text.len() > 0 && precedes_host(text[0]) {
        lemma_slashes_are_within(text.skip(1));
    }
}

/// An authority ends within the text.
proof fn lemma_authority_is_within(text: Seq<char>)
    ensures
        0 <= authority_len(text) <= text.len(),
    decreases text.len(),
{
    if text.len() > 0 && !ends_authority(text[0]) {
        lemma_authority_is_within(text.skip(1));
    }
}

/// User information ends within the authority.
proof fn lemma_userinfo_is_within(text: Seq<char>)
    ensures
        0 <= userinfo_len(text) <= text.len(),
    decreases text.len(),
{
    if text.len() > 0 && text.last() != '@' {
        lemma_userinfo_is_within(text.drop_last());
    }
}

/// A host ends within the text.
proof fn lemma_host_len_is_within(text: Seq<char>, bracketed: bool)
    ensures
        0 <= host_len(text, bracketed) <= text.len(),
    decreases text.len(),
{
    if text.len() > 0 && !(text[0] == ':' && !bracketed) {
        lemma_host_len_is_within(text.skip(1), in_brackets(text[0], bracketed));
    }
}

/// Every text of up to 214 characters can be parsed, and none of more than 0x7fff_ffff.
pub proof fn short_texts_can_be_parsed(url: Seq<char>)
    ensures
        url.len() <= 214 ==> parsable(url),
        url.len() > 0x7fff_ffff ==> !parsable(url),
{
    lemma_host_is_within(url);
    let host = host_part(url);
    if url.len() <= 214 {
        assert forall|i: int, j: int| #[trigger] is_label(host, i, j) implies label_fits(
            host.subrange(i, j),
        ) by {
            assert(host.subrange(i, j).len() <= 214);
        }
    }
}

/// A text that is not too long can be parsed if and only if the labels of its host fit, or its
/// scheme is none of those whose hosts are domains.
pub proof fn hosts_decide_about_domains(url: Seq<char>, name: Seq<char>)
    requires
        url.len() <= 0x7fff_ffff,
        name == scheme_name(url.take(scheme_len(url))),
    ensures
        ({
            let domain = name == "http"@ || name == "https"@ || name == "ws"@ || name == "wss"@
                || name == "ftp"@ || name == "gopher"@ || name == "file"@;
            parsable(url) <==> domain ==> labels_fit(host_part(url))
        }),
{
}

/// A scheme is named by its characters beyond the blank, in lower case.
pub proof fn scheme_is_named_in_lower_case(scheme: Seq<char>, c: char)
    ensures
        scheme_name(Seq::empty()) == Seq::<char>::empty(),
        c <= ' ' ==> scheme_name(scheme.push(c)) == scheme_name(scheme),
        c > ' ' ==> scheme_name(scheme.push(c)) == scheme_name(scheme).push(lower(c)),
{
    assert(scheme.push(c).drop_last() =~= scheme);
}

/// The host of a URL stands between what precedes it, which ends with the last `@` where there is
/// one, and what follows it, from the colon of a port or the end of the authority on.
pub proof fn host_is_found(
    scheme: Seq<char>,
    slashes: Seq<char>,
    user: Seq<char>,
    host: Seq<char>,
    port: Seq<char>,
    tail: Seq<char>,
)
    requires
        forall|k: int| 0 <= k < scheme.len() ==> #[trigger] scheme[k] != ':',
        scheme_name(scheme) != "file"@,
        forall|k: int|
            0 <= k < slashes.len() ==> (#[trigger] slashes[k] == '/' || slashes[k] == '\\'
                || slashes[k] == '\t' || slashes[k] == '\n' || slashes[k] == '\r'),
        forall|k: int|
            #![trigger (user + host + port)[k]]
            0 <= k < (user + host + port).len() ==> {
                let c = (user + host + port)[k];
                c != '/' && c != '\\' && c != '?' && c != '#' && c != '\t' && c != '\n' && c != '\r'
            },
        user.len() > 0 ==> user.last() == '@',
        forall|k: int| 0 <= k < host.len() ==> (#[trigger] host[k] != ':' && host[k] != '['),
        forall|k: int| 0 <= k < (host + port).len() ==> #[trigger] (host + port)[k] != '@',
        port.len() > 0 ==> port[0] == ':',
        tail.len() > 0 ==> tail[0] == '/' || tail[0] == '\\' || tail[0] == '?' || tail[0] == '#',
        (user + host + port).len() > 0 || slashes.len() > 0,
        (user + host + port).len() == 0 ==> tail.len() == 0 || tail[0] == '?' || tail[0] == '#',
    ensures
        host_part(scheme + seq![':'] + slashes + user + host + port + tail) == host,
{
    let all = user + host + port;
    let url = scheme + seq![':'] + slashes + user + host + port + tail;
    assert(url =~= scheme + (seq![':'] + (slashes + (all + tail))));
    lemma_scheme_ends(scheme, seq![':'] + (slashes + (all + tail)));
    assert(url.skip(scheme_len(url) + 1) =~= slashes + (all + tail));
    assert(url.take(scheme_len(url)) =~= scheme);
    if all.len() > 0 {
        assert((all + tail)[0] == all[0]);
    }
    lemma_slashes_end(slashes, all + tail);
    lemma_authority_ends(all, tail);
    assert((all + tail).take(all.len() as int) =~= all);
    assert(authority(url) == all);
    assert(all =~= user + (host + port));
    lemma_userinfo_ends(user, host + port);
    assert(all.skip(user.len() as int) =~= host + port);
    lemma_host_ends(host, port);
    assert((host + port).take(host.len() as int) =~= host);
}

/// The host of a URL of a file is everything up to the end of the authority.
pub proof fn host_of_a_file_is_the_authority(
    scheme: Seq<char>,
    slashes: Seq<char>,
    all: Seq<char>,
    tail: Seq<char>,
)
    requires
        forall|k: int| 0 <= k < scheme.len() ==> #[trigger] scheme[k] != ':',
        scheme_name(scheme) == "file"@,
        forall|k: int|
            0 <= k < slashes.len() ==> (#[trigger] slashes[k] == '/' || slashes[k] == '\\'
                || slashes[k] == '\t' || slashes[k] == '\n' || slashes[k] == '\r'),
        all.len() > 0,
        all[0] != '\t' && all[0] != '\n' && all[0] != '\r',
        forall|k: int|
            0 <= k < all.len() ==> (#[trigger] all[k] != '/' && all[k] != '\\' && all[k] != '?'
                && all[k] != '#'),
        tail.len() > 0 ==> tail[0] == '/' || tail[0] == '\\' || tail[0] == '?' || tail[0] == '#',
    ensures
        host_part(scheme + seq![':'] + slashes + all + tail) == all,
{
    let url = scheme + seq![':'] + slashes + all + tail;
    assert(url =~= scheme + (seq![':'] + (slashes + (all + tail))));
    lemma_scheme_ends(scheme, seq![':'] + (slashes + (all + tail)));
    assert(url.skip(scheme_len(url) + 1) =~= slashes + (all + tail));
    assert(url.take(scheme_len(url)) =~= scheme);
    assert((all + tail)[0] == all[0]);
    lemma_slashes_end(slashes, all + tail);
    lemma_authority_ends(all, tail);
    assert((all + tail).take(all.len() as int) =~= all);
}

/// A colon inside square brackets does not end a host, and the first one behind them does.
pub proof fn brackets_hold_colons(inner: Seq<char>, port: Seq<char>)
    requires
        forall|k: int| 0 <= k < inner.len() ==> #[trigger] inner[k] != ']',
        port.len() > 0 ==> port[0] == ':',
    ensures
        host_len(seq!['['] + inner + seq![']'] + port, false) == inner.len() + 2,
{
    let text = seq!['['] + inner + seq![']'] + port;
    assert(text.skip(1) =~= inner + (seq![']'] + port));
    lemma_brackets_end(inner, port);
}

/// Brackets end with the first one that closes them.
proof fn lemma_brackets_end(inner: Seq<char>, port: Seq<char>)
    requires
        forall|k: int| 0 <= k < inner.len() ==> #[trigger] inner[k] != ']',
        port.len() > 0 ==> port[0] == ':',
    ensures
        host_len(inner + (seq![']'] + port), true) == inner.len() + 1,
    decreases inner.len(),
{
    let text = inner + (seq![']'] + port);
    if inner.len() == 0 {
        assert(text[0] == ']');
        assert(text.skip(1) =~= port);
        assert(host_len(port, false) == 0);
    } else {
        assert(text[0] == inner[0]);
        assert(text.skip(1) =~= inner.skip(1) + (seq![']'] + port));
        lemma_brackets_end(inner.skip(1), port);
    }
}

/// A scheme ends at the first colon.
proof fn lemma_scheme_ends(scheme: Seq<char>, rest: Seq<char>)
    requires
        forall|k: int| 0 <= k < scheme.len() ==> #[trigger] scheme[k] != ':',
        rest.len() > 0,
        rest[0] == ':',
    ensures
        scheme_len(scheme + rest) == scheme.len(),
    decreases scheme.len(),
{
    if scheme.len() == 0 {
        assert(scheme + rest =~= rest);
    } else {
        assert((scheme + rest)[0] == scheme[0]);
        assert((scheme + rest).skip(1) =~= scheme.skip(1) + rest);
        lemma_scheme_ends(scheme.skip(1), rest);
    }
}

/// Slashes end at the first character that is none.
proof fn lemma_slashes_end(slashes: Seq<char>, rest: Seq<char>)
    requires
        forall|k: int|
            0 <= k < slashes.len() ==> (#[trigger] slashes[k] == '/' || slashes[k] == '\\'
                || slashes[k] == '\t' || slashes[k] == '\n' || slashes[k] == '\r'),
        rest.len() > 0 ==> !precedes_host(rest[0]),
    ensures
        after_slashes(slashes + rest) == rest,
    decreases slashes.len(),
{
    if slashes.len() == 0 {
        assert(slashes + rest =~= rest);
    } else {
        assert((slashes + rest)[0] == slashes[0]);
        assert((slashes + rest).skip(1) =~= slashes.skip(1) + rest);
        lemma_slashes_end(slashes.skip(1), rest);
    }
}

/// An authority ends at the first character that ends it.
proof fn lemma_authority_ends(all: Seq<char>, tail: Seq<char>)
    requires
        forall|k: int| 0 <= k < all.len() ==> !ends_authority(#[trigger] all[k]),
        tail.len() > 0 ==> ends_authority(tail[0]),
    ensures
        authority_len(all + tail) == all.len(),
    decreases all.len(),
{
    if all.len() == 0 {
        assert(all + tail =~= tail);
    } else {
        assert((all + tail)[0] == all[0]);
        assert((all + tail).skip(1) =~= all.skip(1) + tail);
        lemma_authority_ends(all.skip(1), tail);
    }
}

/// User information ends after the last `@`.
proof fn lemma_userinfo_ends(user: Seq<char>, rest: Seq<char>)
    requires
        user.len() > 0 ==> user.last() == '@',
        forall|k: int| 0 <= k < rest.len() ==> #[trigger] rest[k] != '@',
    ensures
        userinfo_len(user + rest) == user.len(),
    decreases rest.len(),
{
    if rest.len() == 0 {
        assert(user + rest =~= user);
    } else {
        assert(rest[rest.len() - 1] != '@');
        assert((user + rest).drop_last() =~= user + rest.drop_last());
        lemma_userinfo_ends(user, rest.drop_last());
    }
}

/// A host ends at the first colon.
proof fn lemma_host_ends(host: Seq<char>, port: Seq<char>)
    requires
        forall|k: int| 0 <= k < host.len() ==> (#[trigger] host[k] != ':' && host[k] != '['),
        port.len() > 0 ==> port[0] == ':',
    ensures
        host_len(host + port, false) == host.len(),
    decreases host.len(),
{
    if host.len() == 0 {
        assert(host + port =~= port);
    } else {
        assert((host + port)[0] == host[0]);
        assert((host + port).skip(1) =~= host.skip(1) + port);
        lemma_host_ends(host.skip(1), port);
    }
}

} // verus!
