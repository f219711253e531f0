//! What the mote sends to the server: the server's address read from its
//! configured text, the JSON body of a reading, and the HTTP request that
//! posts that body to `/api/data`.
use vstd::prelude::*;
use vstd::string::StringSliceAdditionalSpecFns;
use crate::text::{
    decimal, lemma_decimal_has_no, lemma_parse_decimal_roundtrip, lemma_split_state_append,
    lemma_split_state_sep, is_digit, parse_bounded, parse_decimal, parse_unsigned, push_all,
    push_decimal, split_on, split_on_byte, split_state,
};

verus! {

/// The ASCII code of `'.'`, which separates the parts of an IPv4 address.
pub const ASCII_DOT: u8 = 46;

/// The ASCII code of `':'`.
pub const ASCII_COLON: u8 = 58;

/// The server that the mote posts its readings to.
#[derive(Clone, Copy, Debug, PartialEq, Eq)]
pub struct ServerEndpoint {
    /// The four parts of the server's IPv4 address, most significant first.
    pub ip: [u8; 4],
    /// The server's TCP port.
    pub port: u16,
}

/// The dotted-decimal text of an IPv4 address, as `a.b.c.d`.
pub open spec fn ipv4_text(ip: Seq<u8>) -> Seq<u8> {
    decimal(ip[0] as nat) + seq![ASCII_DOT] + decimal(ip[1] as nat) + seq![ASCII_DOT] + decimal(
        ip[2] as nat,
    ) + seq![ASCII_DOT] + decimal(ip[3] as nat)
}

/// The IPv4 address that a dotted text names: four parts separated by `.`,
/// each the text of a `u8` as `str::parse::<u8>` reads it; `None` otherwise.
pub open spec fn parse_ipv4(s: Seq<u8>) -> Option<Seq<u8>> {
    let parts = split_on(s, ASCII_DOT);
    if parts.len() == 4 && (forall|i: int|
        0 <= i < 4 ==> (#[trigger] parse_bounded(parts[i], 255)) is Some) {
        Some(Seq::new(4, |i: int| parse_bounded(parts[i], 255)->0 as u8))
    } else {
        None
    }
}

/// The port that a text names, as `str::parse::<u16>` reads it.
pub open spec fn parse_port(s: Seq<u8>) -> Option<nat> {
    parse_bounded(s, 65535)
}

/// Reads an IPv4 address from its dotted text: `None` exactly where the text
/// is not four parts separated by `.`, each of which `str::parse::<u8>` accepts.
pub fn parse_ipv4_address(ip_text: &[u8]) -> (r: Option<[u8; 4]>)
    ensures
        match r {
            Some(ip) => parse_ipv4(ip_text@) == Some(ip@),
            None => parse_ipv4(ip_text@) is None,
        },
{
    let parts = split_on_byte(ip_text, ASCII_DOT);
    let ghost pv = parts.deep_view();
    if parts.len() != 4 {
        return None;
    }
    let mut ip: [u8; 4] = [0u8; 4];
    let mut k: usize = 0;
    while k < 4
        invariant
            k <= 4,
            parts.len() == 4,
            pv == parts.deep_view(),
            pv == split_on(ip_text@, ASCII_DOT),
            forall|j: int| 0 <= j < k ==> parse_bounded(pv[j], 255) == Some(#[trigger] ip@[j] as nat),
        decreases 4 - k,
    {
        assert(parts[k as int]@ =~= pv[k as int]);
        match parse_decimal(parts[k].as_slice(), 255) {
            Some(v) => {
                ip[k] = v as u8;
            },
            None => {
                assert(!(forall|i: int| 0 <= i < 4 ==> (#[trigger] parse_bounded(pv[i], 255)) is Some));
                return None;
            },
        }
        k = k + 1;
    }
    assert forall|i: int| 0 <= i < 4 implies (#[trigger] parse_bounded(pv[i], 255)) is Some by {
        assert(parse_bounded(pv[i], 255) == Some(ip@[i] as nat));
    }
    assert(Seq::new(4, |i: int| parse_bounded(pv[i], 255)->0 as u8) =~= ip@);
    Some(ip)
}

/// Reads a TCP port from its text: `None` exactly where `str::parse::<u16>` rejects it.
pub fn parse_port_number(port_text: &[u8]) -> (r: Option<u16>)
    ensures
        match r {
            Some(p) => parse_port(port_text@) == Some(p as nat),
            None => parse_port(port_text@) is None,
        },
{
    match parse_decimal(port_text, 65535) {
        Some(p) => Some(p as u16),
        None => None,
    }
}

/// The server's address and port, read from their configured texts. The address
/// text must be four parts separated by `.`, each a `u8`, and the port text a
/// `u16`, as `str::parse` reads them (see `parse_ipv4_address`, `parse_port_number`).
pub fn get_server_ip_address_and_port(ip_text: &[u8], port_text: &[u8]) -> (e: ServerEndpoint)
    requires
        parse_ipv4(ip_text@) is Some,
        parse_port(port_text@) is Some,
    ensures
        parse_ipv4(ip_text@) == Some(e.ip@),
        parse_port(port_text@) == Some(e.port as nat),
{
    let ip = match parse_ipv4_address(ip_text) {
        Some(ip) => ip,
        None => [0u8; 4],
    };
    let port = match parse_port_number(port_text) {
        Some(p) => p,
        None => 0,
    };
    ServerEndpoint { ip, port }
}

/// Appends the dotted-decimal text of `ip` to `out`.
pub fn push_ipv4_text(out: &mut Vec<u8>, ip: &[u8; 4])
    ensures
        final(out)@ == old(out)@ + ipv4_text(ip@),
{
    push_decimal(out, ip[0] as u64);
    out.push(ASCII_DOT);
    push_decimal(out, ip[1] as u64);
    out.push(ASCII_DOT);
    push_decimal(out, ip[2] as u64);
    out.push(ASCII_DOT);
    push_decimal(out, ip[3] as u64);
    assert(final(out)@ =~= old(out)@ + ipv4_text(ip@));
}

/// The request line of the post and the start of its `Host` header.
pub open spec fn request_head() -> Seq<u8> {
    "POST /api/data HTTP/1.1\r\nHost:".spec_bytes()
}

/// The headers between the `Host` header's value and the content length.
pub open spec fn request_fixed_headers() -> Seq<u8> {
    "\r\nConnection: close\r\nContent-Type: application/json\r\nContent-Length: ".spec_bytes()
}

/// The end of the headers: the end of the content-length line and an empty line.
pub open spec fn request_headers_end() -> Seq<u8> {
    "\r\n\r\n".spec_bytes()
}

/// What the request carries after its body.
pub open spec fn request_trailer() -> Seq<u8> {
    "\n    \r\n".spec_bytes()
}

/// The headers of the post of a body of `body_len` bytes to `server`, up to and including
/// the empty line that ends them.
pub open spec fn post_headers(server: ServerEndpoint, body_len: nat) -> Seq<u8> {
    request_head() + ipv4_text(server.ip@) + seq![ASCII_COLON] + decimal(server.port as nat)
        + request_fixed_headers() + decimal(body_len) + request_headers_end()
}

/// The HTTP/1.1 request that posts `body` as JSON to `/api/data` on `server`:
/// its `Host` header names the server as `a.b.c.d:port`, its `Content-Length`
/// is the body's length in bytes, and the body is followed by a line feed,
/// four spaces and a CRLF.
pub open spec fn post_request(server: ServerEndpoint, body: Seq<u8>) -> Seq<u8> {
    post_headers(server, body.len()) + body + request_trailer()
}

/// Builds the request that posts `body` to the server (the bytes that `send_post` writes).
pub fn build_post_request(server: &ServerEndpoint, body: &[u8]) -> (req: Vec<u8>)
    ensures
        req@ == post_request(*server, body@),
{
    let mut req: Vec<u8> = Vec::new();
    push_all(&mut req, "POST /api/data HTTP/1.1\r\nHost:".as_bytes());
    push_ipv4_text(&mut req, &server.ip);
    req.push(ASCII_COLON);
    push_decimal(&mut req, server.port as u64);
    push_all(
        &mut req,
        "\r\nConnection: close\r\nContent-Type: application/json\r\nContent-Length: ".as_bytes(),
    );
    push_decimal(&mut req, body.len() as u64);
    push_all(&mut req, "\r\n\r\n".as_bytes());
    push_all(&mut req, body);
    push_all(&mut req, "\n    \r\n".as_bytes());
    assert(req@ =~= post_request(*server, body@));
    req
}

/// The JSON text that the mote posts for one reading. The room's name is
/// written between quotes as it is given, without escaping.
pub open spec fn reading_json(room: Seq<u8>, eco2: u16, tvoc: u16) -> Seq<u8> {
    "{\r\n\"room\": \"".spec_bytes() + room + "\",\r\n\"eco2\": ".spec_bytes() + decimal(
        eco2 as nat,
    ) + ",\r\n\"tvoc\": ".spec_bytes() + decimal(tvoc as nat) + "\r\n}".spec_bytes()
}

/// Whether `body` is the JSON text of the reading (`room`, `eco2`, `tvoc`), read
/// field by field: it opens with `{` and the `room` key, then holds all of `room`
/// unchanged, then the `eco2` key and a decimal that reads back as `eco2`, then the
/// `tvoc` key and a decimal that reads back as `tvoc`, then closes.
pub open spec fn carries_reading(body: Seq<u8>, room: Seq<u8>, eco2: u16, tvoc: u16) -> bool {
    let p = "{\r\n\"room\": \"".spec_bytes();
    let m = "\",\r\n\"eco2\": ".spec_bytes();
    let n = ",\r\n\"tvoc\": ".spec_bytes();
    let q = "\r\n}".spec_bytes();
    let r = p.len() + room.len();
    let e = r + m.len();
    let e_end = e + decimal(eco2 as nat).len();
    let t = e_end + n.len();
    let t_end = t + decimal(tvoc as nat).len();
    &&& body.len() == t_end + q.len()
    &&& body.subrange(0, p.len() as int) == p
    &&& body.subrange(p.len() as int, r as int) == room
    &&& body.subrange(r as int, e as int) == m
    &&& parse_unsigned(body.subrange(e as int, e_end as int)) == Some(eco2 as nat)
    &&& body.subrange(e_end as int, t as int) == n
    &&& parse_unsigned(body.subrange(t as int, t_end as int)) == Some(tvoc as nat)
    &&& body.subrange(t_end as int, body.len() as int) == q
}

/// Law: the JSON body of a reading carries the whole room name, unchanged, and
/// the two values, each as a decimal that reads back as the value.
pub proof fn lemma_reading_json_carries_reading(room: Seq<u8>, eco2: u16, tvoc: u16)
    ensures
        carries_reading(reading_json(room, eco2, tvoc), room, eco2, tvoc),
{
    let p = "{\r\n\"room\": \"".spec_bytes();
    let m = "\",\r\n\"eco2\": ".spec_bytes();
    let n = ",\r\n\"tvoc\": ".spec_bytes();
    let q = "\r\n}".spec_bytes();
    let d1 = decimal(eco2 as nat);
    let d2 = decimal(tvoc as nat);
    let body = reading_json(room, eco2, tvoc);
    assert(body == p + room + m + d1 + n + d2 + q);
    let r = p.len() + room.len();
    let e = r + m.len();
    let e_end = e + d1.len();
    let t = e_end + n.len();
    let t_end = t + d2.len();
    assert(body.subrange(0, p.len() as int) =~= p);
    assert(body.subrange(p.len() as int, r as int) =~= room);
    assert(body.subrange(r as int, e as int) =~= m);
    assert(body.subrange(e as int, e_end as int) =~= d1);
    assert(body.subrange(e_end as int, t as int) =~= n);
    assert(body.subrange(t as int, t_end as int) =~= d2);
    assert(body.subrange(t_end as int, body.len() as int) =~= q);
    lemma_parse_decimal_roundtrip(eco2 as nat);
    lemma_parse_decimal_roundtrip(tvoc as nat);
}

/// Builds the JSON body of a reading: the room, the equivalent CO2 level in ppm
/// and the total volatile organic compounds in ppb.
pub fn reading_body(room: &[u8], eco2: u16, tvoc: u16) -> (body: Vec<u8>)
    ensures
        body@ == reading_json(room@, eco2, tvoc),
        carries_reading(body@, room@, eco2, tvoc),
{
    let mut body: Vec<u8> = Vec::new();
    push_all(&mut body, "{\r\n\"room\": \"".as_bytes());
    push_all(&mut body, room);
    push_all(&mut body, "\",\r\n\"eco2\": ".as_bytes());
    push_decimal(&mut body, eco2 as u64);
    push_all(&mut body, ",\r\n\"tvoc\": ".as_bytes());
    push_decimal(&mut body, tvoc as u64);
    push_all(&mut body, "\r\n}".as_bytes());
    assert(body@ =~= reading_json(room@, eco2, tvoc));
    proof {
        lemma_reading_json_carries_reading(room@, eco2, tvoc);
    }
    body
}

/// Law: the address that the request's `Host` header gives reads back, through
/// the same parsing the configured address goes through, as the server's address,
/// and its port text as the server's port.
pub proof fn lemma_host_header_roundtrip(server: ServerEndpoint)
    ensures
        parse_ipv4(ipv4_text(server.ip@)) == Some(server.ip@),
        parse_port(decimal(server.port as nat)) == Some(server.port as nat),
{
    let ip = server.ip@;
    let d0 = decimal(ip[0] as nat);
    let d1 = decimal(ip[1] as nat);
    let d2 = decimal(ip[2] as nat);
    let d3 = decimal(ip[3] as nat);
    assert(!is_digit(ASCII_DOT));
    lemma_decimal_has_no(ip[0] as nat, ASCII_DOT);
    lemma_decimal_has_no(ip[1] as nat, ASCII_DOT);
    lemma_decimal_has_no(ip[2] as nat, ASCII_DOT);
    lemma_decimal_has_no(ip[3] as nat, ASCII_DOT);
    let e = Seq::<u8>::empty();
    // Walk the text piece by piece.
    lemma_split_state_append(e, d0, ASCII_DOT);
    assert(e + d0 =~= d0);
    assert(split_state(e, ASCII_DOT) == (Seq::<Seq<u8>>::empty(), e));
    lemma_split_state_sep(d0, ASCII_DOT);
    let t1 = d0.push(ASCII_DOT);
    lemma_split_state_append(t1, d1, ASCII_DOT);
    lemma_split_state_sep(t1 + d1, ASCII_DOT);
    let t2 = (t1 + d1).push(ASCII_DOT);
    lemma_split_state_append(t2, d2, ASCII_DOT);
    lemma_split_state_sep(t2 + d2, ASCII_DOT);
    let t3 = (t2 + d2).push(ASCII_DOT);
    lemma_split_state_append(t3, d3, ASCII_DOT);
    assert(t3 + d3 =~= ipv4_text(ip));
    let parts = split_on(ipv4_text(ip), ASCII_DOT);
    assert(e + d1 =~= d1);
    assert(e + d2 =~= d2);
    assert(e + d3 =~= d3);
    assert(parts =~= seq![d0, d1, d2, d3]);
    lemma_parse_decimal_roundtrip(ip[0] as nat);
    lemma_parse_decimal_roundtrip(ip[1] as nat);
    lemma_parse_decimal_roundtrip(ip[2] as nat);
    lemma_parse_decimal_roundtrip(ip[3] as nat);
    assert(parse_bounded(parts[0], 255) == Some(ip[0] as nat));
    assert(parse_bounded(parts[1], 255) == Some(ip[1] as nat));
    assert(parse_bounded(parts[2], 255) == Some(ip[2] as nat));
    assert(parse_bounded(parts[3], 255) == Some(ip[3] as nat));
    assert(forall|i: int| 0 <= i < 4 ==> (#[trigger] parse_bounded(parts[i], 255)) is Some);
    assert(Seq::new(4, |i: int| parse_bounded(parts[i], 255)->0 as u8) =~= ip);
    lemma_parse_decimal_roundtrip(server.port as nat);
    assert(parse_unsigned(decimal(server.port as nat)) == Some(server.port as nat));
}

/// Law: the `Content-Length` header of a post states the length of the body it
/// carries: the request is its headers up to the length's digits, those digits,
/// the empty line, the body and the trailer, and the digits read back as the
/// body's length in bytes.
pub proof fn lemma_content_length_is_body_length(server: ServerEndpoint, body: Seq<u8>)
    ensures
        ({
            let before = request_head() + ipv4_text(server.ip@) + seq![ASCII_COLON] + decimal(
                server.port as nat,
            ) + request_fixed_headers();
            &&& post_request(server, body) == before + decimal(body.len()) + request_headers_end()
                + body + request_trailer()
            &&& parse_unsigned(decimal(body.len())) == Some(body.len())
        }),
{
    lemma_parse_decimal_roundtrip(body.len());
}

} // verus!
