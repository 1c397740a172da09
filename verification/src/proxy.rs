//! Where the traffic that arrives at a proxy goes.
use vstd::prelude::*;
use vstd::slice::*;
use vstd::utf8::*;

use crate::api::{full_domain, http_granted, http_outcome, AnswerView, InvalidHeader, NOT_FOUND};
use crate::name::{NameView, TunnelName};
use crate::proxy_protocol::proxied_port;
use crate::reply::{Reply, ReplyView};
use crate::session::SessionView;
use crate::text::{
    ascii_lower_text, decode_text, first_label, label_before_dot, lower_text, opt_text, same_text,
    utf8_text,
};
use crate::tunnel::{requested_subdomain, EntryView, RegistryView, Tunnel};
use crate::tunnel_id::{hex_text, hex_text_shape, id_text};

verus! {

/// How many bytes of a request are looked at.
pub const PEEK_SIZE: usize = 1024;

/// How many header fields of a request are looked at.
pub const MAX_HEADERS: usize = 16;

/// Seconds that the first bytes of a connection may take.
pub const PEEK_TIMEOUT: u64 = 5;

/// Milliseconds to wait after a connection could not be accepted.
pub const ACCEPT_RETRY_DELAY: u64 = 100;

/// Header fields as they were parsed, by their characters and bytes.
pub open spec fn parsed_list(fields: Option<Vec<(String, Vec<u8>)>>) -> Option<
    Seq<(Seq<char>, Seq<u8>)>,
> {
    match fields {
        Some(list) => Some(list@.map_values(|f: (String, Vec<u8>)| (f.0@, f.1@))),
        None => None,
    }
}

/// The header fields that `httparse` finds at the front of some bytes, in as
/// many slots as it is given, where an unused slot has no name; nothing where it
/// rejects the bytes.
pub uninterp spec fn parsed_headers(bytes: Seq<u8>, slots: nat) -> Option<
    Seq<(Seq<char>, Seq<u8>)>,
>;

/// Whether a character may stand in a header name: a letter, a digit or one of
/// ``!#$%&'*+-.^_`|~``.
pub open spec fn is_name_char(c: char) -> bool {
    let v = c as u32;
    ||| 97 <= v <= 122
    ||| 65 <= v <= 90
    ||| 48 <= v <= 57
    ||| v == 33
    ||| 35 <= v <= 39
    ||| v == 42
    ||| v == 43
    ||| v == 45
    ||| v == 46
    ||| 94 <= v <= 96
    ||| v == 124
    ||| v == 126
}

/// Whether a byte may stand in a header value: no control character but the tab.
pub open spec fn is_value_byte(b: u8) -> bool {
    32 <= b && b != 127 || b == 9
}

/// Whether bytes are spaces and tabs only.
pub open spec fn is_padding_run(bytes: Seq<u8>) -> bool {
    forall|i: int| 0 <= i < bytes.len() ==> #[trigger] bytes[i] == 32 || bytes[i] == 9
}

/// A header field as it is sent.
pub struct FieldLine {
    /// The name.
    pub name: Seq<char>,
    /// The space between the colon and the value.
    pub before: Seq<u8>,
    /// The value.
    pub value: Seq<u8>,
    /// The space after the value.
    pub after: Seq<u8>,
    /// Whether the line ends with a carriage return before its line feed.
    pub with_return: bool,
}

/// The end of a line.
pub open spec fn line_break(with_return: bool) -> Seq<u8> {
    if with_return {
        seq![13u8, 10u8]
    } else {
        seq![10u8]
    }
}

impl FieldLine {
    /// Whether the field is well formed: it has a name, its value is free of
    /// control characters, and what stands around the value is space, which no
    /// value starts or ends with.
    pub open spec fn well_formed(self) -> bool {
        &&& self.name.len() > 0
        &&& forall|i: int| 0 <= i < self.name.len() ==> is_name_char(#[trigger] self.name[i])
        &&& is_padding_run(self.before)
        &&& is_padding_run(self.after)
        &&& forall|i: int| 0 <= i < self.value.len() ==> is_value_byte(#[trigger] self.value[i])
        &&& if self.value.len() == 0 {
            self.after.len() == 0
        } else {
            &&& self.value[0] != 32 && self.value[0] != 9
            &&& self.value.last() != 32 && self.value.last() != 9
        }
    }

    /// The bytes of the line.
    pub open spec fn bytes(self) -> Seq<u8> {
        self.name.map_values(|c: char| c as u8) + seq![58u8] + self.before + self.value + self.after
            + line_break(self.with_return)
    }
}

/// The bytes of some lines, one after the other.
pub open spec fn header_block(lines: Seq<FieldLine>) -> Seq<u8>
    decreases lines.len(),
{
    if lines.len() == 0 {
        Seq::empty()
    } else {
        header_block(lines.drop_last()) + lines.last().bytes()
    }
}

/// The names and values of some lines.
pub open spec fn fields_of(lines: Seq<FieldLine>) -> Seq<(Seq<char>, Seq<u8>)> {
    lines.map_values(|line: FieldLine| (line.name, line.value))
}

/// Whether some bytes start with an empty line.
pub open spec fn starts_with_empty_line(bytes: Seq<u8>) -> bool {
    line_break(true).is_prefix_of(bytes) || line_break(false).is_prefix_of(bytes)
}

/// Whether some bytes are the front of a line that is not complete, or nothing
/// at all.
pub open spec fn is_unfinished(bytes: Seq<u8>) -> bool {
    ||| bytes == seq![13u8]
    ||| exists|line: FieldLine| #[trigger]
        line.well_formed() && bytes.is_prefix_of(line.bytes()) && bytes.len() < line.bytes().len()
}

/// Whether some bytes start with so many well formed header fields at most, and
/// then an empty line comes, or the bytes end before the next line does.
pub open spec fn starts_with_fields(bytes: Seq<u8>, lines: Seq<FieldLine>, slots: nat) -> bool {
    let rest = bytes.skip(header_block(lines).len() as int);
    &&& lines.len() <= slots
    &&& forall|i: int| 0 <= i < lines.len() ==> (#[trigger] lines[i]).well_formed()
    &&& header_block(lines).is_prefix_of(bytes)
    &&& starts_with_empty_line(rest) || is_unfinished(rest)
}

/// Header fields in a number of slots, the unused ones without name and value.
pub open spec fn in_slots(fields: Seq<(Seq<char>, Seq<u8>)>, slots: nat) -> Seq<
    (Seq<char>, Seq<u8>),
> {
    Seq::new(
        slots,
        |i: int|
            if i < fields.len() {
                fields[i]
            } else {
                (Seq::<char>::empty(), Seq::<u8>::empty())
            },
    )
}

/// `httparse::parse_headers` fills the slots that it is given with the header
/// fields at the front of some bytes, also where the bytes end before the fields
/// do, and fails where the bytes are malformed or the slots too few. Well formed
/// fields are given back without the space around their values, both where an
/// empty line ends them, whatever follows it, and where the bytes end within the
/// next line.
#[verifier::external_body]
fn parse_headers(bytes: &[u8], slots: usize) -> (fields: Option<Vec<(String, Vec<u8>)>>)
    ensures
        parsed_list(fields) == parsed_headers(bytes@, slots as nat),
        forall|lines: Seq<FieldLine>| #[trigger]
            starts_with_fields(bytes@, lines, slots as nat) ==> parsed_list(fields) == Some(
                in_slots(fields_of(lines), slots as nat),
            ),
{
    let mut parsed = vec![httparse::EMPTY_HEADER; slots];
    match httparse::parse_headers(bytes, &mut parsed) {
        Ok(_) => Some(parsed.iter().map(|h| (h.name.to_owned(), h.value.to_vec())).collect()),
        Err(_) => None,
    }
}

/// Why the host that a request is for cannot be read.
#[derive(Debug, Clone, Copy, PartialEq, Eq, Structural)]
pub enum PeekError {
    /// The connection was closed before it sent anything.
    EmptyStream,
    /// The request line is not UTF-8.
    NotText,
    /// The header fields are malformed, or too many.
    BadHeaders,
}

impl PeekError {
    /// What the error says, where its words are not those of a parser.
    pub open spec fn text(self) -> Option<Seq<char>> {
        match self {
            PeekError::EmptyStream => Some("Empty stream"@),
            _ => None,
        }
    }

    /// What the error says, where its words are not those of a parser.
    pub fn message(&self) -> (text: Option<String>)
        ensures
            opt_text(text) == self.text(),
    {
        match self {
            PeekError::EmptyStream => Some("Empty stream".to_owned()),
            _ => None,
        }
    }
}

/// What the first bytes of a request tell about its host.
#[derive(Debug)]
pub enum HostPeek {
    /// The host.
    Found(String),
    /// Nothing yet.
    Again,
    /// Nothing, whatever else comes.
    Failed(PeekError),
}

/// What is told about a host.
pub enum HostPeekView {
    /// See [`HostPeek::Found`].
    Found(Seq<char>),
    /// See [`HostPeek::Again`].
    Again,
    /// See [`HostPeek::Failed`].
    Failed(PeekError),
}

impl View for HostPeek {
    type V = HostPeekView;

    open spec fn view(&self) -> HostPeekView {
        match self {
            HostPeek::Found(host) => HostPeekView::Found(host@),
            HostPeek::Again => HostPeekView::Again,
            HostPeek::Failed(err) => HostPeekView::Failed(*err),
        }
    }
}

/// Where the first line of some bytes ends.
pub open spec fn line_end(bytes: Seq<u8>) -> int {
    match bytes.index_of_first(10u8) {
        Some(i) => i + 1,
        None => bytes.len() as int,
    }
}

/// The value of the first header field that is named `Host`, in whatever case.
pub open spec fn host_value(fields: Seq<(Seq<char>, Seq<u8>)>) -> Option<Seq<u8>>
    decreases fields.len(),
{
    if fields.len() == 0 {
        None
    } else if ascii_lower_text(fields[0].0) == "host"@ {
        Some(fields[0].1)
    } else {
        host_value(fields.skip(1))
    }
}

/// What the header fields of a request tell about its host. Without a host, or
/// with one that is not UTF-8, more of the request is waited for.
pub open spec fn host_among(fields: Option<Seq<(Seq<char>, Seq<u8>)>>) -> HostPeekView {
    match fields {
        None => HostPeekView::Failed(PeekError::BadHeaders),
        Some(list) => match host_value(list) {
            None => HostPeekView::Again,
            Some(value) => match utf8_text(value) {
                None => HostPeekView::Again,
                Some(host) => HostPeekView::Found(host),
            },
        },
    }
}

/// What a buffer tells about the host of a request, after so many bytes of the
/// request were put into it. The whole buffer is read.
pub open spec fn host_in(buffer: Seq<u8>, peeked: nat) -> HostPeekView {
    if peeked == 0 {
        HostPeekView::Failed(PeekError::EmptyStream)
    } else if buffer.len() == 0 {
        HostPeekView::Again
    } else if !valid_utf8(buffer.take(line_end(buffer))) {
        HostPeekView::Failed(PeekError::NotText)
    } else {
        host_among(parsed_headers(buffer.skip(line_end(buffer)), MAX_HEADERS as nat))
    }
}

/// What the header fields of a request tell about its host.
pub fn host_from(fields: Option<Vec<(String, Vec<u8>)>>) -> (host: HostPeek)
    ensures
        host@ == host_among(parsed_list(fields)),
{
    let list = match fields {
        None => {
            return HostPeek::Failed(PeekError::BadHeaders);
        },
        Some(list) => list,
    };
    let ghost all = list@.map_values(|f: (String, Vec<u8>)| (f.0@, f.1@));
    let mut i: usize = 0;
    proof {
        assert(all.skip(0) =~= all);
    }
    while i < list.len()
        invariant
            i <= list.len(),
            parsed_list(fields) == Some(all),
            all == list@.map_values(|f: (String, Vec<u8>)| (f.0@, f.1@)),
            host_value(all) == host_value(all.skip(i as int)),
        decreases list.len() - i,
    {
        proof {
            assert(all.skip(i as int)[0] == all[i as int]);
            assert(all.skip(i as int).skip(1) =~= all.skip(i + 1));
        }
        if same_text(lower_text(list[i].0.as_str()).as_str(), "host") {
            return match decode_text(list[i].1.as_slice()) {
                Some(host) => HostPeek::Found(host),
                None => HostPeek::Again,
            };
        }
        i += 1;
    }
    HostPeek::Again
}

/// Where the first line of some bytes ends.
fn find_line_end(bytes: &[u8]) -> (end: usize)
    ensures
        end == line_end(bytes@),
        end <= bytes.len(),
{
    let mut i: usize = 0;
    while i < bytes.len()
        invariant
            i <= bytes.len(),
            forall|j: int| 0 <= j < i ==> bytes@[j] != 10u8,
        decreases bytes.len() - i,
    {
        if bytes[i] == 10 {
            proof {
                bytes@.index_of_first_ensures(10u8);
                assert(bytes@.contains(bytes@[i as int]));
                assert(bytes@.index_of_first(10u8) == Some(i as int));
            }
            return i + 1;
        }
        i += 1;
    }
    proof {
        bytes@.index_of_first_ensures(10u8);
        assert(!bytes@.contains(10u8));
    }
    i
}

/// Reads the host that a request is for out of a buffer into which so many bytes
/// of the request were put.
pub fn peek_host(buffer: &[u8], peeked: usize) -> (host: HostPeek)
    ensures
        host@ == host_in(buffer@, peeked as nat),
        forall|first: Seq<u8>, lines: Seq<FieldLine>| #[trigger]
            starts_with_request(buffer@, first, lines) && peeked > 0 ==> host@ == host_among(
                Some(fields_of(lines)),
            ),
{
    if peeked == 0 {
        return HostPeek::Failed(PeekError::EmptyStream);
    }
    if buffer.len() == 0 {
        return HostPeek::Again;
    }
    let end: usize = find_line_end(buffer);
    let line = slice_subrange(buffer, 0, end);
    proof {
        assert(buffer@.subrange(0, end as int) =~= buffer@.take(end as int));
    }
    proof {
        assert forall|first: Seq<u8>, lines: Seq<FieldLine>| #[trigger]
            starts_with_request(buffer@, first, lines) implies valid_utf8(line@) by {
            a_request_line_ends(buffer@, first, lines);
        }
    }
    if decode_text(line).is_none() {
        return HostPeek::Failed(PeekError::NotText);
    }
    let rest = slice_subrange(buffer, end, buffer.len());
    proof {
        assert(buffer@.subrange(end as int, buffer@.len() as int) =~= buffer@.skip(end as int));
    }
    let fields = parse_headers(rest, MAX_HEADERS);
    proof {
        assert forall|first: Seq<u8>, lines: Seq<FieldLine>| #[trigger]
            starts_with_request(buffer@, first, lines) implies host_among(parsed_list(fields))
            == host_among(Some(fields_of(lines))) by {
            a_request_line_ends(buffer@, first, lines);
            assert(starts_with_fields(rest@, lines, MAX_HEADERS as nat));
            unused_slots_have_no_host(fields_of(lines), MAX_HEADERS as nat);
        }
    }
    host_from(fields)
}

/// Whether a buffer starts with a request: a request line, well formed header
/// fields that are not too many, and then an empty line, unless the buffer ends
/// before the next line does.
pub open spec fn starts_with_request(
    buffer: Seq<u8>,
    first: Seq<u8>,
    lines: Seq<FieldLine>,
) -> bool {
    &&& first.is_prefix_of(buffer)
    &&& first.len() > 0
    &&& first.last() == 10
    &&& forall|i: int| 0 <= i < first.len() - 1 ==> #[trigger] first[i] != 10
    &&& valid_utf8(first)
    &&& starts_with_fields(buffer.skip(first.len() as int), lines, MAX_HEADERS as nat)
}

/// The first line of a buffer that starts with a request is the request line.
proof fn a_request_line_ends(buffer: Seq<u8>, first: Seq<u8>, lines: Seq<FieldLine>)
    requires
        starts_with_request(buffer, first, lines),
    ensures
        line_end(buffer) == first.len(),
        buffer.take(line_end(buffer)) == first,
{
    let last = first.len() - 1;
    assert(buffer[last] == first[last]);
    assert(buffer.contains(10u8));
    buffer.index_of_first_ensures(10u8);
    let i = buffer.index_of_first(10u8)->Some_0;
    assert(i == last) by {
        if i < last {
            assert(first[i] == buffer[i]);
        }
    }
    assert(buffer.take(line_end(buffer)) =~= first);
}

/// Unused slots do not change which host is found.
proof fn unused_slots_have_no_host(sent: Seq<(Seq<char>, Seq<u8>)>, slots: nat)
    requires
        sent.len() <= slots,
    ensures
        host_value(in_slots(sent, slots)) == host_value(sent),
    decreases slots,
{
    reveal_strlit("host");
    assert("host"@.len() == 4);
    if slots > 0 {
        let all = in_slots(sent, slots);
        let rest = if sent.len() > 0 {
            sent.skip(1)
        } else {
            sent
        };
        unused_slots_have_no_host(rest, (slots - 1) as nat);
        assert(all.skip(1) =~= in_slots(rest, (slots - 1) as nat));
        assert(sent.len() == 0 ==> ascii_lower_text(all[0].0).len() == 0);
    }
}

/// What became of the attempt to read the host of a request.
#[derive(Debug)]
pub enum HostEvent {
    /// It is this.
    Read(String),
    /// It could not be read.
    Failed,
    /// It did not come in time.
    TimedOut,
}

/// What to do with a connection to the HTTP proxy.
#[derive(Debug)]
pub enum HttpStep {
    /// Close it without a word.
    Close,
    /// Answer its request, then close it.
    Answer(Reply),
    /// Pass it on to the tunnel of this name.
    Find(TunnelName),
}

/// What is to be done with a connection to the HTTP proxy.
pub enum HttpStepView {
    /// See [`HttpStep::Close`].
    Close,
    /// See [`HttpStep::Answer`].
    Answer(ReplyView),
    /// See [`HttpStep::Find`].
    Find(NameView),
}

impl View for HttpStep {
    type V = HttpStepView;

    open spec fn view(&self) -> HttpStepView {
        match self {
            HttpStep::Close => HttpStepView::Close,
            HttpStep::Answer(reply) => HttpStepView::Answer(reply@),
            HttpStep::Find(name) => HttpStepView::Find(name@),
        }
    }
}

/// What to do with a request for a host. The tunnel is named by what stands
/// before the first dot.
pub open spec fn route_host(host: Seq<char>) -> HttpStepView {
    match label_before_dot(host) {
        Some(label) => HttpStepView::Find(NameView::Subdomain(label)),
        None => HttpStepView::Answer(ReplyView::plain(NOT_FOUND, "Tunnel not informed"@)),
    }
}

/// What to do with a connection to the HTTP proxy. Without a host it is closed
/// without a word.
pub open spec fn http_next(event: HostEvent) -> HttpStepView {
    match event {
        HostEvent::Read(host) => route_host(host@),
        HostEvent::Failed => HttpStepView::Close,
        HostEvent::TimedOut => HttpStepView::Close,
    }
}

/// What became of the attempt to read the host of a request, from what the
/// attempt gave; nothing means that it took too long.
pub fn host_event<E>(read: Option<Result<String, E>>) -> (event: HostEvent)
    ensures
        event == (match read {
            Some(Ok(host)) => HostEvent::Read(host),
            Some(Err(_)) => HostEvent::Failed,
            None => HostEvent::TimedOut,
        }),
{
    match read {
        Some(Ok(host)) => HostEvent::Read(host),
        Some(Err(_)) => HostEvent::Failed,
        None => HostEvent::TimedOut,
    }
}

/// What to do with a connection to the HTTP proxy, once its host is known or is
/// known not to come.
pub fn http_step(event: HostEvent) -> (step: HttpStep)
    ensures
        step@ == http_next(event),
{
    match event {
        HostEvent::Read(host) => match first_label(host.as_str()) {
            Some(label) => HttpStep::Find(TunnelName::Subdomain(label)),
            None => HttpStep::Answer(Reply::plain(NOT_FOUND, "Tunnel not informed")),
        },
        HostEvent::Failed => HttpStep::Close,
        HostEvent::TimedOut => HttpStep::Close,
    }
}

/// What to do with a connection to the HTTP proxy once its tunnel has been
/// looked for: pass it on, or answer that there is none.
pub fn http_found<T>(found: Option<T>) -> (next: Result<T, Reply>)
    ensures
        match found {
            Some(tunnel) => next == Ok::<T, Reply>(tunnel),
            None => next is Err && next->Err_0@ == ReplyView::plain(
                NOT_FOUND,
                "Tunnel not found"@,
            ),
        },
{
    match found {
        Some(tunnel) => Ok(tunnel),
        None => Err(Reply::plain(NOT_FOUND, "Tunnel not found")),
    }
}

/// What became of the attempt to read the port that a connection is for.
#[derive(Debug, Clone, Copy, PartialEq, Eq, Structural)]
pub enum PortEvent {
    /// It is this.
    Read(u16),
    /// It could not be read.
    Failed,
    /// It did not come in time.
    TimedOut,
}

/// What to do with a connection to the TCP proxy.
#[derive(Debug)]
pub enum TcpStep {
    /// Shut it down.
    Shutdown,
    /// Pass it on to the tunnel of this name.
    Find(TunnelName),
}

/// What to do with a connection to the TCP proxy. Without a port it is shut down.
pub open spec fn tcp_next(event: PortEvent) -> TcpStep {
    match event {
        PortEvent::Read(port) => TcpStep::Find(TunnelName::PortNumber(port)),
        PortEvent::Failed => TcpStep::Shutdown,
        PortEvent::TimedOut => TcpStep::Shutdown,
    }
}

/// What became of the attempt to read the port that a connection is for, from
/// what the attempt gave; nothing means that it took too long.
pub open spec fn port_event_of<E>(read: Option<Result<u16, E>>) -> PortEvent {
    match read {
        Some(Ok(port)) => PortEvent::Read(port),
        Some(Err(_)) => PortEvent::Failed,
        None => PortEvent::TimedOut,
    }
}

/// What became of the attempt to read the port that a connection is for, from
/// what the attempt gave; nothing means that it took too long.
pub fn port_event<E>(read: Option<Result<u16, E>>) -> (event: PortEvent)
    ensures
        event == port_event_of(read),
{
    match read {
        Some(Ok(port)) => PortEvent::Read(port),
        Some(Err(_)) => PortEvent::Failed,
        None => PortEvent::TimedOut,
    }
}

/// What to do with a connection to the TCP proxy, once its port is known or is
/// known not to come.
pub fn tcp_step(event: PortEvent) -> (step: TcpStep)
    ensures
        step == tcp_next(event),
{
    match event {
        PortEvent::Read(port) => TcpStep::Find(TunnelName::PortNumber(port)),
        PortEvent::Failed => TcpStep::Shutdown,
        PortEvent::TimedOut => TcpStep::Shutdown,
    }
}

/// The host of a request is found: the value of its first field of that name.
pub proof fn a_sent_host_is_found(sent: Seq<(Seq<char>, Seq<u8>)>, k: int, host: Seq<char>)
    requires
        0 <= k < sent.len(),
        ascii_lower_text(sent[k].0) == "host"@,
        sent[k].1 == encode_utf8(host),
        forall|i: int| 0 <= i < k ==> ascii_lower_text(#[trigger] sent[i].0) != "host"@,
    ensures
        host_among(Some(sent)) == HostPeekView::Found(host),
    decreases k,
{
    encode_utf8_valid_utf8(host);
    encode_utf8_decode_utf8(host);
    if k > 0 {
        let rest = sent.skip(1);
        assert(ascii_lower_text(sent[0].0) != "host"@);
        assert(rest[k - 1] == sent[k]);
        assert forall|i: int| 0 <= i < k - 1 implies ascii_lower_text(#[trigger] rest[i].0)
            != "host"@ by {
            assert(rest[i] == sent[i + 1]);
        }
        a_sent_host_is_found(rest, k - 1, host);
    }
}

/// The name that an HTTP tunnel is granted leads back to it: a request for the
/// domain that the client was told, whatever follows it, goes to that name,
/// unless the name itself holds a dot.
pub proof fn a_granted_domain_leads_back(
    subdomain: Seq<char>,
    base_domain: Seq<char>,
    suffix: Seq<char>,
)
    requires
        !subdomain.contains('.'),
    ensures
        route_host(full_domain(subdomain, base_domain) + suffix) == HttpStepView::Find(
            NameView::Subdomain(subdomain),
        ),
{
    let host = full_domain(subdomain, base_domain) + suffix;
    reveal_strlit(".");
    host.index_of_first_ensures('.');
    assert(host[subdomain.len() as int] == '.');
    assert(host.contains('.'));
    let i = host.index_of_first('.')->Some_0;
    if i < subdomain.len() {
        assert(subdomain[i] == host[i]);
    }
    assert(host.take(i) =~= subdomain);
}

/// A subdomain that holds a dot is granted, yet requests for its domain go to
/// the part of it before that dot.
pub proof fn a_dotted_domain_leads_elsewhere(
    subdomain: Seq<char>,
    base_domain: Seq<char>,
    suffix: Seq<char>,
)
    requires
        subdomain.contains('.'),
    ensures
        route_host(full_domain(subdomain, base_domain) + suffix) == route_host(subdomain),
        route_host(subdomain) != HttpStepView::Find(NameView::Subdomain(subdomain)),
{
    let host = full_domain(subdomain, base_domain) + suffix;
    subdomain.index_of_first_ensures('.');
    host.index_of_first_ensures('.');
    let i = subdomain.index_of_first('.')->Some_0;
    assert(host[i] == '.');
    assert(host.contains('.'));
    let j = host.index_of_first('.')->Some_0;
    assert(j == i) by {
        if j < i {
            assert(subdomain[j] == host[j]);
        }
    }
    assert(host.take(i) =~= subdomain.take(i));
    assert(subdomain.take(i).len() < subdomain.len());
}

/// An identifier that serves as a subdomain holds no dot.
pub proof fn an_identifier_has_no_dot(id: u128)
    ensures
        !id_text(id).contains('.'),
{
    hex_text_shape(id as nat, 32);
    if id_text(id).contains('.') {
        let i = choose|i: int| 0 <= i < id_text(id).len() && id_text(id)[i] == '.';
        let c = hex_text(id as nat, 32)[i];
        assert(48 <= c as u32 <= 57 || 97 <= c as u32 <= 102);
    }
}

/// From the request for an HTTP tunnel to its first visitor: where the tunnel is
/// granted and its client connects, a visitor of the domain that the client was
/// told reaches that client.
pub proof fn a_visitor_reaches_the_client<C>(
    base_domain: Seq<char>,
    requested: Option<Seq<char>>,
    id: u128,
    before: RegistryView<C>,
    client: C,
    suffix: Seq<char>,
)
    requires
        requested matches Some(s) ==> !s.contains('.'),
        http_outcome(base_domain, requested, id, before).0 matches Ok(answer) && answer is Granted,
    ensures
        ({
            let name = requested_subdomain(requested, id);
            let after = http_outcome(base_domain, requested, id, before).1;
            let opened = after.attach(id, Tunnel::serving(client), name);
            &&& http_outcome(base_domain, requested, id, before).0 == Ok::<
                AnswerView,
                InvalidHeader,
            >(
                AnswerView::Granted(
                    http_granted(id, name.text(), base_domain),
                    SessionView::Proxied(EntryView { id, name, persisted: false }),
                ),
            )
            &&& route_host(full_domain(name.text(), base_domain) + suffix) == HttpStepView::Find(
                name,
            )
            &&& opened.find(name) == Some(Tunnel::serving(client))
        }),
{
    an_identifier_has_no_dot(id);
    a_granted_domain_leads_back(requested_subdomain(requested, id).text(), base_domain, suffix);
}

/// What to do with a connection to the TCP proxy once its tunnel has been looked
/// for: pass it on, or shut it down.
pub open spec fn tcp_found_next<T>(found: Option<T>) -> Result<T, TcpStep> {
    match found {
        Some(tunnel) => Ok(tunnel),
        None => Err(TcpStep::Shutdown),
    }
}

/// What to do with a connection to the TCP proxy once its tunnel has been looked
/// for.
pub fn tcp_found<T>(found: Option<T>) -> (next: Result<T, TcpStep>)
    ensures
        next == tcp_found_next(found),
{
    match found {
        Some(tunnel) => Ok(tunnel),
        None => Err(TcpStep::Shutdown),
    }
}

/// A connection to the HTTP proxy that does not tell its host, or not in time, is
/// closed: nothing is sent on it, and no tunnel is looked for.
pub proof fn a_silent_visitor_gets_nothing(event: HostEvent)
    requires
        event !is Read,
    ensures
        http_next(event) == HttpStepView::Close,
        http_next(event) !is Answer,
        http_next(event) !is Find,
{
}

/// The tunnel that a connection to the TCP proxy is passed on to, given what the
/// tunnels under its name come to; without one it is shut down.
pub open spec fn tcp_passed_on<T>(event: PortEvent, found: Option<T>) -> Option<T> {
    match tcp_next(event) {
        TcpStep::Shutdown => None,
        TcpStep::Find(_) => match tcp_found_next(found) {
            Ok(tunnel) => Some(tunnel),
            Err(_) => None,
        },
    }
}

/// No tunnel sees a connection to the TCP proxy that ends early, does not start
/// with the right signature, takes too long or is for a port without a tunnel:
/// it is shut down. Any other one is passed on to the tunnel of its port.
pub proof fn a_stray_connection_is_shut_down<T>(sent: Option<Seq<u8>>, found: Option<T>)
    ensures
        ({
            let read = match sent {
                Some(bytes) => Some(proxied_port(bytes)),
                None => None,
            };
            let event = port_event_of(read);
            &&& sent is None || proxied_port(sent->Some_0) is Err ==> tcp_next(event)
                == TcpStep::Shutdown && tcp_passed_on(event, found) is None
            &&& found is None ==> tcp_passed_on(event, found) is None && tcp_found_next(found)
                == Err::<T, TcpStep>(TcpStep::Shutdown)
            &&& sent is Some && proxied_port(sent->Some_0) is Ok ==> tcp_next(event)
                == TcpStep::Find(TunnelName::PortNumber(proxied_port(sent->Some_0)->Ok_0))
                && tcp_passed_on(event, found) == found
        }),
{
}

/// What a listener does with what came of an attempt to accept a connection.
#[derive(Debug)]
pub enum AcceptStep<S> {
    /// Serve the connection, and accept the next one.
    Serve(S),
    /// Accept again after this many milliseconds.
    RetryAfter(u64),
}

/// What a listener does next: a failure is got over.
pub open spec fn accept_next<S>(accepted: Option<S>) -> AcceptStep<S> {
    match accepted {
        Some(stream) => AcceptStep::Serve(stream),
        None => AcceptStep::RetryAfter(ACCEPT_RETRY_DELAY),
    }
}

/// What a listener does with what came of an attempt to accept a connection;
/// nothing means that the attempt failed.
pub fn accept_step<S>(accepted: Option<S>) -> (step: AcceptStep<S>)
    ensures
        step == accept_next(accepted),
{
    match accepted {
        Some(stream) => AcceptStep::Serve(stream),
        None => AcceptStep::RetryAfter(ACCEPT_RETRY_DELAY),
    }
}

/// What a listener does, attempt by attempt.
pub open spec fn accept_run<S>(attempts: Seq<Option<S>>) -> Seq<AcceptStep<S>>
    decreases attempts.len(),
{
    if attempts.len() == 0 {
        Seq::empty()
    } else {
        accept_run(attempts.drop_last()).push(accept_next(attempts.last()))
    }
}

/// A listener never stops: it takes a step for every attempt, serves every
/// connection that is accepted, in turn, and nothing but those, however many
/// attempts failed before.
pub proof fn every_accepted_connection_is_served<S>(attempts: Seq<Option<S>>)
    ensures
        accept_run(attempts).len() == attempts.len(),
        forall|i: int|
            0 <= i < attempts.len() ==> #[trigger] accept_run(attempts)[i] == (match attempts[i] {
                Some(stream) => AcceptStep::Serve(stream),
                None => AcceptStep::RetryAfter(ACCEPT_RETRY_DELAY),
            }),
    decreases attempts.len(),
{
    if attempts.len() > 0 {
        let before = attempts.drop_last();
        every_accepted_connection_is_served(before);
        assert forall|i: int| 0 <= i < attempts.len() implies #[trigger] accept_run(attempts)[i]
            == (match attempts[i] {
            Some(stream) => AcceptStep::Serve(stream),
            None => AcceptStep::RetryAfter(ACCEPT_RETRY_DELAY),
        }) by {
            if i < before.len() {
                assert(accept_run(attempts)[i] == accept_run(before)[i]);
                assert(before[i] == attempts[i]);
            }
        }
    }
}

/// A failed attempt changes nothing of what is done with the attempts before and
/// after it.
pub proof fn a_failed_accept_changes_nothing_else<S>(
    before: Seq<Option<S>>,
    after: Seq<Option<S>>,
)
    ensures
        accept_run(before + seq![None] + after) == accept_run(before) + seq![
            AcceptStep::RetryAfter(ACCEPT_RETRY_DELAY),
        ] + accept_run(after),
{
    let all = before + seq![None] + after;
    every_accepted_connection_is_served(all);
    every_accepted_connection_is_served(before);
    every_accepted_connection_is_served(after);
    let joined = accept_run(before) + seq![AcceptStep::<S>::RetryAfter(ACCEPT_RETRY_DELAY)]
        + accept_run(after);
    assert forall|i: int| 0 <= i < all.len() implies #[trigger] accept_run(all)[i] == joined[i] by {
        if i < before.len() {
            assert(all[i] == before[i]);
            assert(joined[i] == accept_run(before)[i]);
        } else if i > before.len() {
            let j = i - before.len() - 1;
            assert(all[i] == after[j]);
            assert(joined[i] == accept_run(after)[j]);
        }
    }
    assert(accept_run(all) =~= joined);
}

} // verus!
