//! The wire format of the published record.
use vstd::prelude::*;
use vstd::utf8::encode_utf8;

use crate::endpoint::{
    addr_views, dedup, dedup_keeps_each_once, dedup_of_distinct, text_view, EndpointData, EndpointDataView, SocketAddr,
    SocketAddrView, TransportAddr, TransportAddrView,
};
use crate::error::{LookupError, LookupErrorView};

verus! {

/// The most bytes that user data may have.
pub const MAX_USER_DATA: usize = 245;

/// A socket address in the shape that serde gives it in binary formats: an enum
/// whose variants, IPv4 first, hold the octets and the port. The flow label and
/// the scope of an IPv6 address are not part of it.
pub type WireAddr = Result<([u8; 4], u16), ([u8; 16], u16)>;

/// A [`WireAddr`], by its contents.
pub type WireAddrView = Result<(Seq<u8>, u16), (Seq<u8>, u16)>;

/// The contents of a wire address.
pub open spec fn wire_addr_view(addr: WireAddr) -> WireAddrView {
    match addr {
        Ok((ip, port)) => Ok((ip@, port)),
        Err((ip, port)) => Err((ip@, port)),
    }
}

/// The contents of a list of wire addresses.
pub open spec fn wire_addr_views(addrs: Seq<WireAddr>) -> Seq<WireAddrView> {
    addrs.map_values(|addr: WireAddr| wire_addr_view(addr))
}

/// The contents of a list of texts.
pub open spec fn text_views(texts: Seq<String>) -> Seq<Seq<char>> {
    texts.map_values(|text: String| text@)
}

/// The contents of a list of socket addresses.
pub open spec fn socket_addr_views(addrs: Seq<SocketAddr>) -> Seq<SocketAddrView> {
    addrs.map_values(|addr: SocketAddr| addr@)
}

/// What a record keeps of a socket address.
pub open spec fn to_wire_addr(addr: SocketAddrView) -> WireAddrView {
    match addr {
        SocketAddrView::V4 { ip, port } => Ok((ip, port)),
        SocketAddrView::V6 { ip, port, .. } => Err((ip, port)),
    }
}

/// The socket address that is read from a record.
pub open spec fn from_wire_addr(addr: WireAddrView) -> SocketAddrView {
    match addr {
        Ok((ip, port)) => SocketAddrView::V4 { ip, port },
        Err((ip, port)) => SocketAddrView::V6 { ip, port, flowinfo: 0, scope_id: 0 },
    }
}

/// The fields of a record, by their contents.
pub struct WireDataView {
    pub relay_urls: Seq<Seq<char>>,
    pub ip_addrs: Seq<SocketAddrView>,
    pub user_data: Option<Seq<char>>,
}

/// The URLs of the relays among `addrs`, in order.
pub open spec fn relay_urls_of(addrs: Seq<TransportAddrView>) -> Seq<Seq<char>>
    decreases addrs.len(),
{
    if addrs.len() == 0 {
        Seq::empty()
    } else {
        let front = relay_urls_of(addrs.drop_last());
        match addrs.last() {
            TransportAddrView::Relay(url) => front.push(url),
            _ => front,
        }
    }
}

/// The IP addresses among `addrs`, in order.
pub open spec fn ip_addrs_of(addrs: Seq<TransportAddrView>) -> Seq<SocketAddrView>
    decreases addrs.len(),
{
    if addrs.len() == 0 {
        Seq::empty()
    } else {
        let front = ip_addrs_of(addrs.drop_last());
        match addrs.last() {
            TransportAddrView::Ip(addr) => front.push(addr),
            _ => front,
        }
    }
}

/// The record of an endpoint.
pub open spec fn wire_of(data: EndpointDataView) -> WireDataView {
    WireDataView {
        relay_urls: relay_urls_of(data.addrs),
        ip_addrs: ip_addrs_of(data.addrs),
        user_data: data.user_data,
    }
}

/// The text of the relay URL that `text` parses to, if it parses, as
/// `iroh::RelayUrl` prints it.
pub uninterp spec fn relay_url_text(text: Seq<char>) -> Option<Seq<char>>;

/// Whether every text is a relay URL.
pub open spec fn all_relay_urls(texts: Seq<Seq<char>>) -> bool {
    forall|i: int| 0 <= i < texts.len() ==> relay_url_text(#[trigger] texts[i]) is Some
}

/// Whether user data is short enough.
pub open spec fn user_data_fits(user_data: Option<Seq<char>>) -> bool {
    user_data matches Some(text) ==> encode_utf8(text).len() <= MAX_USER_DATA
}

/// The addresses that a record lists: the relays, then the IP addresses.
pub open spec fn listed_addrs(wire: WireDataView) -> Seq<TransportAddrView> {
    wire.relay_urls.map_values(
        |text: Seq<char>| TransportAddrView::Relay(relay_url_text(text)->0),
    ) + wire.ip_addrs.map_values(|addr: SocketAddrView| TransportAddrView::Ip(addr))
}

/// The endpoint data that a record stands for.
pub open spec fn endpoint_of(wire: WireDataView) -> Result<EndpointDataView, LookupErrorView> {
    if !all_relay_urls(wire.relay_urls) {
        Err(LookupErrorView::BadRecord("invalid relay url"@))
    } else if !user_data_fits(wire.user_data) {
        Err(LookupErrorView::BadRecord("invalid user data"@))
    } else {
        Ok(EndpointDataView { addrs: dedup(listed_addrs(wire)), user_data: wire.user_data })
    }
}

/// The bytes that `postcard` makes of the fields of a record.
pub uninterp spec fn postcard_encoding(
    relay_urls: Seq<Seq<char>>,
    ip_addrs: Seq<WireAddrView>,
    user_data: Option<Seq<char>>,
) -> Seq<u8>;

/// The fields that `postcard` reads from `bytes`, or what it says of bytes that
/// it cannot read. Lengths are read as machine words, so which overlong ones are
/// refused depends on the word size.
pub uninterp spec fn postcard_decoding(bytes: Seq<u8>, word_bits: u32) -> Result<
    (Seq<Seq<char>>, Seq<WireAddrView>, Option<Seq<char>>),
    Seq<char>,
>;

/// Whether the fields are read from `bytes`, whatever follows them.
pub open spec fn reads_back(
    bytes: Seq<u8>,
    relay_urls: Seq<Seq<char>>,
    ip_addrs: Seq<WireAddrView>,
    user_data: Option<Seq<char>>,
) -> bool {
    forall|rest: Seq<u8>|
        (#[trigger] postcard_decoding(bytes + rest, usize::BITS)) matches Ok(fields) && fields == (
            relay_urls,
            ip_addrs,
            user_data,
        )
}

/// The encoded record.
pub open spec fn encoded(wire: WireDataView) -> Seq<u8> {
    postcard_encoding(
        wire.relay_urls,
        wire.ip_addrs.map_values(|addr: SocketAddrView| to_wire_addr(addr)),
        wire.user_data,
    )
}

/// The record that bytes decode to.
pub open spec fn decoded(bytes: Seq<u8>) -> Result<WireDataView, LookupErrorView> {
    match postcard_decoding(bytes, usize::BITS) {
        Ok((relay_urls, ip_addrs, user_data)) => Ok(
            WireDataView {
                relay_urls,
                ip_addrs: ip_addrs.map_values(|addr: WireAddrView| from_wire_addr(addr)),
                user_data,
            },
        ),
        Err(text) => Err(LookupErrorView::Decode(text)),
    }
}

/// What is left of a record when it has been encoded and decoded again: the flow
/// labels and scopes of its IPv6 addresses are gone.
pub open spec fn transmitted(wire: WireDataView) -> WireDataView {
    WireDataView {
        relay_urls: wire.relay_urls,
        ip_addrs: wire.ip_addrs.map_values(
            |addr: SocketAddrView| from_wire_addr(to_wire_addr(addr)),
        ),
        user_data: wire.user_data,
    }
}

/// Trusted: parsing an `iroh::RelayUrl` from a text and printing it again.
///
/// The result is a function of the text and named [`relay_url_text`]. Nothing
/// is said of which texts parse: that is the grammar of URLs. Nor is it said that
/// a printed URL parses to itself: `file:///C:/./`, which the text `file:C:`, a
/// tab and `./` are printed as, parses to `file:///C:/`.
#[verifier::external_body]
fn parse_relay_url(text: &str) -> (url: Option<String>)
    ensures
        text_view(url) == relay_url_text(text@),
{
    match text.parse::<iroh::RelayUrl>() {
        Ok(url) => Some(url.to_string()),
        Err(_) => None,
    }
}

/// Trusted: `iroh::address_lookup::UserData::try_from` on a `String`, with `None`
/// for its error. It takes texts of up to [`MAX_USER_DATA`] bytes, unchanged.
#[verifier::external_body]
fn accept_user_data(text: String) -> (accepted: Option<String>)
    ensures
        accepted is Some <==> encode_utf8(text@).len() <= MAX_USER_DATA,
        accepted matches Some(t) ==> t@ == text@,
{
    match iroh::address_lookup::UserData::try_from(text) {
        Ok(user_data) => Some(user_data.to_string()),
        Err(_) => None,
    }
}

/// Trusted: `postcard::to_stdvec` on the fields of a record.
///
/// A tuple is encoded as a struct with the same fields would be. Writing to a
/// vector never fails. The bytes are a function of the fields and named
/// [`postcard_encoding`]; `postcard::from_bytes` reads the fields back from them
/// and ignores whatever follows.
#[verifier::external_body]
fn postcard_encode(
    relay_urls: &Vec<String>,
    ip_addrs: &Vec<WireAddr>,
    user_data: &Option<String>,
) -> (bytes: Option<Vec<u8>>)
    ensures
        bytes is Some,
        bytes matches Some(b) ==> b@ == postcard_encoding(
            text_views(relay_urls@),
            wire_addr_views(ip_addrs@),
            text_view(*user_data),
        ),
        bytes matches Some(b) ==> reads_back(
            b@,
            text_views(relay_urls@),
            wire_addr_views(ip_addrs@),
            text_view(*user_data),
        ),
{
    postcard::to_stdvec(&(relay_urls, ip_addrs, user_data)).ok()
}

/// Trusted: `postcard::from_bytes` for the fields of a record, with its error
/// printed. The result is a function of the bytes and of the size of a machine
/// word, and named [`postcard_decoding`].
#[verifier::external_body]
fn postcard_decode(bytes: &[u8]) -> (fields: Result<
    (Vec<String>, Vec<WireAddr>, Option<String>),
    String,
>)
    ensures
        match fields {
            Ok((relay_urls, ip_addrs, user_data)) => postcard_decoding(
                bytes@,
                usize::BITS,
            ) matches Ok(f) && f == (
                text_views(relay_urls@),
                wire_addr_views(ip_addrs@),
                text_view(user_data),
            ),
            Err(text) => postcard_decoding(bytes@, usize::BITS) matches Err(t) && t == text@,
        },
{
    match postcard::from_bytes(bytes) {
        Ok(fields) => Ok(fields),
        Err(error) => Err(error.to_string()),
    }
}

/// The postcard wire format of the published record.
///
/// Custom transport addresses are not supported.
#[derive(Debug, PartialEq, Eq)]
pub struct WireData {
    pub relay_urls: Vec<String>,
    pub ip_addrs: Vec<SocketAddr>,
    pub user_data: Option<String>,
}

impl View for WireData {
    type V = WireDataView;

    open spec fn view(&self) -> WireDataView {
        WireDataView {
            relay_urls: text_views(self.relay_urls@),
            ip_addrs: socket_addr_views(self.ip_addrs@),
            user_data: text_view(self.user_data),
        }
    }
}

impl WireData {
    /// The record of an endpoint.
    pub fn from_endpoint_data(data: &EndpointData) -> (wire: WireData)
        ensures
            wire@ == wire_of(data@),
    {
        let addrs = data.addrs();
        let mut relay_urls: Vec<String> = Vec::new();
        let mut ip_addrs: Vec<SocketAddr> = Vec::new();
        let ghost views = addr_views(addrs@);
        assert(views.take(0) =~= Seq::empty());
        assert(text_views(relay_urls@) =~= Seq::empty());
        assert(socket_addr_views(ip_addrs@) =~= Seq::empty());
        for i in 0..addrs.len()
            invariant
                views == addr_views(addrs@),
                text_views(relay_urls@) == relay_urls_of(views.take(i as int)),
                socket_addr_views(ip_addrs@) == ip_addrs_of(views.take(i as int)),
        {
            let ghost urls_before = relay_urls@;
            let ghost ips_before = ip_addrs@;
            match &addrs[i] {
                TransportAddr::Relay(url) => {
                    relay_urls.push(url.clone());
                    assert(text_views(relay_urls@) =~= text_views(urls_before).push(url@));
                },
                TransportAddr::Ip(addr) => {
                    ip_addrs.push(addr.clone());
                    assert(socket_addr_views(ip_addrs@) =~= socket_addr_views(ips_before).push(
                        addr@,
                    ));
                },
                TransportAddr::Custom => {},
            }
            proof {
                let prefix = views.take(i + 1);
                assert(prefix.drop_last() =~= views.take(i as int));
                assert(prefix.last() == addrs@[i as int]@);
            }
        }
        assert(views.take(addrs@.len() as int) =~= views);
        let user_data = match data.user_data() {
            Some(text) => Some(text.clone()),
            None => None,
        };
        WireData { relay_urls, ip_addrs, user_data }
    }

    /// The endpoint data that the record stands for: the relays in their order,
    /// then the IP addresses in theirs, without repetitions.
    pub fn into_endpoint_data(self) -> (data: Result<EndpointData, LookupError>)
        ensures
            match data {
                Ok(d) => endpoint_of(self@) == Ok::<EndpointDataView, LookupErrorView>(d@),
                Err(e) => endpoint_of(self@) == Err::<EndpointDataView, LookupErrorView>(e@),
            },
    {
        let ghost wire = self@;
        let relay_urls = self.relay_urls;
        let ip_addrs = self.ip_addrs;
        let mut addrs: Vec<TransportAddr> = Vec::new();
        for i in 0..relay_urls.len()
            invariant
                wire == self@,
                wire.relay_urls == text_views(relay_urls@),
                addrs@.len() == i,
                forall|j: int|
                    0 <= j < i ==> {
                        &&& relay_url_text(#[trigger] wire.relay_urls[j]) is Some
                        &&& addrs@[j]@ == TransportAddrView::Relay(
                            relay_url_text(wire.relay_urls[j])->0,
                        )
                    },
        {
            match parse_relay_url(relay_urls[i].as_str()) {
                Some(url) => addrs.push(TransportAddr::Relay(url)),
                None => {
                    assert(relay_url_text(wire.relay_urls[i as int]) is None);
                    return Err(LookupError::BadRecord("invalid relay url"));
                },
            }
        }
        for i in 0..ip_addrs.len()
            invariant
                wire.relay_urls == text_views(relay_urls@),
                wire.ip_addrs == socket_addr_views(ip_addrs@),
                addrs@.len() == relay_urls@.len() + i,
                forall|j: int|
                    0 <= j < relay_urls@.len() ==> addrs@[j]@ == TransportAddrView::Relay(
                        relay_url_text(#[trigger] wire.relay_urls[j])->0,
                    ),
                forall|j: int|
                    0 <= j < i ==> addrs@[relay_urls@.len() + j]@ == TransportAddrView::Ip(
                        #[trigger] wire.ip_addrs[j],
                    ),
        {
            let addr = ip_addrs[i].clone();
            addrs.push(TransportAddr::Ip(addr));
        }
        assert(addr_views(addrs@) =~= listed_addrs(wire));
        let data = EndpointData::new(addrs);
        match self.user_data {
            Some(text) => match accept_user_data(text) {
                Some(accepted) => Ok(data.with_user_data(Some(accepted))),
                None => Err(LookupError::BadRecord("invalid user data")),
            },
            None => Ok(data),
        }
    }

    /// Encodes the record.
    ///
    /// Whatever follows the encoding, it decodes to the record, less what is not
    /// transmitted.
    pub fn encode(&self) -> (bytes: Option<Vec<u8>>)
        ensures
            bytes is Some,
            bytes->0@ == encoded(self@),
            forall|rest: Seq<u8>| #[trigger]
                decoded(bytes->0@ + rest) == Ok::<WireDataView, LookupErrorView>(
                    transmitted(self@),
                ),
    {
        let mut wire_addrs: Vec<WireAddr> = Vec::new();
        for i in 0..self.ip_addrs.len()
            invariant
                wire_addrs@.len() == i,
                forall|j: int|
                    0 <= j < i ==> wire_addr_view(#[trigger] wire_addrs@[j]) == to_wire_addr(
                        self.ip_addrs@[j]@,
                    ),
        {
            let wire_addr = match &self.ip_addrs[i] {
                SocketAddr::V4 { ip, port } => Ok((*ip, *port)),
                SocketAddr::V6 { ip, port, flowinfo: _, scope_id: _ } => Err((*ip, *port)),
            };
            wire_addrs.push(wire_addr);
        }
        let ghost ips = self@.ip_addrs;
        let ghost sent = ips.map_values(|addr: SocketAddrView| to_wire_addr(addr));
        assert(wire_addr_views(wire_addrs@) =~= sent);
        let bytes = postcard_encode(&self.relay_urls, &wire_addrs, &self.user_data);
        proof {
            assert(sent.map_values(|addr: WireAddrView| from_wire_addr(addr))
                =~= transmitted(self@).ip_addrs);
            assert forall|rest: Seq<u8>| #[trigger]
                decoded(bytes->0@ + rest) == Ok::<WireDataView, LookupErrorView>(
                    transmitted(self@),
                ) by {
                let _ = postcard_decoding(bytes->0@ + rest, usize::BITS);
            }
        }
        bytes
    }

    /// Decodes a record. Whatever follows it is ignored.
    pub fn decode(bytes: &[u8]) -> (wire: Result<WireData, LookupError>)
        ensures
            match wire {
                Ok(w) => decoded(bytes@) == Ok::<WireDataView, LookupErrorView>(w@),
                Err(e) => decoded(bytes@) == Err::<WireDataView, LookupErrorView>(e@),
            },
    {
        let (relay_urls, wire_addrs, user_data) = match postcard_decode(bytes) {
            Ok(fields) => fields,
            Err(text) => {
                return Err(LookupError::Decode(text));
            },
        };
        let mut ip_addrs: Vec<SocketAddr> = Vec::new();
        for i in 0..wire_addrs.len()
            invariant
                ip_addrs@.len() == i,
                forall|j: int|
                    0 <= j < i ==> (#[trigger] ip_addrs@[j])@ == from_wire_addr(
                        wire_addr_view(wire_addrs@[j]),
                    ),
        {
            let addr = match &wire_addrs[i] {
                Ok((ip, port)) => SocketAddr::V4 { ip: *ip, port: *port },
                Err((ip, port)) => SocketAddr::V6 {
                    ip: *ip,
                    port: *port,
                    flowinfo: 0,
                    scope_id: 0,
                },
            };
            ip_addrs.push(addr);
        }
        assert(socket_addr_views(ip_addrs@) =~= wire_addr_views(wire_addrs@).map_values(
            |addr: WireAddrView| from_wire_addr(addr),
        ));
        Ok(WireData { relay_urls, ip_addrs, user_data })
    }
}

/// Whether a record carries the address.
pub open spec fn is_carried(addr: TransportAddrView) -> bool {
    addr !is Custom
}

/// An address as it is read from a record that keeps of an IP address what `kept`
/// says. A relay URL is read as it is printed.
pub open spec fn as_read(
    addr: TransportAddrView,
    kept: spec_fn(SocketAddrView) -> SocketAddrView,
) -> TransportAddrView {
    match addr {
        TransportAddrView::Relay(url) => TransportAddrView::Relay(relay_url_text(url)->0),
        TransportAddrView::Ip(ip_addr) => TransportAddrView::Ip(kept(ip_addr)),
        TransportAddrView::Custom => addr,
    }
}

/// An address as it is read from a record that was transmitted: a relay URL as it
/// is printed, an IP address without flow label and scope.
pub open spec fn as_carried(addr: TransportAddrView) -> TransportAddrView {
    as_read(addr, |ip_addr: SocketAddrView| from_wire_addr(to_wire_addr(ip_addr)))
}

/// An address as it is read from a record that was not transmitted: a relay URL
/// as it is printed, an IP address as it was.
pub open spec fn as_listed(addr: TransportAddrView) -> TransportAddrView {
    as_read(addr, |ip_addr: SocketAddrView| ip_addr)
}

/// Whether every relay among the addresses has a URL that parses.
pub open spec fn relay_urls_parse(addrs: Seq<TransportAddrView>) -> bool {
    forall|i: int|
        0 <= i < addrs.len() ==> ((#[trigger] addrs[i]) matches TransportAddrView::Relay(url)
            ==> relay_url_text(url) is Some)
}

/// A record lists the relay URLs and the IP addresses that the endpoint has.
proof fn lemma_fields(addrs: Seq<TransportAddrView>)
    ensures
        forall|url: Seq<char>| #[trigger]
            relay_urls_of(addrs).contains(url) <==> addrs.contains(TransportAddrView::Relay(url)),
        forall|addr: SocketAddrView| #[trigger]
            ip_addrs_of(addrs).contains(addr) <==> addrs.contains(TransportAddrView::Ip(addr)),
    decreases addrs.len(),
{
    if addrs.len() > 0 {
        let front = addrs.drop_last();
        let last = addrs.last();
        lemma_fields(front);
        assert(addrs =~= front.push(last));
        assert forall|url: Seq<char>| #[trigger]
            relay_urls_of(addrs).contains(url) <==> addrs.contains(
                TransportAddrView::Relay(url),
            ) by {
            lemma_push_contains(front, last, TransportAddrView::Relay(url));
            if let TransportAddrView::Relay(last_url) = last {
                lemma_push_contains(relay_urls_of(front), last_url, url);
            }
        }
        assert forall|addr: SocketAddrView| #[trigger]
            ip_addrs_of(addrs).contains(addr) <==> addrs.contains(TransportAddrView::Ip(addr)) by {
            lemma_push_contains(front, last, TransportAddrView::Ip(addr));
            if let TransportAddrView::Ip(last_addr) = last {
                lemma_push_contains(ip_addrs_of(front), last_addr, addr);
            }
        }
    }
}

/// What a list holds after a push.
proof fn lemma_push_contains<A>(items: Seq<A>, last: A, item: A)
    ensures
        items.push(last).contains(item) <==> items.contains(item) || item == last,
{
    let pushed = items.push(last);
    assert(pushed[items.len() as int] == last);
    if items.contains(item) {
        let i = choose|i: int| 0 <= i < items.len() && items[i] == item;
        assert(pushed[i] == item);
    }
}

/// The record of an endpoint, with what is kept of each IP address.
spec fn kept_wire(
    data: EndpointDataView,
    kept: spec_fn(SocketAddrView) -> SocketAddrView,
) -> WireDataView {
    WireDataView {
        relay_urls: relay_urls_of(data.addrs),
        ip_addrs: ip_addrs_of(data.addrs).map_values(kept),
        user_data: data.user_data,
    }
}

/// What is read from a record: each address that it carries, and no other.
proof fn lemma_read(data: EndpointDataView, kept: spec_fn(SocketAddrView) -> SocketAddrView)
    requires
        relay_urls_parse(data.addrs),
        user_data_fits(data.user_data),
    ensures
        endpoint_of(kept_wire(data, kept)) is Ok,
        endpoint_of(kept_wire(data, kept))->Ok_0.user_data == data.user_data,
        endpoint_of(kept_wire(data, kept))->Ok_0.addrs.no_duplicates(),
        forall|addr: TransportAddrView| #[trigger]
            endpoint_of(kept_wire(data, kept))->Ok_0.addrs.contains(addr) <==> exists|i: int|
                0 <= i < data.addrs.len() && is_carried(#[trigger] data.addrs[i]) && addr
                    == as_read(data.addrs[i], kept),
{
    let wire = kept_wire(data, kept);
    let listed = listed_addrs(wire);
    let urls = relay_urls_of(data.addrs);
    let ips = ip_addrs_of(data.addrs);
    lemma_fields(data.addrs);
    dedup_keeps_each_once(listed);
    assert forall|i: int| 0 <= i < urls.len() implies relay_url_text(
        #[trigger] urls[i],
    ) is Some by {
        assert(urls.contains(urls[i]));
        let j = choose|j: int|
            0 <= j < data.addrs.len() && data.addrs[j] == TransportAddrView::Relay(urls[i]);
        assert(data.addrs[j] == TransportAddrView::Relay(urls[i]));
    }
    let read = endpoint_of(wire)->Ok_0;
    assert forall|addr: TransportAddrView| #[trigger]
        read.addrs.contains(addr) <==> exists|i: int|
            0 <= i < data.addrs.len() && is_carried(#[trigger] data.addrs[i]) && addr == as_read(
                data.addrs[i],
                kept,
            ) by {
        if read.addrs.contains(addr) {
            assert(listed.contains(addr));
            let k = choose|k: int| 0 <= k < listed.len() && listed[k] == addr;
            if k < urls.len() {
                assert(urls.contains(urls[k]));
                let j = choose|j: int|
                    0 <= j < data.addrs.len() && data.addrs[j] == TransportAddrView::Relay(urls[k]);
                assert(is_carried(data.addrs[j]) && addr == as_read(data.addrs[j], kept));
            } else {
                let ip = ips[k - urls.len()];
                assert(ips.contains(ip));
                let j = choose|j: int|
                    0 <= j < data.addrs.len() && data.addrs[j] == TransportAddrView::Ip(ip);
                assert(is_carried(data.addrs[j]) && addr == as_read(data.addrs[j], kept));
            }
        }
        if exists|i: int|
            0 <= i < data.addrs.len() && is_carried(#[trigger] data.addrs[i]) && addr == as_read(
                data.addrs[i],
                kept,
            ) {
            let i = choose|i: int|
                0 <= i < data.addrs.len() && is_carried(#[trigger] data.addrs[i]) && addr
                    == as_read(data.addrs[i], kept);
            assert(data.addrs.contains(data.addrs[i]));
            match data.addrs[i] {
                TransportAddrView::Relay(url) => {
                    assert(urls.contains(url));
                    let k = choose|k: int| 0 <= k < urls.len() && urls[k] == url;
                    assert(listed[k] == addr);
                },
                TransportAddrView::Ip(ip) => {
                    assert(ips.contains(ip));
                    let k = choose|k: int| 0 <= k < ips.len() && ips[k] == ip;
                    assert(listed[urls.len() + k] == addr);
                },
                TransportAddrView::Custom => {},
            }
            assert(listed.contains(addr));
        }
    }
}

/// Where the relays come before the IP addresses, the addresses are their two
/// sublists.
proof fn lemma_relays_first(addrs: Seq<TransportAddrView>)
    requires
        forall|i: int| 0 <= i < addrs.len() ==> is_carried(#[trigger] addrs[i]),
        forall|i: int, j: int|
            0 <= i < j < addrs.len() && #[trigger] addrs[j] is Relay ==> #[trigger] addrs[i] is Relay,
    ensures
        addrs == relay_urls_of(addrs).map_values(|url: Seq<char>| TransportAddrView::Relay(url))
            + ip_addrs_of(addrs).map_values(|addr: SocketAddrView| TransportAddrView::Ip(addr)),
        addrs.len() > 0 && addrs.last() is Relay ==> ip_addrs_of(addrs).len() == 0,
    decreases addrs.len(),
{
    if addrs.len() > 0 {
        let front = addrs.drop_last();
        lemma_relays_first(front);
        assert(addrs =~= front.push(addrs.last()));
        if addrs.last() is Relay && front.len() > 0 {
            assert(addrs[front.len() - 1] is Relay);
        }
    }
    assert(addrs =~= relay_urls_of(addrs).map_values(
        |url: Seq<char>| TransportAddrView::Relay(url),
    ) + ip_addrs_of(addrs).map_values(|addr: SocketAddrView| TransportAddrView::Ip(addr)));
}

/// Where the record carries all addresses unchanged and the relays are listed
/// first, what is read is what was recorded.
proof fn lemma_read_unchanged(
    data: EndpointDataView,
    kept: spec_fn(SocketAddrView) -> SocketAddrView,
)
    requires
        data.addrs.no_duplicates(),
        relay_urls_parse(data.addrs),
        user_data_fits(data.user_data),
        forall|i: int|
            0 <= i < data.addrs.len() ==> is_carried(#[trigger] data.addrs[i]) && as_read(
                data.addrs[i],
                kept,
            ) == data.addrs[i],
        forall|i: int, j: int|
            0 <= i < j < data.addrs.len() && #[trigger] data.addrs[j] is Relay
                ==> #[trigger] data.addrs[i] is Relay,
    ensures
        endpoint_of(kept_wire(data, kept)) == Ok::<EndpointDataView, LookupErrorView>(data),
{
    let listed = listed_addrs(kept_wire(data, kept));
    let urls = relay_urls_of(data.addrs);
    let ips = ip_addrs_of(data.addrs);
    lemma_read(data, kept);
    lemma_relays_first(data.addrs);
    assert forall|i: int| 0 <= i < data.addrs.len() implies #[trigger] listed[i]
        == data.addrs[i] by {
        if i < urls.len() {
            assert(data.addrs[i] == TransportAddrView::Relay(urls[i]));
        } else {
            assert(data.addrs[i] == TransportAddrView::Ip(ips[i - urls.len()]));
        }
    }
    assert(listed =~= data.addrs);
    dedup_of_distinct(data.addrs);
}

/// A record keeps what it carries: what is read from it when it has been
/// transmitted is each address of the endpoint that a record can carry, once and
/// as it is carried, no other address, and the user data.
pub proof fn record_keeps_what_it_carries(data: EndpointDataView)
    requires
        relay_urls_parse(data.addrs),
        user_data_fits(data.user_data),
    ensures
        endpoint_of(transmitted(wire_of(data))) is Ok,
        endpoint_of(transmitted(wire_of(data)))->Ok_0.user_data == data.user_data,
        endpoint_of(transmitted(wire_of(data)))->Ok_0.addrs.no_duplicates(),
        forall|addr: TransportAddrView| #[trigger]
            endpoint_of(transmitted(wire_of(data)))->Ok_0.addrs.contains(addr) <==> exists|i: int|
                0 <= i < data.addrs.len() && is_carried(#[trigger] data.addrs[i]) && addr
                    == as_carried(data.addrs[i]),
{
    lemma_read(data, |addr: SocketAddrView| from_wire_addr(to_wire_addr(addr)));
}

/// A record that has not been transmitted keeps flow labels and scopes too: what
/// is read from it is each address of the endpoint that a record can carry, once
/// and with the relay URLs as they are printed, no other address, and the user
/// data.
pub proof fn record_keeps_what_it_lists(data: EndpointDataView)
    requires
        relay_urls_parse(data.addrs),
        user_data_fits(data.user_data),
    ensures
        endpoint_of(wire_of(data)) is Ok,
        endpoint_of(wire_of(data))->Ok_0.user_data == data.user_data,
        endpoint_of(wire_of(data))->Ok_0.addrs.no_duplicates(),
        forall|addr: TransportAddrView| #[trigger]
            endpoint_of(wire_of(data))->Ok_0.addrs.contains(addr) <==> exists|i: int|
                0 <= i < data.addrs.len() && is_carried(#[trigger] data.addrs[i]) && addr
                    == as_listed(data.addrs[i]),
{
    let kept = |addr: SocketAddrView| addr;
    assert(kept_wire(data, kept).ip_addrs =~= wire_of(data).ip_addrs);
    lemma_read(data, kept);
}

/// Endpoint data that a record carries unchanged, with the relays listed first,
/// is read back from its transmitted record as it was.
pub proof fn record_reads_back(data: EndpointDataView)
    requires
        data.addrs.no_duplicates(),
        relay_urls_parse(data.addrs),
        user_data_fits(data.user_data),
        forall|i: int|
            0 <= i < data.addrs.len() ==> is_carried(#[trigger] data.addrs[i]) && as_carried(
                data.addrs[i],
            ) == data.addrs[i],
        forall|i: int, j: int|
            0 <= i < j < data.addrs.len() && #[trigger] data.addrs[j] is Relay
                ==> #[trigger] data.addrs[i] is Relay,
    ensures
        endpoint_of(transmitted(wire_of(data))) == Ok::<EndpointDataView, LookupErrorView>(data),
{
    lemma_read_unchanged(data, |addr: SocketAddrView| from_wire_addr(to_wire_addr(addr)));
}

/// Endpoint data that a record lists unchanged, with the relays listed first, is
/// read back from a record that has not been transmitted as it was.
pub proof fn untransmitted_record_reads_back(data: EndpointDataView)
    requires
        data.addrs.no_duplicates(),
        relay_urls_parse(data.addrs),
        user_data_fits(data.user_data),
        forall|i: int|
            0 <= i < data.addrs.len() ==> is_carried(#[trigger] data.addrs[i]) && as_listed(
                data.addrs[i],
            ) == data.addrs[i],
        forall|i: int, j: int|
            0 <= i < j < data.addrs.len() && #[trigger] data.addrs[j] is Relay
                ==> #[trigger] data.addrs[i] is Relay,
    ensures
        endpoint_of(wire_of(data)) == Ok::<EndpointDataView, LookupErrorView>(data),
{
    let kept = |addr: SocketAddrView| addr;
    assert(kept_wire(data, kept).ip_addrs =~= wire_of(data).ip_addrs);
    lemma_read_unchanged(data, kept);
}

/// The contents of lists of texts and addresses are those of each item, in order and
/// whole.
pub proof fn views_keep_every_item(
    texts: Seq<String>,
    addrs: Seq<SocketAddr>,
    wire_addrs: Seq<WireAddr>,
)
    ensures
        text_views(texts).len() == texts.len(),
        forall|i: int| 0 <= i < texts.len() ==> #[trigger] text_views(texts)[i] == texts[i]@,
        socket_addr_views(addrs).len() == addrs.len(),
        forall|i: int| 0 <= i < addrs.len() ==> #[trigger] socket_addr_views(addrs)[i] == addrs[i]@,
        wire_addr_views(wire_addrs).len() == wire_addrs.len(),
        forall|i: int|
            0 <= i < wire_addrs.len() ==> match wire_addrs[i] {
                Ok((ip, port)) => (#[trigger] wire_addr_views(wire_addrs)[i]) matches Ok((x, p)) && x
                    == ip@ && p == port,
                Err((ip, port)) => wire_addr_views(wire_addrs)[i] matches Err((x, p)) && x == ip@
                    && p == port,
            },
{
}

/// The contents of a record are those of its fields, in order and whole.
pub proof fn wire_data_shows_every_field(wire: WireData)
    ensures
        wire@.relay_urls.len() == wire.relay_urls@.len(),
        forall|i: int|
            0 <= i < wire.relay_urls@.len() ==> #[trigger] wire@.relay_urls[i]
                == wire.relay_urls@[i]@,
        wire@.ip_addrs.len() == wire.ip_addrs@.len(),
        forall|i: int|
            0 <= i < wire.ip_addrs@.len() ==> #[trigger] wire@.ip_addrs[i] == wire.ip_addrs@[i]@,
        match wire.user_data {
            Some(text) => wire@.user_data == Some(text@),
            None => wire@.user_data is None,
        },
{
}

/// An endpoint's addresses enter its record one by one: one more relay adds its URL
/// at the end of the URLs, one more IP address adds itself at the end of the IP
/// addresses, and a custom address adds nothing.
pub proof fn record_lists_addresses_in_order(
    addrs: Seq<TransportAddrView>,
    url: Seq<char>,
    ip_addr: SocketAddrView,
)
    ensures
        relay_urls_of(Seq::empty()) == Seq::<Seq<char>>::empty(),
        ip_addrs_of(Seq::empty()) == Seq::<SocketAddrView>::empty(),
        relay_urls_of(addrs.push(TransportAddrView::Relay(url))) == relay_urls_of(addrs).push(url),
        ip_addrs_of(addrs.push(TransportAddrView::Relay(url))) == ip_addrs_of(addrs),
        relay_urls_of(addrs.push(TransportAddrView::Ip(ip_addr))) == relay_urls_of(addrs),
        ip_addrs_of(addrs.push(TransportAddrView::Ip(ip_addr))) == ip_addrs_of(addrs).push(ip_addr),
        relay_urls_of(addrs.push(TransportAddrView::Custom)) == relay_urls_of(addrs),
        ip_addrs_of(addrs.push(TransportAddrView::Custom)) == ip_addrs_of(addrs),
{
    assert(addrs.push(TransportAddrView::Relay(url)).drop_last() =~= addrs);
    assert(addrs.push(TransportAddrView::Ip(ip_addr)).drop_last() =~= addrs);
    assert(addrs.push(TransportAddrView::Custom).drop_last() =~= addrs);
}

/// The record of an endpoint has its relay URLs, its IP addresses and its user data.
pub proof fn record_has_all_fields(data: EndpointDataView)
    ensures
        wire_of(data).relay_urls == relay_urls_of(data.addrs),
        wire_of(data).ip_addrs == ip_addrs_of(data.addrs),
        wire_of(data).user_data == data.user_data,
{
}

/// What is encoded of a record are all its relay URLs and its user data, and of each
/// IP address, in order, the family with all octets and the port.
pub proof fn encoding_has_octets_and_port(wire: WireDataView, fields: Seq<WireAddrView>)
    requires
        fields.len() == wire.ip_addrs.len(),
        forall|i: int|
            0 <= i < fields.len() ==> match wire.ip_addrs[i] {
                SocketAddrView::V4 { ip, port } => (#[trigger] fields[i]) matches Ok((x, p)) && x
                    == ip && p == port,
                SocketAddrView::V6 { ip, port, .. } => fields[i] matches Err((x, p)) && x == ip && p
                    == port,
            },
    ensures
        encoded(wire) == postcard_encoding(wire.relay_urls, fields, wire.user_data),
{
    assert(wire.ip_addrs.map_values(|addr: SocketAddrView| to_wire_addr(addr)) =~= fields);
}

/// What is decoded of a record are all the relay URLs and the user data that it
/// holds, and each IP address, in order, with the family, all octets and the port
/// that it holds, and without flow label and scope.
pub proof fn decoding_has_octets_and_port(bytes: Seq<u8>)
    ensures
        match postcard_decoding(bytes, usize::BITS) {
            Ok((relay_urls, fields, user_data)) => decoded(bytes) matches Ok(wire) && {
                &&& wire.relay_urls == relay_urls
                &&& wire.user_data == user_data
                &&& wire.ip_addrs.len() == fields.len()
                &&& forall|i: int|
                    0 <= i < fields.len() ==> (#[trigger] wire.ip_addrs[i]) == match fields[i] {
                        Ok(v4) => SocketAddrView::V4 { ip: v4.0, port: v4.1 },
                        Err(v6) => SocketAddrView::V6 {
                            ip: v6.0,
                            port: v6.1,
                            flowinfo: 0,
                            scope_id: 0,
                        },
                    }
            },
            Err(text) => decoded(bytes) == Err::<WireDataView, LookupErrorView>(
                LookupErrorView::Decode(text),
            ),
        },
{
}

/// Transmission leaves the relay URLs, the user data and the IPv4 addresses of a
/// record as they are, and keeps all octets and the port of an IPv6 address, whose
/// flow label and scope become zero. No address is added, lost or moved.
pub proof fn transmission_keeps_octets_and_port(wire: WireDataView)
    ensures
        transmitted(wire).relay_urls == wire.relay_urls,
        transmitted(wire).user_data == wire.user_data,
        transmitted(wire).ip_addrs.len() == wire.ip_addrs.len(),
        forall|i: int|
            0 <= i < wire.ip_addrs.len() ==> (#[trigger] transmitted(wire).ip_addrs[i])
                == match wire.ip_addrs[i] {
                SocketAddrView::V4 { ip, port } => wire.ip_addrs[i],
                SocketAddrView::V6 { ip, port, .. } => SocketAddrView::V6 {
                    ip,
                    port,
                    flowinfo: 0,
                    scope_id: 0,
                },
            },
{
}

/// A record is read where all its relay URLs parse and its user data has at most 245
/// bytes. It is read as the user data, and as the relays with their URLs printed
/// followed by the IP addresses as they are, each in order and without repetitions.
/// A relay URL that does not parse is complained of first.
pub proof fn record_is_read_in_order(wire: WireDataView, listed: Seq<TransportAddrView>)
    requires
        listed.len() == wire.relay_urls.len() + wire.ip_addrs.len(),
        forall|j: int|
            0 <= j < wire.ip_addrs.len() ==> listed[wire.relay_urls.len() + j]
                == TransportAddrView::Ip(#[trigger] wire.ip_addrs[j]),
    ensures
        (exists|i: int|
            0 <= i < wire.relay_urls.len() && relay_url_text(#[trigger] wire.relay_urls[i]) is None)
            ==> endpoint_of(wire) == Err::<EndpointDataView, LookupErrorView>(
            LookupErrorView::BadRecord("invalid relay url"@),
        ),
        (forall|i: int|
            0 <= i < wire.relay_urls.len() ==> relay_url_text(#[trigger] wire.relay_urls[i]) == Some(
                listed[i]->Relay_0,
            ) && listed[i] is Relay) ==> endpoint_of(wire) == if (match wire.user_data {
            Some(text) => encode_utf8(text).len() <= 245,
            None => true,
        }) {
            Ok::<EndpointDataView, LookupErrorView>(
                EndpointDataView { addrs: dedup(listed), user_data: wire.user_data },
            )
        } else {
            Err(LookupErrorView::BadRecord("invalid user data"@))
        },
{
    if forall|i: int|
        0 <= i < wire.relay_urls.len() ==> relay_url_text(#[trigger] wire.relay_urls[i]) == Some(
            listed[i]->Relay_0,
        ) && listed[i] is Relay {
        assert forall|k: int| 0 <= k < listed.len() implies #[trigger] listed_addrs(wire)[k]
            == listed[k] by {
            if k < wire.relay_urls.len() {
                assert(relay_url_text(wire.relay_urls[k]) == Some(listed[k]->Relay_0));
            } else {
                assert(listed[wire.relay_urls.len() + (k - wire.relay_urls.len())]
                    == TransportAddrView::Ip(wire.ip_addrs[k - wire.relay_urls.len()]));
            }
        }
        assert(listed_addrs(wire) =~= listed);
    }
}

/// Of an endpoint whose relay URLs parse and whose user data has at most 245 bytes,
/// the transmitted record reads back each IPv4 address unchanged, each IPv6 address
/// with the same octets and port and without flow label and scope, each relay under
/// its printed URL, the user data, and nothing else.
pub proof fn published_addresses_read_back(
    data: EndpointDataView,
    ip: Seq<u8>,
    port: u16,
    flowinfo: u32,
    scope_id: u32,
    url: Seq<char>,
)
    requires
        data.user_data matches Some(text) ==> encode_utf8(text).len() <= 245,
    ensures
        (forall|i: int|
            0 <= i < data.addrs.len() && (#[trigger] data.addrs[i]) is Relay ==> relay_url_text(
                data.addrs[i]->Relay_0,
            ) is Some) ==> (endpoint_of(transmitted(wire_of(data))) matches Ok(found) && {
            &&& found.user_data == data.user_data
            &&& found.addrs.no_duplicates()
            &&& !found.addrs.contains(TransportAddrView::Custom)
            &&& found.addrs.contains(TransportAddrView::Ip(SocketAddrView::V4 { ip, port }))
                <==> data.addrs.contains(TransportAddrView::Ip(SocketAddrView::V4 { ip, port }))
            &&& data.addrs.contains(
                TransportAddrView::Ip(SocketAddrView::V6 { ip, port, flowinfo, scope_id }),
            ) ==> found.addrs.contains(
                TransportAddrView::Ip(
                    SocketAddrView::V6 { ip, port, flowinfo: 0, scope_id: 0 },
                ),
            )
            &&& found.addrs.contains(
                TransportAddrView::Ip(SocketAddrView::V6 { ip, port, flowinfo, scope_id }),
            ) ==> flowinfo == 0 && scope_id == 0 && exists|f: u32, s: u32|
                #[trigger] data.addrs.contains(
                    TransportAddrView::Ip(
                        SocketAddrView::V6 { ip, port, flowinfo: f, scope_id: s },
                    ),
                )
            &&& found.addrs.contains(TransportAddrView::Relay(url)) <==> exists|u: Seq<char>|
                data.addrs.contains(TransportAddrView::Relay(u)) && #[trigger] relay_url_text(u)
                    == Some(url)
        }),
{
    if forall|i: int|
        0 <= i < data.addrs.len() && (#[trigger] data.addrs[i]) is Relay ==> relay_url_text(
            data.addrs[i]->Relay_0,
        ) is Some {
        assert(relay_urls_parse(data.addrs));
        record_keeps_what_it_carries(data);
        let addrs = data.addrs;
        let found = endpoint_of(transmitted(wire_of(data)))->Ok_0;
        let v4 = TransportAddrView::Ip(SocketAddrView::V4 { ip, port });
        let v6 = TransportAddrView::Ip(SocketAddrView::V6 { ip, port, flowinfo, scope_id });
        let bare = TransportAddrView::Ip(
            SocketAddrView::V6 { ip, port, flowinfo: 0, scope_id: 0 },
        );
        if addrs.contains(v4) {
            let i = choose|i: int| 0 <= i < addrs.len() && addrs[i] == v4;
            assert(is_carried(addrs[i]) && v4 == as_carried(addrs[i]));
        }
        if found.addrs.contains(v4) {
            let i = choose|i: int|
                0 <= i < addrs.len() && is_carried(#[trigger] addrs[i]) && v4 == as_carried(
                    addrs[i],
                );
            assert(addrs[i] == v4);
        }
        if addrs.contains(v6) {
            let i = choose|i: int| 0 <= i < addrs.len() && addrs[i] == v6;
            assert(is_carried(addrs[i]) && bare == as_carried(addrs[i]));
        }
        if found.addrs.contains(v6) {
            let i = choose|i: int|
                0 <= i < addrs.len() && is_carried(#[trigger] addrs[i]) && v6 == as_carried(
                    addrs[i],
                );
            let (f, s) = (addrs[i]->Ip_0->flowinfo, addrs[i]->Ip_0->scope_id);
            let recorded = TransportAddrView::Ip(
                SocketAddrView::V6 { ip, port, flowinfo: f, scope_id: s },
            );
            assert(addrs[i] == recorded);
            assert(addrs.contains(recorded));
        }
        let relay = TransportAddrView::Relay(url);
        if found.addrs.contains(relay) {
            let i = choose|i: int|
                0 <= i < addrs.len() && is_carried(#[trigger] addrs[i]) && relay == as_carried(
                    addrs[i],
                );
            let u = addrs[i]->Relay_0;
            assert(addrs[i] == TransportAddrView::Relay(u));
            assert(relay_url_text(u) == Some(url));
        }
        if exists|u: Seq<char>|
            addrs.contains(TransportAddrView::Relay(u)) && #[trigger] relay_url_text(u) == Some(
                url,
            ) {
            let u = choose|u: Seq<char>|
                addrs.contains(TransportAddrView::Relay(u)) && #[trigger] relay_url_text(u) == Some(
                    url,
                );
            let i = choose|i: int|
                0 <= i < addrs.len() && addrs[i] == TransportAddrView::Relay(u);
            assert(is_carried(addrs[i]) && relay == as_carried(addrs[i]));
        }
    }
}

} // verus!
