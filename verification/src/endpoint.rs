//! What is known about how to reach an endpoint.
use vstd::prelude::*;

verus! {

/// An IP address and a port.
#[allow(inconsistent_fields)]
#[derive(Debug, PartialEq, Eq)]
pub enum SocketAddr {
    V4 { ip: [u8; 4], port: u16 },
    V6 { ip: [u8; 16], port: u16, flowinfo: u32, scope_id: u32 },
}

/// A [`SocketAddr`], by its contents.
pub enum SocketAddrView {
    V4 { ip: Seq<u8>, port: u16 },
    V6 { ip: Seq<u8>, port: u16, flowinfo: u32, scope_id: u32 },
}

impl View for SocketAddr {
    type V = SocketAddrView;

    open spec fn view(&self) -> SocketAddrView {
        match *self {
            SocketAddr::V4 { ip, port } => SocketAddrView::V4 { ip: ip@, port },
            SocketAddr::V6 { ip, port, flowinfo, scope_id } => SocketAddrView::V6 {
                ip: ip@,
                port,
                flowinfo,
                scope_id,
            },
        }
    }
}

/// Whether two byte strings of one length hold the same bytes.
fn same_bytes(a: &[u8], b: &[u8]) -> (same: bool)
    requires
        a@.len() == b@.len(),
    ensures
        same == (a@ == b@),
{
    for i in 0..a.len()
        invariant
            a@.len() == b@.len(),
            forall|j: int| 0 <= j < i ==> a@[j] == b@[j],
    {
        if a[i] != b[i] {
            assert(a@[i as int] != b@[i as int]);
            return false;
        }
    }
    assert(a@ =~= b@);
    true
}

impl SocketAddr {
    /// Whether the two are the same address.
    fn same(&self, other: &SocketAddr) -> (same: bool)
        ensures
            same == (self@ == other@),
    {
        match (self, other) {
            (SocketAddr::V4 { ip: a, port: p }, SocketAddr::V4 { ip: b, port: q }) => {
                *p == *q && same_bytes(a, b)
            },
            (
                SocketAddr::V6 { ip: a, port: p, flowinfo: f, scope_id: s },
                SocketAddr::V6 { ip: b, port: q, flowinfo: g, scope_id: t },
            ) => { *p == *q && *f == *g && *s == *t && same_bytes(a, b) },
            _ => false,
        }
    }
}

impl Clone for SocketAddr {
    fn clone(&self) -> (copy: SocketAddr)
        ensures
            copy == *self,
            copy@ == self@,
    {
        match self {
            SocketAddr::V4 { ip, port } => SocketAddr::V4 { ip: *ip, port: *port },
            SocketAddr::V6 { ip, port, flowinfo, scope_id } => SocketAddr::V6 {
                ip: *ip,
                port: *port,
                flowinfo: *flowinfo,
                scope_id: *scope_id,
            },
        }
    }
}

/// One way to reach an endpoint.
#[derive(Debug, PartialEq, Eq)]
pub enum TransportAddr {
    /// Through the relay with this URL.
    Relay(String),
    /// Directly.
    Ip(SocketAddr),
    /// Over a custom transport. Records do not carry such addresses.
    Custom,
}

/// A [`TransportAddr`], by its contents.
pub enum TransportAddrView {
    Relay(Seq<char>),
    Ip(SocketAddrView),
    Custom,
}

impl View for TransportAddr {
    type V = TransportAddrView;

    open spec fn view(&self) -> TransportAddrView {
        match *self {
            TransportAddr::Relay(url) => TransportAddrView::Relay(url@),
            TransportAddr::Ip(addr) => TransportAddrView::Ip(addr@),
            TransportAddr::Custom => TransportAddrView::Custom,
        }
    }
}

impl TransportAddr {
    /// Whether the two are the same address.
    fn same(&self, other: &TransportAddr) -> (same: bool)
        ensures
            same == (self@ == other@),
    {
        match (self, other) {
            (TransportAddr::Relay(a), TransportAddr::Relay(b)) => *a == *b,
            (TransportAddr::Ip(a), TransportAddr::Ip(b)) => a.same(b),
            (TransportAddr::Custom, TransportAddr::Custom) => true,
            _ => false,
        }
    }
}

impl Clone for TransportAddr {
    fn clone(&self) -> (copy: TransportAddr)
        ensures
            copy == *self,
            copy@ == self@,
    {
        match self {
            TransportAddr::Relay(url) => TransportAddr::Relay(url.clone()),
            TransportAddr::Ip(addr) => TransportAddr::Ip(addr.clone()),
            TransportAddr::Custom => TransportAddr::Custom,
        }
    }
}

/// The contents of a list of addresses.
pub open spec fn addr_views(addrs: Seq<TransportAddr>) -> Seq<TransportAddrView> {
    addrs.map_values(|addr: TransportAddr| addr@)
}

/// The contents of an optional text.
pub open spec fn text_view(text: Option<String>) -> Option<Seq<char>> {
    match text {
        Some(t) => Some(t@),
        None => None,
    }
}

/// `items` without those that occurred before.
pub open spec fn dedup<A>(items: Seq<A>) -> Seq<A>
    decreases items.len(),
{
    if items.len() == 0 {
        items
    } else {
        let kept = dedup(items.drop_last());
        if kept.contains(items.last()) {
            kept
        } else {
            kept.push(items.last())
        }
    }
}

/// Dropping repetitions keeps every item, and each only once.
pub proof fn dedup_keeps_each_once<A>(items: Seq<A>)
    ensures
        dedup(items).no_duplicates(),
        forall|item: A| dedup(items).contains(item) <==> #[trigger] items.contains(item),
    decreases items.len(),
{
    if items.len() > 0 {
        let front = items.drop_last();
        let last = items.last();
        dedup_keeps_each_once(front);
        assert(items =~= front.push(last));
        let kept = dedup(front);
        assert forall|item: A| dedup(items).contains(item) <==> #[trigger] items.contains(
            item,
        ) by {
            if items.contains(item) {
                let i = choose|i: int| 0 <= i < items.len() && items[i] == item;
                if i < front.len() {
                    assert(front[i] == item);
                    assert(front.contains(item));
                    let j = choose|j: int| 0 <= j < kept.len() && kept[j] == item;
                    assert(dedup(items)[j] == item);
                } else if !kept.contains(last) {
                    assert(dedup(items)[kept.len() as int] == item);
                }
            }
            if dedup(items).contains(item) {
                let j = choose|j: int| 0 <= j < dedup(items).len() && dedup(items)[j] == item;
                if j < kept.len() {
                    assert(kept.contains(item));
                    assert(front.contains(item));
                    let i = choose|i: int| 0 <= i < front.len() && front[i] == item;
                    assert(items[i] == item);
                } else {
                    assert(items[items.len() - 1] == item);
                }
            }
        }
    }
}

/// A list without repetitions stays as it is.
pub proof fn dedup_of_distinct<A>(items: Seq<A>)
    requires
        items.no_duplicates(),
    ensures
        dedup(items) == items,
    decreases items.len(),
{
    if items.len() > 0 {
        let front = items.drop_last();
        assert(front.no_duplicates());
        dedup_of_distinct(front);
        assert(items =~= front.push(items.last()));
        assert(!front.contains(items.last()));
    }
}

/// Data about an endpoint that is published and resolved: how to reach it, and a
/// text of the application's own. No address is listed twice.
#[derive(Debug, PartialEq, Eq)]
pub struct EndpointData {
    addrs: Vec<TransportAddr>,
    user_data: Option<String>,
}

/// An [`EndpointData`], by its contents.
pub struct EndpointDataView {
    pub addrs: Seq<TransportAddrView>,
    pub user_data: Option<Seq<char>>,
}

impl View for EndpointData {
    type V = EndpointDataView;

    closed spec fn view(&self) -> EndpointDataView {
        EndpointDataView { addrs: addr_views(self.addrs@), user_data: text_view(self.user_data) }
    }
}

impl EndpointData {
    #[verifier::type_invariant]
    spec fn distinct(&self) -> bool {
        addr_views(self.addrs@).no_duplicates()
    }

    /// Endpoint data with the given addresses, in their order and without
    /// repetitions, and without user data.
    pub fn new(addrs: Vec<TransportAddr>) -> (data: EndpointData)
        ensures
            data@ == (EndpointDataView { addrs: dedup(addr_views(addrs@)), user_data: None }),
    {
        let mut kept: Vec<TransportAddr> = Vec::new();
        let ghost views = addr_views(addrs@);
        assert(views.take(0) =~= Seq::empty());
        for i in 0..addrs.len()
            invariant
                views == addr_views(addrs@),
                addr_views(kept@) == dedup(views.take(i as int)),
        {
            let mut seen = false;
            for j in 0..kept.len()
                invariant
                    i < addrs@.len(),
                    seen <==> exists|k: int| 0 <= k < j && (#[trigger] kept@[k])@ == addrs@[i as int]@,
            {
                if kept[j].same(&addrs[i]) {
                    seen = true;
                    assert(kept@[j as int]@ == addrs@[i as int]@);
                }
            }
            proof {
                let prefix = views.take(i + 1);
                assert(prefix.drop_last() =~= views.take(i as int));
                assert(prefix.last() == addrs@[i as int]@);
                if seen {
                    let k = choose|k: int|
                        0 <= k < kept@.len() && (#[trigger] kept@[k])@ == addrs@[i as int]@;
                    assert(addr_views(kept@)[k] == addrs@[i as int]@);
                } else {
                    assert forall|k: int| 0 <= k < addr_views(kept@).len() implies #[trigger] addr_views(
                        kept@,
                    )[k] != addrs@[i as int]@ by {
                        assert(kept@[k]@ != addrs@[i as int]@);
                    }
                }
            }
            if !seen {
                let ghost before = kept@;
                let addr = addrs[i].clone();
                kept.push(addr);
                assert(addr_views(kept@) =~= addr_views(before).push(addrs@[i as int]@));
            }
        }
        proof {
            assert(views.take(addrs@.len() as int) =~= views);
            dedup_keeps_each_once(views);
        }
        EndpointData { addrs: kept, user_data: None }
    }

    /// The same data with the given user data.
    pub fn with_user_data(self, user_data: Option<String>) -> (data: EndpointData)
        ensures
            data@ == (EndpointDataView { addrs: self@.addrs, user_data: text_view(user_data) }),
    {
        proof {
            use_type_invariant(&self);
        }
        EndpointData { addrs: self.addrs, user_data }
    }

    /// The addresses.
    pub fn addrs(&self) -> (addrs: &Vec<TransportAddr>)
        ensures
            addr_views(addrs@) == self@.addrs,
            self@.addrs.no_duplicates(),
    {
        proof {
            use_type_invariant(self);
        }
        &self.addrs
    }

    /// The user data.
    pub fn user_data(&self) -> (user_data: &Option<String>)
        ensures
            text_view(*user_data) == self@.user_data,
    {
        &self.user_data
    }
}

/// The contents of a socket address are its family and each of its fields.
pub proof fn socket_addr_shows_every_field(addr: SocketAddr)
    ensures
        match addr {
            SocketAddr::V4 { ip, port } => addr@ == (SocketAddrView::V4 { ip: ip@, port }),
            SocketAddr::V6 { ip, port, flowinfo, scope_id } => addr@ == (SocketAddrView::V6 {
                ip: ip@,
                port,
                flowinfo,
                scope_id,
            }),
        },
{
}

/// The contents of an address are its transport and the whole URL or socket address.
pub proof fn transport_addr_shows_every_field(addr: TransportAddr)
    ensures
        match addr {
            TransportAddr::Relay(url) => addr@ == TransportAddrView::Relay(url@),
            TransportAddr::Ip(ip_addr) => addr@ == TransportAddrView::Ip(ip_addr@),
            TransportAddr::Custom => addr@ == TransportAddrView::Custom,
        },
{
}

/// The contents of a list of addresses are those of each, in order, and those of an
/// optional text are the whole text.
pub proof fn views_keep_order_and_text(addrs: Seq<TransportAddr>, text: Option<String>)
    ensures
        addr_views(addrs).len() == addrs.len(),
        forall|i: int| 0 <= i < addrs.len() ==> #[trigger] addr_views(addrs)[i] == addrs[i]@,
        match text {
            Some(t) => text_view(text) == Some(t@),
            None => text_view(text) is None,
        },
{
}

/// Repetitions are dropped item by item: one more item is appended where it did not
/// occur before, and changes nothing where it did. So the first of equal items stays,
/// in its place.
pub proof fn dedup_keeps_the_first<A>(items: Seq<A>, item: A)
    ensures
        dedup(Seq::<A>::empty()) == Seq::<A>::empty(),
        items.contains(item) ==> dedup(items.push(item)) == dedup(items),
        !items.contains(item) ==> dedup(items.push(item)) == dedup(items).push(item),
{
    dedup_keeps_each_once(items);
    assert(items.push(item).drop_last() =~= items);
    assert(items.contains(item) <==> dedup(items).contains(item));
}

} // verus!
