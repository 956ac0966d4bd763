//! Publishing: from endpoint data to a signed item under the blinded key.
use vstd::prelude::*;
use vstd::utf8::encode_utf8;

use crate::blinding::{
    blinded_prefix, blinded_public_key, blinded_secret_scalar, blinding_scalar, BlindedKeypair,
};
use crate::bytes::copy;
use crate::curve::{
    ed25519_signature, ed25519_verifies, ed25519_verifies_strictly, has_small_order,
    is_edwards_point, nonce_scalar, scales_as_base_multiple,
};
use crate::encryption::{
    encryptable, opened_record, padded, padding_appends_zeros, seal, sealed_record,
    sealed_size_is_uniform, SealError, MAX_MESSAGE_LEN, NONCE_LEN, PAD_TO, TAG_LEN,
};
use crate::endpoint::{EndpointData, EndpointDataView, SocketAddrView, TransportAddrView};
use crate::keys::SecretKey;
use crate::resolve::{lookup_result, publish_time, resolution, ResolveErrorView};
use crate::signable::{encode_signable, signable};
use crate::wire::{
    as_carried, decoded, encoded, endpoint_of, is_carried, published_addresses_read_back,
    record_keeps_what_it_carries, relay_url_text, relay_urls_parse, transmitted, user_data_fits,
    wire_of, WireData,
};

verus! {

/// A BEP44 mutable item without salt.
#[derive(Debug, PartialEq, Eq)]
pub struct SignedRecord {
    pub public: [u8; 32],
    pub signature: [u8; 64],
    pub value: Vec<u8>,
    pub seq: i64,
}

impl SignedRecord {
    /// Whether a DHT node accepts the item.
    pub open spec fn is_signed(&self) -> bool {
        ed25519_verifies(self.public@, signable(self.seq, self.value@), self.signature@)
    }
}

/// The sequence number of a record that is published at the given time: the
/// seconds since the Unix epoch, as a 64-bit two's complement number.
pub open spec fn sequence_number(unix_seconds: u64) -> int {
    if unix_seconds <= i64::MAX {
        unix_seconds as int
    } else {
        unix_seconds - 0x1_0000_0000_0000_0000
    }
}

/// What happened to the publishing task.
pub enum PublishEvent {
    /// The DHT actor is done bootstrapping, or is gone.
    Bootstrapped(bool),
    /// Nobody is left to hand over data.
    Closed,
    /// The data changed. Holds the latest.
    Changed(Option<EndpointData>),
    /// The republish interval has passed. Holds the latest data.
    Elapsed(Option<EndpointData>),
    /// The clock was read for the data that is to be published.
    Clock { data: EndpointData, unix_seconds: u64 },
    /// The DHT stored the record, or did not.
    PutDone(bool),
}

/// What the publishing task has to do.
pub enum PublishAction {
    /// End.
    Stop,
    /// Wait until the data changes or the republish interval has passed.
    Wait,
    /// Read the clock in order to publish the data.
    ReadClock(EndpointData),
    /// Store the record in the DHT.
    Put(SignedRecord),
    /// Give up: the data is too long to be encrypted.
    TooLong,
}

/// What a publisher signs and seals with.
pub struct PublisherKeys {
    keypair: BlindedKeypair,
    master_pk: [u8; 32],
    context: Vec<u8>,
}

impl PublisherKeys {
    /// The keypair is the master key's, blinded for the context, and shows the
    /// master key only where the blinding factor is one.
    #[verifier::type_invariant]
    spec fn matched(&self) -> bool {
        &&& blinded_public_key(self.master_pk@, self.context@) == Some(self.keypair.public_key())
        &&& blinding_scalar(self.master_pk@, self.context@) != 1 ==> self.keypair.public_key()
            != self.master_pk@
    }

    /// The public key of the endpoint.
    pub closed spec fn master_key(&self) -> Seq<u8> {
        self.master_pk@
    }

    /// The blinding context.
    pub closed spec fn context(&self) -> Seq<u8> {
        self.context@
    }

    /// The secret scalar of the blinded key.
    pub closed spec fn secret_scalar(&self) -> nat {
        self.keypair.secret_scalar()
    }

    /// The nonce prefix of the blinded key.
    pub closed spec fn prefix(&self) -> Seq<u8> {
        self.keypair.prefix()
    }

    /// The blinded public key.
    pub closed spec fn pseudonym(&self) -> Seq<u8> {
        self.keypair.public_key()
    }

    /// Whether `record` is one that this publisher makes of the data at the
    /// given time. Only the nonce, with which the value starts, is open.
    ///
    /// Under the endpoint id and the context, the value opens to the padded
    /// encoding of the data and resolves to the data as a record carries it.
    pub open spec fn is_record_of(
        &self,
        data: EndpointDataView,
        unix_seconds: u64,
        record: SignedRecord,
    ) -> bool {
        &&& record.public@ == self.pseudonym()
        &&& blinded_public_key(self.master_key(), self.context()) == Some(record.public@)
        &&& blinding_scalar(self.master_key(), self.context()) != 1 ==> record.public@
            != self.master_key()
        &&& record.seq == sequence_number(unix_seconds)
        &&& record.value@ == sealed_record(
            self.master_key(),
            self.context(),
            encoded(wire_of(data)),
            record.value@.take(NONCE_LEN as int),
        )
        &&& record.value@.len() == padded(encoded(wire_of(data))).len() + NONCE_LEN + TAG_LEN
        &&& opened_record(self.master_key(), self.context(), record.value@) == Ok::<
            Seq<u8>,
            SealError,
        >(padded(encoded(wire_of(data))))
        &&& record.signature@ == ed25519_signature(
            self.secret_scalar(),
            self.prefix(),
            self.pseudonym(),
            signable(record.seq, record.value@),
        )
        &&& record.is_signed()
        &&& resolution(self.master_key(), self.context(), record.value@) == lookup_result(
            endpoint_of(transmitted(wire_of(data))),
        )
    }

    /// Derives the keys of a publisher.
    pub fn new(secret_key: &SecretKey, context: &[u8]) -> (keys: PublisherKeys)
        ensures
            keys.master_key() == secret_key.public_key(),
            keys.context() == context@,
            keys.secret_scalar() == blinded_secret_scalar(secret_key.seed(), context@),
            keys.prefix() == blinded_prefix(secret_key.seed(), context@),
            blinded_public_key(secret_key.public_key(), context@) == Some(keys.pseudonym()),
            blinding_scalar(secret_key.public_key(), context@) != 1 ==> keys.pseudonym()
                != secret_key.public_key(),
            is_edwards_point(keys.pseudonym()),
            keys.secret_scalar() != 0,
            scales_as_base_multiple(keys.pseudonym(), keys.secret_scalar()),
            !has_small_order(keys.pseudonym()),
    {
        PublisherKeys {
            keypair: BlindedKeypair::from_master(secret_key, context),
            master_pk: secret_key.public(),
            context: copy(context),
        }
    }

    /// The blinded public key: the one that anybody derives who knows the
    /// endpoint id and the context.
    pub fn public_bytes(&self) -> (public: [u8; 32])
        ensures
            public@ == self.pseudonym(),
            blinded_public_key(self.master_key(), self.context()) == Some(public@),
            is_edwards_point(public@),
            !has_small_order(public@),
            blinding_scalar(self.master_key(), self.context()) != 1 ==> public@
                != self.master_key(),
    {
        proof {
            use_type_invariant(self);
        }
        self.keypair.public_bytes()
    }

    /// Signs a value and a sequence number.
    pub fn sign_value(&self, value: Vec<u8>, seq: i64) -> (record: SignedRecord)
        ensures
            record.public@ == self.pseudonym(),
            record.value@ == value@,
            record.seq == seq,
            record.signature@ == ed25519_signature(
                self.secret_scalar(),
                self.prefix(),
                self.pseudonym(),
                signable(seq, value@),
            ),
            record.is_signed(),
            ed25519_verifies_strictly(
                record.public@,
                signable(seq, value@),
                record.signature@,
            ) <==> nonce_scalar(self.prefix(), signable(seq, value@)) != 0,
    {
        let message = encode_signable(seq, &value);
        let signature = self.keypair.sign(&message);
        SignedRecord { public: self.keypair.public_bytes(), signature, value, seq }
    }

    /// Seals a plaintext and signs the result.
    ///
    /// Whatever the nonce turns out to be, the value opens to the padded
    /// plaintext for whoever knows the endpoint id and the context.
    pub fn seal_record(&self, plaintext: &[u8], seq: i64) -> (record: SignedRecord)
        requires
            encryptable(plaintext@.len()),
        ensures
            record.public@ == self.pseudonym(),
            record.value@ == sealed_record(
                self.master_key(),
                self.context(),
                plaintext@,
                record.value@.take(NONCE_LEN as int),
            ),
            record.value@.len() == padded(plaintext@).len() + NONCE_LEN + TAG_LEN,
            opened_record(self.master_key(), self.context(), record.value@) == Ok::<
                Seq<u8>,
                SealError,
            >(padded(plaintext@)),
            record.seq == seq,
            record.signature@ == ed25519_signature(
                self.secret_scalar(),
                self.prefix(),
                self.pseudonym(),
                signable(seq, record.value@),
            ),
            record.is_signed(),
    {
        let value = seal(&self.master_pk, &self.context, plaintext);
        self.sign_value(value, seq)
    }

    /// The record of an endpoint that is published at the given time.
    ///
    /// There is one unless the encoded data is too long to be encrypted.
    pub fn record(&self, data: &EndpointData, unix_seconds: u64) -> (record: Option<SignedRecord>)
        ensures
            record is Some <==> encryptable(encoded(wire_of(data@)).len()),
            record matches Some(r) ==> self.is_record_of(data@, unix_seconds, r),
    {
        proof {
            use_type_invariant(self);
        }
        let wire = WireData::from_endpoint_data(data);
        let plaintext = match wire.encode() {
            Some(plaintext) => plaintext,
            None => {
                return None;
            },
        };
        if plaintext.len() as u64 > MAX_MESSAGE_LEN {
            return None;
        }
        let seq: i64 = #[verifier::truncate] (unix_seconds as i64);
        proof {
            assert(unix_seconds <= 0x7fff_ffff_ffff_ffff ==> unix_seconds as i64 == unix_seconds)
                by (bit_vector);
            assert(unix_seconds > 0x7fff_ffff_ffff_ffff ==> unix_seconds as i64 == unix_seconds
                - 0x1_0000_0000_0000_0000) by (bit_vector);
        }
        let record = self.seal_record(&plaintext, seq);
        proof {
            let filling = padded(plaintext@).skip(plaintext@.len() as int);
            assert(padded(plaintext@) =~= plaintext@ + filling);
            assert(decoded(plaintext@ + filling) is Ok);
        }
        Some(record)
    }

    /// What the publishing task does next.
    ///
    /// The task ends only when the DHT actor is gone before it is done
    /// bootstrapping, or when nobody is left to hand over data. Every time it wakes it publishes the latest data, changed or
    /// not, if there is any. Whether a record was stored makes no difference.
    pub fn step(&self, event: PublishEvent) -> (action: PublishAction)
        ensures
            match event {
                PublishEvent::Bootstrapped(done) => if done {
                    action is Wait
                } else {
                    action is Stop
                },
                PublishEvent::Closed => action is Stop,
                PublishEvent::Changed(latest) | PublishEvent::Elapsed(latest) => match latest {
                    Some(data) => action == PublishAction::ReadClock(data),
                    None => action is Wait,
                },
                PublishEvent::Clock { data, unix_seconds } => match action {
                    PublishAction::Put(record) => {
                        &&& encryptable(encoded(wire_of(data@)).len())
                        &&& self.is_record_of(data@, unix_seconds, record)
                    },
                    PublishAction::TooLong => !encryptable(encoded(wire_of(data@)).len()),
                    _ => false,
                },
                PublishEvent::PutDone(_) => action is Wait,
            },
    {
        match event {
            PublishEvent::Bootstrapped(done) => if done {
                PublishAction::Wait
            } else {
                PublishAction::Stop
            },
            PublishEvent::Closed => PublishAction::Stop,
            PublishEvent::Changed(latest) | PublishEvent::Elapsed(latest) => match latest {
                Some(data) => PublishAction::ReadClock(data),
                None => PublishAction::Wait,
            },
            PublishEvent::Clock { data, unix_seconds } => match self.record(&data, unix_seconds) {
                Some(record) => PublishAction::Put(record),
                None => PublishAction::TooLong,
            },
            PublishEvent::PutDone(_) => PublishAction::Wait,
        }
    }
}

/// What is published is found and read by whoever knows the endpoint id and the
/// context. The record lies under the key that they derive, a DHT node accepts
/// it, and it resolves to the user data and to exactly the addresses that a
/// record carries, each once and as it is carried.
pub proof fn published_data_resolves(
    keys: PublisherKeys,
    data: EndpointDataView,
    unix_seconds: u64,
    record: SignedRecord,
)
    requires
        keys.is_record_of(data, unix_seconds, record),
        relay_urls_parse(data.addrs),
        user_data_fits(data.user_data),
    ensures
        blinded_public_key(keys.master_key(), keys.context()) == Some(record.public@),
        record.is_signed(),
        resolution(keys.master_key(), keys.context(), record.value@) matches Ok(found) && {
            &&& found.user_data == data.user_data
            &&& found.addrs.no_duplicates()
            &&& forall|addr: TransportAddrView| #[trigger]
                found.addrs.contains(addr) <==> exists|i: int|
                    0 <= i < data.addrs.len() && is_carried(#[trigger] data.addrs[i]) && addr
                        == as_carried(data.addrs[i])
        },
{
    record_keeps_what_it_carries(data);
}

/// What a crawler sees of a published record: it lies under the blinded key of the
/// endpoint, which is not the endpoint id unless the blinding factor is one, it is
/// signed under that key, and it opens to the encoding of the data followed by
/// zeros only.
pub proof fn published_record_is_blinded(
    keys: PublisherKeys,
    data: EndpointDataView,
    unix_seconds: u64,
    record: SignedRecord,
)
    requires
        keys.is_record_of(data, unix_seconds, record),
    ensures
        blinded_public_key(keys.master_key(), keys.context()) == Some(record.public@),
        blinding_scalar(keys.master_key(), keys.context()) != 1 ==> record.public@
            != keys.master_key(),
        record.is_signed(),
        opened_record(keys.master_key(), keys.context(), record.value@) matches Ok(opened) && {
            &&& encoded(wire_of(data)).len() <= opened.len()
            &&& opened.take(encoded(wire_of(data)).len() as int) == encoded(wire_of(data))
            &&& forall|i: int|
                encoded(wire_of(data)).len() <= i < opened.len() ==> #[trigger] opened[i] == 0
        },
{
    padding_appends_zeros(encoded(wire_of(data)));
}

/// A crawler sees one size, whatever is published, as long as its encoding is no
/// longer than [`PAD_TO`].
pub proof fn published_size_is_uniform(
    keys: PublisherKeys,
    data: EndpointDataView,
    unix_seconds: u64,
    record: SignedRecord,
)
    requires
        keys.is_record_of(data, unix_seconds, record),
        encoded(wire_of(data)).len() <= PAD_TO,
    ensures
        record.value@.len() == 488,
{
    sealed_size_is_uniform(encoded(wire_of(data)));
}

/// The time at which a record was published is read back from it, in
/// microseconds.
pub proof fn publish_time_reads_back(unix_seconds: u64, seq: i64)
    requires
        seq == sequence_number(unix_seconds),
        unix_seconds <= i64::MAX,
    ensures
        publish_time(seq) == Some(unix_seconds * 1_000_000),
{
}

/// A record that is published later has the higher sequence number, so the DHT
/// prefers it.
pub proof fn later_record_supersedes(earlier: u64, later: u64)
    requires
        earlier < later,
        later <= i64::MAX,
    ensures
        sequence_number(earlier) < sequence_number(later),
{
}

/// A sequence number is the time itself, or less than it by 2^64 where the time does
/// not fit in a signed number of 64 bits.
pub proof fn sequence_number_is_the_time(unix_seconds: u64)
    ensures
        unix_seconds < 0x8000_0000_0000_0000 ==> sequence_number(unix_seconds) == unix_seconds,
        unix_seconds >= 0x8000_0000_0000_0000 ==> sequence_number(unix_seconds) + 0x1_0000_0000_0000_0000
            == unix_seconds,
{
}

/// A published record is numbered by its time and signed with the blinded key over
/// its own number and value, and its value resolves to what the transmitted record of
/// the data reads as.
pub proof fn published_record_is_numbered_and_signed(
    keys: PublisherKeys,
    data: EndpointDataView,
    unix_seconds: u64,
    record: SignedRecord,
)
    requires
        keys.is_record_of(data, unix_seconds, record),
    ensures
        unix_seconds < 0x8000_0000_0000_0000 ==> record.seq == unix_seconds,
        unix_seconds >= 0x8000_0000_0000_0000 ==> record.seq + 0x1_0000_0000_0000_0000
            == unix_seconds,
        record.public@ == keys.pseudonym(),
        blinded_public_key(keys.master_key(), keys.context()) == Some(record.public@),
        ed25519_verifies(record.public@, signable(record.seq, record.value@), record.signature@),
        record.signature@ == ed25519_signature(
            keys.secret_scalar(),
            keys.prefix(),
            keys.pseudonym(),
            signable(record.seq, record.value@),
        ),
        record.value@ == sealed_record(
            keys.master_key(),
            keys.context(),
            encoded(wire_of(data)),
            record.value@.take(24),
        ),
        match endpoint_of(transmitted(wire_of(data))) {
            Ok(found) => resolution(keys.master_key(), keys.context(), record.value@) == Ok::<
                EndpointDataView,
                ResolveErrorView,
            >(found),
            Err(error) => resolution(keys.master_key(), keys.context(), record.value@) == Err::<
                EndpointDataView,
                ResolveErrorView,
            >(ResolveErrorView::Lookup(error)),
        },
{
}

/// What an endpoint publishes is what is resolved: each IPv4 address unchanged, each
/// IPv6 address with the same octets and port and without flow label and scope, the
/// user data, and no other IPv4 address.
pub proof fn published_addresses_resolve(
    keys: PublisherKeys,
    data: EndpointDataView,
    unix_seconds: u64,
    record: SignedRecord,
    ip: Seq<u8>,
    port: u16,
    flowinfo: u32,
    scope_id: u32,
)
    requires
        keys.is_record_of(data, unix_seconds, record),
        data.user_data matches Some(text) ==> encode_utf8(text).len() <= 245,
    ensures
        (forall|i: int|
            0 <= i < data.addrs.len() && (#[trigger] data.addrs[i]) is Relay ==> relay_url_text(
                data.addrs[i]->Relay_0,
            ) is Some) ==> (resolution(
            keys.master_key(),
            keys.context(),
            record.value@,
        ) matches Ok(found) && {
            &&& found.user_data == data.user_data
            &&& found.addrs.contains(TransportAddrView::Ip(SocketAddrView::V4 { ip, port }))
                <==> data.addrs.contains(TransportAddrView::Ip(SocketAddrView::V4 { ip, port }))
            &&& data.addrs.contains(
                TransportAddrView::Ip(SocketAddrView::V6 { ip, port, flowinfo, scope_id }),
            ) ==> found.addrs.contains(
                TransportAddrView::Ip(
                    SocketAddrView::V6 { ip, port, flowinfo: 0, scope_id: 0 },
                ),
            )
        }),
{
    published_addresses_read_back(data, ip, port, flowinfo, scope_id, Seq::empty());
}

} // verus!
