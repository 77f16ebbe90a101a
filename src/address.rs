//! Classification of destination addresses: transparent, shielded-capable
//! (a unified address with an Orchard receiver), or invalid.
use vstd::prelude::*;
use zcash_address::unified::{Container, Encoding, Receiver};
use zcash_transparent::address::TransparentAddress;

verus! {

/// The receiver of a transparent address: the 20-byte hash of a public key or
/// of a script.
#[derive(Debug, Clone, Copy, PartialEq, Eq)]
pub enum TransparentReceiver {
    PublicKeyHash([u8; 20]),
    ScriptHash([u8; 20]),
}

impl View for TransparentReceiver {
    /// Whether it is a script hash, and the hash.
    type V = (bool, Seq<u8>);

    open spec fn view(&self) -> (bool, Seq<u8>) {
        match self {
            TransparentReceiver::PublicKeyHash(h) => (false, h@),
            TransparentReceiver::ScriptHash(h) => (true, h@),
        }
    }
}

/// The locking script that pays a transparent receiver.
pub open spec fn script_of(t: (bool, Seq<u8>)) -> Seq<u8> {
    if t.0 {
        seq![0xa9u8, 0x14u8] + t.1 + seq![0x87u8]
    } else {
        seq![0x76u8, 0xa9u8, 0x14u8] + t.1 + seq![0x88u8, 0xacu8]
    }
}

fn push_hash(out: &mut Vec<u8>, h: &[u8; 20])
    ensures
        final(out)@ == old(out)@ + h@,
{
    let mut j: usize = 0;
    while j < 20
        invariant
            j <= 20,
            out@ == old(out)@ + h@.subrange(0, j as int),
        decreases 20 - j,
    {
        out.push(h[j]);
        j = j + 1;
        assert(out@ =~= old(out)@ + h@.subrange(0, j as int));
    }
    assert(h@.subrange(0, 20) =~= h@);
}

impl TransparentReceiver {
    /// The locking script that pays this receiver: pay-to-public-key-hash or
    /// pay-to-script-hash.
    pub fn script(&self) -> (r: Vec<u8>)
        ensures
            r@ == script_of(self@),
    {
        let mut out: Vec<u8> = Vec::new();
        match self {
            TransparentReceiver::PublicKeyHash(h) => {
                out.push(0x76);
                out.push(0xa9);
                out.push(0x14);
                push_hash(&mut out, h);
                out.push(0x88);
                out.push(0xac);
            },
            TransparentReceiver::ScriptHash(h) => {
                out.push(0xa9);
                out.push(0x14);
                push_hash(&mut out, h);
                out.push(0x87);
            },
        }
        assert(out@ =~= script_of(self@));
        out
    }
}

/// The transparent receiver that an address string decodes to, if it is a
/// transparent address.
pub uninterp spec fn transparent_receiver_of(address: Seq<char>) -> Option<(bool, Seq<u8>)>;

/// The receivers of a unified address string, in order, if it is one: the raw
/// bytes of each Orchard receiver, `None` for a receiver of another kind.
pub uninterp spec fn unified_receivers_of(address: Seq<char>) -> Option<Seq<Option<Seq<u8>>>>;

/// Whether 43 raw bytes are a valid Orchard address.
pub uninterp spec fn valid_orchard_receiver(bytes: Seq<u8>) -> bool;

pub open spec fn receiver_views(v: Seq<Option<[u8; 43]>>) -> Seq<Option<Seq<u8>>> {
    v.map_values(
        |o: Option<[u8; 43]>|
            match o {
                Some(b) => Some(b@),
                None => None,
            },
    )
}

/// Relies on `zcash_address::ZcashAddress::try_from_encoded` and its
/// conversion to `zcash_transparent::address::TransparentAddress`: the result
/// depends on the string alone.
#[verifier::external_body]
fn decode_transparent(address: &str) -> (r: Option<TransparentReceiver>)
    ensures
        match r {
            Some(t) => transparent_receiver_of(address@) == Some(t@),
            None => transparent_receiver_of(address@) == None::<(bool, Seq<u8>)>,
        },
{
    let decoded = zcash_address::ZcashAddress::try_from_encoded(address).ok()?;
    match decoded.convert::<TransparentAddress>().ok()? {
        TransparentAddress::PublicKeyHash(h) => Some(TransparentReceiver::PublicKeyHash(h)),
        TransparentAddress::ScriptHash(h) => Some(TransparentReceiver::ScriptHash(h)),
    }
}

/// Relies on `zcash_address::unified::Address::decode` and `items`: the
/// receivers of a unified address, in order, depending on the string alone.
#[verifier::external_body]
fn decode_unified(address: &str) -> (r: Option<Vec<Option<[u8; 43]>>>)
    ensures
        match r {
            Some(v) => unified_receivers_of(address@) == Some(receiver_views(v@)),
            None => unified_receivers_of(address@) == None::<Seq<Option<Seq<u8>>>>,
        },
{
    let (_, ua) = zcash_address::unified::Address::decode(address).ok()?;
    Some(ua.items().into_iter().map(|r| match r {
        Receiver::Orchard(b) => Some(b),
        _ => None,
    }).collect())
}

/// Relies on `orchard::Address::from_raw_address_bytes`: whether the bytes
/// are a valid Orchard address depends on them alone.
#[verifier::external_body]
pub(crate) fn orchard_receiver_is_valid(bytes: &[u8; 43]) -> (r: bool)
    ensures
        r == valid_orchard_receiver(bytes@),
{
    bool::from(orchard::Address::from_raw_address_bytes(bytes).is_some())
}

/// The first Orchard receiver of a receiver list.
pub open spec fn first_orchard(rs: Seq<Option<Seq<u8>>>) -> Option<Seq<u8>>
    decreases rs.len(),
{
    if rs.len() == 0 {
        None
    } else {
        match rs[0] {
            Some(b) => Some(b),
            None => first_orchard(rs.drop_first()),
        }
    }
}

/// What an address is, as far as payments are concerned.
#[derive(Debug, Clone, Copy, PartialEq, Eq)]
pub enum AddressKind {
    Transparent(TransparentReceiver),
    /// A unified address, with the raw bytes of its first Orchard receiver.
    ShieldedCapable([u8; 43]),
    Invalid,
}

pub enum AddressModel {
    Transparent((bool, Seq<u8>)),
    ShieldedCapable(Seq<u8>),
    Invalid,
}

impl View for AddressKind {
    type V = AddressModel;

    open spec fn view(&self) -> AddressModel {
        match self {
            AddressKind::Transparent(t) => AddressModel::Transparent(t@),
            AddressKind::ShieldedCapable(b) => AddressModel::ShieldedCapable(b@),
            AddressKind::Invalid => AddressModel::Invalid,
        }
    }
}

/// The class of an address string: transparent if it decodes as a transparent
/// address; shielded-capable if it is a unified address whose first Orchard
/// receiver is valid; invalid otherwise (a unified address without an Orchard
/// receiver included).
pub open spec fn address_class(address: Seq<char>) -> AddressModel {
    match transparent_receiver_of(address) {
        Some(t) => AddressModel::Transparent(t),
        None => match unified_receivers_of(address) {
            None => AddressModel::Invalid,
            Some(rs) => match first_orchard(rs) {
                Some(b) => if valid_orchard_receiver(b) {
                    AddressModel::ShieldedCapable(b)
                } else {
                    AddressModel::Invalid
                },
                None => AddressModel::Invalid,
            },
        },
    }
}

/// Classifies a destination address.
pub fn classify_address(address: &str) -> (r: AddressKind)
    ensures
        r@ == address_class(address@),
{
    let transparent = decode_transparent(address);
    if let Some(t) = transparent {
        return AddressKind::Transparent(t);
    }
    assert(transparent_receiver_of(address@) == None::<(bool, Seq<u8>)>);
    let receivers = match decode_unified(address) {
        Some(v) => v,
        None => {
            return AddressKind::Invalid;
        },
    };
    let ghost rs = receiver_views(receivers@);
    let mut i: usize = 0;
    assert(rs.skip(0) =~= rs);
    while i < receivers.len()
        invariant
            i <= receivers@.len(),
            rs == receiver_views(receivers@),
            unified_receivers_of(address@) == Some(rs),
            transparent_receiver_of(address@) == None::<(bool, Seq<u8>)>,
            first_orchard(rs) == first_orchard(rs.skip(i as int)),
        decreases receivers@.len() - i,
    {
        assert(rs.skip(i as int).drop_first() =~= rs.skip(i + 1));
        assert(rs.skip(i as int)[0] == rs[i as int]);
        assert(rs[i as int] == match receivers@[i as int] {
            Some(b) => Some(b@),
            None => None::<Seq<u8>>,
        });
        if let Some(bytes) = receivers[i] {
            assert(rs.skip(i as int).len() > 0);
            assert(first_orchard(rs.skip(i as int)) == Some(bytes@));
            if orchard_receiver_is_valid(&bytes) {
                return AddressKind::ShieldedCapable(bytes);
            } else {
                return AddressKind::Invalid;
            }
        }
        i = i + 1;
    }
    assert(rs.skip(i as int).len() == 0);
    AddressKind::Invalid
}

} // verus!
