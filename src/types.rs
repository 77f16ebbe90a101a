//! Spendable transparent coins, payment requests, signature hashes, and the
//! binary format in which a list of coins is handed to the library.
use vstd::prelude::*;
use vstd::bytes::{
    spec_u16_from_le_bytes, spec_u16_to_le_bytes, spec_u32_from_le_bytes, spec_u32_to_le_bytes,
    spec_u64_from_le_bytes, spec_u64_to_le_bytes, u16_from_le_bytes, u16_to_le_bytes,
    u32_from_le_bytes, u32_to_le_bytes, u64_from_le_bytes, u64_to_le_bytes,
    lemma_auto_spec_u16_to_from_le_bytes, lemma_auto_spec_u32_to_from_le_bytes,
    lemma_auto_spec_u64_to_from_le_bytes,
};
use vstd::slice::slice_subrange;
use crate::address::{address_class, classify_address, AddressKind, AddressModel};

verus! {

/// A 32-byte digest that a signature for one transparent input authorizes.
#[derive(Debug, Clone, Copy, PartialEq, Eq)]
pub struct SigHash(pub [u8; 32]);

impl SigHash {
    pub fn as_bytes(&self) -> (r: &[u8; 32])
        ensures
            r@ == self.0@,
    {
        &self.0
    }

    pub fn to_vec(&self) -> (r: Vec<u8>)
        ensures
            r@ == self.0@,
    {
        let mut out: Vec<u8> = Vec::new();
        let mut i: usize = 0;
        while i < 32
            invariant
                i <= 32,
                out@ == self.0@.subrange(0, i as int),
            decreases 32 - i,
        {
            out.push(self.0[i]);
            i = i + 1;
        }
        assert(self.0@.subrange(0, 32) == self.0@);
        out
    }
}

/// Whether 33 bytes are a valid compressed public key.
pub uninterp spec fn valid_pubkey(bytes: Seq<u8>) -> bool;

/// Relies on `secp256k1::PublicKey::from_slice`: it accepts exactly the byte
/// strings that encode a point of the curve.
#[verifier::external_body]
pub(crate) fn pubkey_is_valid(bytes: &[u8; 33]) -> (r: bool)
    ensures
        r == valid_pubkey(bytes@),
{
    secp256k1::PublicKey::from_slice(bytes).is_ok()
}

/// A transparent coin to be spent.
#[derive(Debug, Clone, PartialEq, Eq)]
pub struct TransparentInput {
    /// Compressed public key that controls the coin.
    pub pubkey: [u8; 33],
    /// Identifier of the transaction that created the coin.
    pub txid: [u8; 32],
    /// Index of the coin among that transaction's outputs.
    pub vout: u32,
    /// Value of the coin.
    pub amount: u64,
    /// Locking script of the coin, without a length prefix.
    pub script_pubkey: Vec<u8>,
}

/// The value of a [`TransparentInput`].
pub struct InputModel {
    pub pubkey: Seq<u8>,
    pub txid: Seq<u8>,
    pub vout: u32,
    pub amount: u64,
    pub script: Seq<u8>,
}

impl View for TransparentInput {
    type V = InputModel;

    open spec fn view(&self) -> InputModel {
        InputModel {
            pubkey: self.pubkey@,
            txid: self.txid@,
            vout: self.vout,
            amount: self.amount,
            script: self.script_pubkey@,
        }
    }
}

pub open spec fn input_models(inputs: Seq<TransparentInput>) -> Seq<InputModel> {
    inputs.map_values(|i: TransparentInput| i@)
}

/// The field of an encoded input at which decoding stopped.
#[derive(Debug, Clone, Copy, PartialEq, Eq)]
pub enum InputField {
    Header,
    Pubkey,
    Txid,
    Vout,
    Amount,
    ScriptLength,
    Script,
}

/// Why a list of encoded inputs could not be decoded.
#[derive(Debug, Clone, Copy, PartialEq, Eq)]
pub enum InputCodecError {
    /// The buffer ends inside the named field of the input at `index`.
    Truncated { index: usize, field: InputField },
    /// The public key of the input at `index` is not a valid compressed key.
    InvalidPublicKey { index: usize },
}

/// Fixed part of an encoded input: key, txid, vout, amount and script length.
pub open spec fn fixed_len() -> nat {
    79
}

/// Encoding of one input.
pub open spec fn encode_input(m: InputModel) -> Seq<u8> {
    m.pubkey + m.txid + spec_u32_to_le_bytes(m.vout) + spec_u64_to_le_bytes(m.amount)
        + spec_u16_to_le_bytes(m.script.len() as u16) + m.script
}

/// Encodings of the inputs, one after the other.
pub open spec fn encode_inputs(s: Seq<InputModel>) -> Seq<u8>
    decreases s.len(),
{
    if s.len() == 0 {
        Seq::empty()
    } else {
        encode_inputs(s.drop_last()) + encode_input(s.last())
    }
}

/// The whole format: a two-byte little-endian count, then each input.
pub open spec fn encode_input_list(s: Seq<InputModel>) -> Seq<u8> {
    spec_u16_to_le_bytes(s.len() as u16) + encode_inputs(s)
}

/// Decodes the input at the start of `d`, the `index`-th of the list; on
/// success also gives the number of bytes it took.
pub open spec fn decode_input(d: Seq<u8>, index: nat) -> Result<(InputModel, nat), InputCodecError> {
    let i = index as usize;
    if d.len() < 33 {
        Err(InputCodecError::Truncated { index: i, field: InputField::Pubkey })
    } else if !valid_pubkey(d.subrange(0, 33)) {
        Err(InputCodecError::InvalidPublicKey { index: i })
    } else if d.len() < 65 {
        Err(InputCodecError::Truncated { index: i, field: InputField::Txid })
    } else if d.len() < 69 {
        Err(InputCodecError::Truncated { index: i, field: InputField::Vout })
    } else if d.len() < 77 {
        Err(InputCodecError::Truncated { index: i, field: InputField::Amount })
    } else if d.len() < 79 {
        Err(InputCodecError::Truncated { index: i, field: InputField::ScriptLength })
    } else {
        let n = spec_u16_from_le_bytes(d.subrange(77, 79)) as nat;
        if d.len() < 79 + n {
            Err(InputCodecError::Truncated { index: i, field: InputField::Script })
        } else {
            Ok(
                (
                    InputModel {
                        pubkey: d.subrange(0, 33),
                        txid: d.subrange(33, 65),
                        vout: spec_u32_from_le_bytes(d.subrange(65, 69)),
                        amount: spec_u64_from_le_bytes(d.subrange(69, 77)),
                        script: d.subrange(79, 79 + n as int),
                    },
                    79 + n,
                ),
            )
        }
    }
}

/// Decodes `count` inputs from the start of `d`, the first of which has
/// position `index` in the list. Bytes after the last input are not read.
pub open spec fn decode_inputs(d: Seq<u8>, count: nat, index: nat) -> Result<
    Seq<InputModel>,
    InputCodecError,
>
    decreases count,
{
    if count == 0 {
        Ok(Seq::empty())
    } else {
        match decode_input(d, index) {
            Err(e) => Err(e),
            Ok((m, n)) => match decode_inputs(d.skip(n as int), (count - 1) as nat, index + 1) {
                Err(e) => Err(e),
                Ok(rest) => Ok(seq![m] + rest),
            },
        }
    }
}

/// The meaning of a buffer: empty is the empty list; otherwise a count, then
/// that many inputs.
pub open spec fn decode_input_list(d: Seq<u8>) -> Result<Seq<InputModel>, InputCodecError> {
    if d.len() == 0 {
        Ok(Seq::empty())
    } else if d.len() < 2 {
        Err(InputCodecError::Truncated { index: 0, field: InputField::Header })
    } else {
        decode_inputs(d.skip(2), spec_u16_from_le_bytes(d.subrange(0, 2)) as nat, 0)
    }
}

pub open spec fn prepend(p: Seq<InputModel>, r: Result<Seq<InputModel>, InputCodecError>) -> Result<
    Seq<InputModel>,
    InputCodecError,
> {
    match r {
        Ok(rest) => Ok(p + rest),
        Err(e) => Err(e),
    }
}

fn copy_array33(data: &[u8], off: usize) -> (r: [u8; 33])
    requires
        off + 33 <= data@.len(),
    ensures
        r@ == data@.subrange(off as int, off + 33),
{
    let mut r = [0u8; 33];
    let len = data.len();
    let mut j: usize = 0;
    while j < 33
        invariant
            j <= 33,
            len == data@.len(),
            off + 33 <= data@.len(),
            r@.len() == 33,
            forall|k: int| 0 <= k < j ==> r@[k] == data@[off + k],
        decreases 33 - j,
    {
        r[j] = data[off + j];
        j = j + 1;
    }
    assert(r@ == data@.subrange(off as int, off + 33));
    r
}

fn copy_array32(data: &[u8], off: usize) -> (r: [u8; 32])
    requires
        off + 32 <= data@.len(),
    ensures
        r@ == data@.subrange(off as int, off + 32),
{
    let mut r = [0u8; 32];
    let len = data.len();
    let mut j: usize = 0;
    while j < 32
        invariant
            j <= 32,
            len == data@.len(),
            off + 32 <= data@.len(),
            r@.len() == 32,
            forall|k: int| 0 <= k < j ==> r@[k] == data@[off + k],
        decreases 32 - j,
    {
        r[j] = data[off + j];
        j = j + 1;
    }
    assert(r@ == data@.subrange(off as int, off + 32));
    r
}

/// Decodes one input at `off`: the step of [`parse_transparent_inputs`].
fn parse_one_input(data: &[u8], off: usize, index: usize) -> (r: Result<
    (TransparentInput, usize),
    InputCodecError,
>)
    requires
        off <= data@.len(),
    ensures
        match (r, decode_input(data@.skip(off as int), index as nat)) {
            (Ok((inp, n)), Ok((m, k))) => inp@ == m && n == k && off + n <= data@.len(),
            (Err(e), Err(f)) => e == f,
            _ => false,
        },
{
    let ghost d = data@.skip(off as int);
    let len = data.len();
    if len - off < 33 {
        return Err(InputCodecError::Truncated { index, field: InputField::Pubkey });
    }
    let pubkey = copy_array33(data, off);
    assert(pubkey@ == d.subrange(0, 33));
    if !pubkey_is_valid(&pubkey) {
        return Err(InputCodecError::InvalidPublicKey { index });
    }
    if len - off < 65 {
        return Err(InputCodecError::Truncated { index, field: InputField::Txid });
    }
    let txid = copy_array32(data, off + 33);
    assert(txid@ == d.subrange(33, 65));
    if len - off < 69 {
        return Err(InputCodecError::Truncated { index, field: InputField::Vout });
    }
    let vout_bytes = slice_subrange(data, off + 65, off + 69);
    assert(vout_bytes@ == d.subrange(65, 69));
    let vout = u32_from_le_bytes(vout_bytes);
    if len - off < 77 {
        return Err(InputCodecError::Truncated { index, field: InputField::Amount });
    }
    let amount_bytes = slice_subrange(data, off + 69, off + 77);
    assert(amount_bytes@ == d.subrange(69, 77));
    let amount = u64_from_le_bytes(amount_bytes);
    if len - off < 79 {
        return Err(InputCodecError::Truncated { index, field: InputField::ScriptLength });
    }
    let len_bytes = slice_subrange(data, off + 77, off + 79);
    assert(len_bytes@ == d.subrange(77, 79));
    let script_len = u16_from_le_bytes(len_bytes) as usize;
    if len - off - 79 < script_len {
        return Err(InputCodecError::Truncated { index, field: InputField::Script });
    }
    let script = slice_subrange(data, off + 79, off + 79 + script_len);
    assert(script@ == d.subrange(79, 79 + script_len as int));
    let script_pubkey = vstd::slice::slice_to_vec(script);
    Ok((TransparentInput { pubkey, txid, vout, amount, script_pubkey }, 79 + script_len))
}

/// Decodes a list of transparent inputs from the binary format: a two-byte
/// little-endian count, then per input a 33-byte public key, a 32-byte txid,
/// a four-byte vout, an eight-byte amount, a two-byte script length and the
/// script. An empty buffer is the empty list. Decoding stops at the first
/// field that overruns the buffer, or at the first invalid public key.
pub fn parse_transparent_inputs(data: &[u8]) -> (r: Result<Vec<TransparentInput>, InputCodecError>)
    ensures
        match (r, decode_input_list(data@)) {
            (Ok(v), Ok(s)) => input_models(v@) == s,
            (Err(e), Err(f)) => e == f,
            _ => false,
        },
{
    let len = data.len();
    if len == 0 {
        let v: Vec<TransparentInput> = Vec::new();
        assert(input_models(v@) =~= Seq::<InputModel>::empty());
        return Ok(v);
    }
    if len < 2 {
        return Err(InputCodecError::Truncated { index: 0, field: InputField::Header });
    }
    let header = slice_subrange(data, 0, 2);
    let count = u16_from_le_bytes(header) as usize;
    let ghost whole = decode_input_list(data@);
    let mut inputs: Vec<TransparentInput> = Vec::new();
    let mut offset: usize = 2;
    let mut i: usize = 0;
    while i < count
        invariant
            i <= count,
            2 <= offset <= data@.len(),
            len == data@.len(),
            count == spec_u16_from_le_bytes(data@.subrange(0, 2)) as nat,
            whole == decode_input_list(data@),
            whole == prepend(
                input_models(inputs@),
                decode_inputs(data@.skip(offset as int), (count - i) as nat, i as nat),
            ),
        decreases count - i,
    {
        match parse_one_input(data, offset, i) {
            Err(e) => {
                return Err(e);
            },
            Ok((input, n)) => {
                proof {
                    assert(data@.skip(offset as int).skip(n as int) =~= data@.skip(offset + n));
                    assert(input_models(inputs@.push(input)) =~= input_models(inputs@).push(input@));
                    let rest = decode_inputs(data@.skip(offset + n), (count - i - 1) as nat, i as nat + 1);
                    if let Ok(t) = rest {
                        assert(input_models(inputs@).push(input@) + t =~= input_models(inputs@) + (seq![input@] + t));
                    }
                }
                inputs.push(input);
                offset = offset + n;
                i = i + 1;
            },
        }
    }
    assert(input_models(inputs@) + Seq::<InputModel>::empty() =~= input_models(inputs@));
    Ok(inputs)
}

fn push_bytes(out: &mut Vec<u8>, bytes: &[u8])
    ensures
        final(out)@ == old(out)@ + bytes@,
{
    let mut j: usize = 0;
    while j < bytes.len()
        invariant
            j <= bytes@.len(),
            out@ == old(out)@ + bytes@.subrange(0, j as int),
        decreases bytes@.len() - j,
    {
        out.push(bytes[j]);
        j = j + 1;
        assert(out@ =~= old(out)@ + bytes@.subrange(0, j as int));
    }
    assert(bytes@.subrange(0, bytes@.len() as int) =~= bytes@);
}

/// Encodes a list of transparent inputs in the binary format that
/// [`parse_transparent_inputs`] reads.
pub fn serialize_transparent_inputs(inputs: &[TransparentInput]) -> (r: Vec<u8>)
    requires
        inputs@.len() <= 65535,
        forall|k: int| 0 <= k < inputs@.len() ==> (#[trigger] inputs@[k]).script_pubkey@.len() <= 65535,
    ensures
        r@ == encode_input_list(input_models(inputs@)),
{
    let mut data = u16_to_le_bytes(inputs.len() as u16);
    let ghost head = data@;
    let mut i: usize = 0;
    while i < inputs.len()
        invariant
            i <= inputs@.len(),
            inputs@.len() <= 65535,
            forall|k: int| 0 <= k < inputs@.len() ==> (#[trigger] inputs@[k]).script_pubkey@.len() <= 65535,
            head == spec_u16_to_le_bytes(inputs@.len() as u16),
            data@ == head + encode_inputs(input_models(inputs@.subrange(0, i as int))),
        decreases inputs@.len() - i,
    {
        let input = &inputs[i];
        let ghost before = data@;
        push_bytes(&mut data, &input.pubkey);
        push_bytes(&mut data, &input.txid);
        let mut vout = u32_to_le_bytes(input.vout);
        data.append(&mut vout);
        let mut amount = u64_to_le_bytes(input.amount);
        data.append(&mut amount);
        let mut script_len = u16_to_le_bytes(input.script_pubkey.len() as u16);
        data.append(&mut script_len);
        push_bytes(&mut data, input.script_pubkey.as_slice());
        proof {
            let s = input_models(inputs@.subrange(0, i + 1));
            assert(s.drop_last() =~= input_models(inputs@.subrange(0, i as int)));
            assert(s.last() == input@);
            assert(data@ =~= before + encode_input(input@));
        }
        i = i + 1;
    }
    assert(inputs@.subrange(0, inputs@.len() as int) =~= inputs@);
    data
}

/// A model that the format can carry and decode back: a valid key and a
/// script whose length fits in two bytes.
pub open spec fn encodable(m: InputModel) -> bool {
    &&& m.pubkey.len() == 33
    &&& valid_pubkey(m.pubkey)
    &&& m.txid.len() == 32
    &&& m.script.len() <= 65535
}

proof fn lemma_encode_front(s: Seq<InputModel>)
    requires
        s.len() > 0,
    ensures
        encode_inputs(s) == encode_input(s[0]) + encode_inputs(s.drop_first()),
    decreases s.len(),
{
    if s.len() > 1 {
        lemma_encode_front(s.drop_last());
        assert(s.drop_last().drop_first() =~= s.drop_first().drop_last());
        assert(s.drop_first().last() == s.last());
        assert(encode_inputs(s.drop_first()) == encode_inputs(s.drop_first().drop_last())
            + encode_input(s.drop_first().last()));
        assert(encode_inputs(s) =~= encode_input(s[0]) + encode_inputs(s.drop_first()));
    } else {
        assert(s.drop_last() =~= Seq::<InputModel>::empty());
        assert(s.drop_first() =~= Seq::<InputModel>::empty());
        assert(encode_inputs(s) =~= encode_input(s[0]) + encode_inputs(s.drop_first()));
    }
}

proof fn lemma_decode_input_encoded(m: InputModel, t: Seq<u8>, index: nat)
    requires
        encodable(m),
    ensures
        decode_input(encode_input(m) + t, index) == Ok::<(InputModel, nat), InputCodecError>(
            (m, 79 + m.script.len()),
        ),
        (encode_input(m) + t).skip(79 + m.script.len() as int) == t,
{
    lemma_auto_spec_u16_to_from_le_bytes();
    lemma_auto_spec_u32_to_from_le_bytes();
    lemma_auto_spec_u64_to_from_le_bytes();
    let d = encode_input(m) + t;
    let n = m.script.len();
    assert(d.subrange(0, 33) =~= m.pubkey);
    assert(d.subrange(33, 65) =~= m.txid);
    assert(d.subrange(65, 69) =~= spec_u32_to_le_bytes(m.vout));
    assert(d.subrange(69, 77) =~= spec_u64_to_le_bytes(m.amount));
    assert(d.subrange(77, 79) =~= spec_u16_to_le_bytes(n as u16));
    assert(spec_u16_from_le_bytes(d.subrange(77, 79)) == n as u16);
    assert(d.subrange(79, 79 + n as int) =~= m.script);
    assert(d.skip(79 + n as int) =~= t);
}

proof fn lemma_decode_inputs_encoded(s: Seq<InputModel>, t: Seq<u8>, index: nat)
    requires
        forall|k: int| 0 <= k < s.len() ==> encodable(#[trigger] s[k]),
    ensures
        decode_inputs(encode_inputs(s) + t, s.len(), index) == Ok::<Seq<InputModel>, InputCodecError>(s),
    decreases s.len(),
{
    if s.len() > 0 {
        lemma_encode_front(s);
        let rest = s.drop_first();
        assert(encodable(s[0]));
        assert(encode_inputs(s) + t =~= encode_input(s[0]) + (encode_inputs(rest) + t));
        lemma_decode_input_encoded(s[0], encode_inputs(rest) + t, index);
        assert forall|k: int| 0 <= k < rest.len() implies encodable(#[trigger] rest[k]) by {
            assert(rest[k] == s[k + 1]);
        }
        lemma_decode_inputs_encoded(rest, t, index + 1);
        let d = encode_inputs(s) + t;
        assert(d.skip(79 + s[0].script.len() as int) == encode_inputs(rest) + t);
        assert(rest.len() == (s.len() - 1) as nat);
        assert(seq![s[0]] + rest =~= s);
    } else {
        assert(s =~= Seq::<InputModel>::empty());
    }
}

/// Round trip of the input format: decoding the encoding of a list of inputs
/// with valid keys, at most 65535 of them and each script at most 65535 bytes
/// long, gives back the same list.
pub proof fn lemma_input_list_round_trip(inputs: Seq<TransparentInput>)
    requires
        inputs.len() <= 65535,
        forall|k: int|
            0 <= k < inputs.len() ==> valid_pubkey((#[trigger] inputs[k]).pubkey@)
                && inputs[k].script_pubkey@.len() <= 65535,
    ensures
        decode_input_list(encode_input_list(input_models(inputs))) == Ok::<
            Seq<InputModel>,
            InputCodecError,
        >(input_models(inputs)),
{
    lemma_auto_spec_u16_to_from_le_bytes();
    let s = input_models(inputs);
    let d = encode_input_list(s);
    assert forall|k: int| 0 <= k < s.len() implies encodable(#[trigger] s[k]) by {
        assert(s[k] == inputs[k]@);
    }
    lemma_decode_inputs_encoded(s, Seq::empty(), 0);
    assert(d.subrange(0, 2) =~= spec_u16_to_le_bytes(s.len() as u16));
    assert(d.skip(2) =~= encode_inputs(s) + Seq::<u8>::empty());
    assert(d.len() >= 2);
}

/// One recipient of a payment request.
#[derive(Debug, Clone)]
pub struct Payment {
    /// Destination: a transparent address, or a unified address with an
    /// Orchard receiver.
    pub address: String,
    /// Amount to send.
    pub amount: u64,
    /// Memo for a shielded recipient.
    pub memo: Option<String>,
    /// Label for the recipient.
    pub label: Option<String>,
    /// Message for the recipient.
    pub message: Option<String>,
}

/// A payment request: recipients in order, and the chain it is meant for.
#[derive(Debug, Clone)]
pub struct TransactionRequest {
    pub payments: Vec<Payment>,
    /// Memo for the transaction as a whole.
    pub memo: Option<String>,
    /// Height of the block the transaction is meant for; a recent height of
    /// the chosen network when absent.
    pub target_height: Option<u32>,
    /// Main network when set, test network otherwise.
    pub use_mainnet: bool,
}

/// Sum of the amounts of the payments.
pub open spec fn total_of(payments: Seq<Payment>) -> nat
    decreases payments.len(),
{
    if payments.len() == 0 {
        0
    } else {
        total_of(payments.drop_last()) + payments.last().amount as nat
    }
}

pub open spec fn is_transparent_address(address: Seq<char>) -> bool {
    address_class(address) is Transparent
}

pub open spec fn is_shielded_address(address: Seq<char>) -> bool {
    address_class(address) is ShieldedCapable
}

impl Payment {
    pub fn new(address: String, amount: u64) -> (r: Self)
        ensures
            r.address@ == address@,
            r.amount == amount,
            r.memo is None,
            r.label is None,
            r.message is None,
    {
        Payment { address, amount, memo: None, label: None, message: None }
    }

    pub fn with_memo(self, memo: String) -> (r: Self)
        ensures
            r.address@ == self.address@,
            r.amount == self.amount,
            r.memo == Some(memo),
            r.label == self.label,
            r.message == self.message,
    {
        Payment { memo: Some(memo), ..self }
    }

    pub fn with_label(self, label: String) -> (r: Self)
        ensures
            r.address@ == self.address@,
            r.amount == self.amount,
            r.memo == self.memo,
            r.label == Some(label),
            r.message == self.message,
    {
        Payment { label: Some(label), ..self }
    }

    pub fn with_message(self, message: String) -> (r: Self)
        ensures
            r.address@ == self.address@,
            r.amount == self.amount,
            r.memo == self.memo,
            r.label == self.label,
            r.message == Some(message),
    {
        Payment { message: Some(message), ..self }
    }

    /// Whether the destination decodes as a transparent address.
    pub fn is_transparent(&self) -> (r: bool)
        ensures
            r == is_transparent_address(self.address@),
    {
        match classify_address(self.address.as_str()) {
            AddressKind::Transparent(_) => true,
            _ => false,
        }
    }

    /// Whether the destination is a unified address with a valid Orchard
    /// receiver.
    pub fn is_unified(&self) -> (r: bool)
        ensures
            r == is_shielded_address(self.address@),
    {
        match classify_address(self.address.as_str()) {
            AddressKind::ShieldedCapable(_) => true,
            _ => false,
        }
    }
}

impl TransactionRequest {
    /// A request for the given payments, on the test network, for a default
    /// height.
    pub fn new(payments: Vec<Payment>) -> (r: Self)
        ensures
            r.payments@ == payments@,
            r.memo is None,
            r.target_height is None,
            !r.use_mainnet,
    {
        TransactionRequest { payments, memo: None, target_height: None, use_mainnet: false }
    }

    pub fn with_memo(self, memo: String) -> (r: Self)
        ensures
            r.payments@ == self.payments@,
            r.memo == Some(memo),
            r.target_height == self.target_height,
            r.use_mainnet == self.use_mainnet,
    {
        TransactionRequest { memo: Some(memo), ..self }
    }

    pub fn set_target_height(&mut self, target_height: u32)
        ensures
            final(self).payments@ == old(self).payments@,
            final(self).memo == old(self).memo,
            final(self).target_height == Some(target_height),
            final(self).use_mainnet == old(self).use_mainnet,
    {
        self.target_height = Some(target_height);
    }

    pub fn set_use_mainnet(&mut self, use_mainnet: bool)
        ensures
            final(self).payments@ == old(self).payments@,
            final(self).memo == old(self).memo,
            final(self).target_height == old(self).target_height,
            final(self).use_mainnet == use_mainnet,
    {
        self.use_mainnet = use_mainnet;
    }

    /// Sum of the payment amounts.
    pub fn total_amount(&self) -> (r: u64)
        requires
            total_of(self.payments@) <= u64::MAX,
        ensures
            r == total_of(self.payments@),
    {
        let mut total: u64 = 0;
        let mut i: usize = 0;
        while i < self.payments.len()
            invariant
                i <= self.payments@.len(),
                total_of(self.payments@) <= u64::MAX,
                total == total_of(self.payments@.subrange(0, i as int)),
            decreases self.payments@.len() - i,
        {
            proof {
                lemma_total_prefix_le(self.payments@, i as int + 1);
                assert(self.payments@.subrange(0, i + 1).drop_last() =~= self.payments@.subrange(0, i as int));
            }
            total = total + self.payments[i].amount;
            i = i + 1;
        }
        assert(self.payments@.subrange(0, i as int) =~= self.payments@);
        total
    }

    /// Whether any payment goes to a destination that is not transparent.
    pub fn has_shielded_outputs(&self) -> (r: bool)
        ensures
            r == exists|k: int|
                0 <= k < self.payments@.len() && !is_transparent_address(
                    #[trigger] self.payments@[k].address@,
                ),
    {
        let mut i: usize = 0;
        while i < self.payments.len()
            invariant
                i <= self.payments@.len(),
                forall|k: int| 0 <= k < i ==> is_transparent_address(#[trigger] self.payments@[k].address@),
            decreases self.payments@.len() - i,
        {
            if !self.payments[i].is_transparent() {
                return true;
            }
            i = i + 1;
        }
        false
    }
}

/// The total of a prefix never exceeds the total of the whole list.
pub proof fn lemma_total_prefix_le(payments: Seq<Payment>, n: int)
    requires
        0 <= n <= payments.len(),
    ensures
        total_of(payments.subrange(0, n)) <= total_of(payments),
    decreases payments.len(),
{
    if n < payments.len() {
        assert(payments.drop_last().subrange(0, n) =~= payments.subrange(0, n));
        lemma_total_prefix_le(payments.drop_last(), n);
    } else {
        assert(payments.subrange(0, n) =~= payments);
    }
}

} // verus!
