//! The transaction codec. The wire format is this library's own fixed
//! layout: a leading byte, four big-endian 64-bit fields, an optional
//! recipient, the sender, a length-prefixed input and a 65-byte signature.
//! It is not Ethereum's RLP encoding.

use sha3::Digest;
use vstd::prelude::*;

verus! {

/// Largest leading byte of a typed transaction; every larger leading byte
/// marks a legacy-format transaction.
pub const MAX_TX_TYPE: u8 = 0x7f;

/// Bytes before the recipient flag: the type byte and four 64-bit fields.
pub const FLAG_POS: usize = 33;

pub const ADDRESS_LEN: usize = 20;

pub const SIGNATURE_LEN: usize = 65;

/// Mathematical view of a decoded transaction.
pub struct TxView {
    pub tx_type: u8,
    pub nonce: u64,
    pub gas_limit: u64,
    pub gas_price: u64,
    pub value: u64,
    pub to: Option<Seq<u8>>,
    pub sender: Seq<u8>,
    pub input: Seq<u8>,
    pub signature: Seq<u8>,
}

/// A decoded transaction. `tx_type` is its leading byte: the type of a typed
/// transaction when at most `MAX_TX_TYPE`, else the legacy format.
pub struct TransactionSigned {
    pub tx_type: u8,
    pub nonce: u64,
    pub gas_limit: u64,
    pub gas_price: u64,
    pub value: u64,
    pub to: Option<Vec<u8>>,
    pub sender: Vec<u8>,
    pub input: Vec<u8>,
    pub signature: Vec<u8>,
}

pub open spec fn opt_bytes_view(o: Option<Vec<u8>>) -> Option<Seq<u8>> {
    match o {
        Some(v) => Some(v@),
        None => None,
    }
}

impl View for TransactionSigned {
    type V = TxView;

    open spec fn view(&self) -> TxView {
        TxView {
            tx_type: self.tx_type,
            nonce: self.nonce,
            gas_limit: self.gas_limit,
            gas_price: self.gas_price,
            value: self.value,
            to: opt_bytes_view(self.to),
            sender: self.sender@,
            input: self.input@,
            signature: self.signature@,
        }
    }
}

/// A transaction that the wire format can carry.
pub open spec fn tx_wf(t: TxView) -> bool {
    &&& (t.to matches Some(a) ==> a.len() == ADDRESS_LEN)
    &&& t.sender.len() == ADDRESS_LEN
    &&& t.signature.len() == SIGNATURE_LEN
    &&& t.input.len() <= u64::MAX
}

/// Big-endian bytes of a 64-bit integer.
pub open spec fn be64(x: u64) -> Seq<u8> {
    seq![
        (x >> 56u64) as u8, (x >> 48u64) as u8, (x >> 40u64) as u8, (x >> 32u64) as u8,
        (x >> 24u64) as u8, (x >> 16u64) as u8, (x >> 8u64) as u8, x as u8,
    ]
}

/// The 64-bit integer whose big-endian bytes start `s`.
pub open spec fn read_be64(s: Seq<u8>) -> u64 {
    ((s[0] as u64) << 56u64) | ((s[1] as u64) << 48u64) | ((s[2] as u64) << 40u64) | ((
    s[3] as u64) << 32u64) | ((s[4] as u64) << 24u64) | ((s[5] as u64) << 16u64) | ((
    s[6] as u64) << 8u64) | (s[7] as u64)
}

pub open spec fn to_bytes(to: Option<Seq<u8>>) -> Seq<u8> {
    match to {
        Some(a) => seq![1u8] + a,
        None => seq![0u8],
    }
}

/// The bytes of a transaction that its signature covers: type byte, nonce,
/// gas limit, gas price, value, recipient (flag byte, then the address if
/// there is one), sender, input length, input.
pub open spec fn unsigned_bytes(t: TxView) -> Seq<u8> {
    seq![t.tx_type] + be64(t.nonce) + be64(t.gas_limit) + be64(t.gas_price) + be64(t.value)
        + to_bytes(t.to) + t.sender + be64(t.input.len() as u64) + t.input
}

/// Wire bytes of a transaction: the unsigned bytes, then the signature.
pub open spec fn encode_spec(t: TxView) -> Seq<u8> {
    unsigned_bytes(t) + t.signature
}

/// Offset of the sender, given the recipient flag.
pub open spec fn sender_pos(flag: u8) -> int {
    if flag == 0 {
        FLAG_POS + 1
    } else {
        FLAG_POS + 1 + ADDRESS_LEN
    }
}

/// Why bytes are not a transaction.
pub enum DecodeError {
    Truncated,
    BadRecipientFlag,
    LengthMismatch,
}

/// The first rule that `s` breaks, in the order the decoder checks them.
pub open spec fn decode_error_spec(s: Seq<u8>) -> DecodeError {
    if s.len() <= FLAG_POS {
        DecodeError::Truncated
    } else if s[FLAG_POS as int] > 1 {
        DecodeError::BadRecipientFlag
    } else if s.len() < sender_pos(s[FLAG_POS as int]) + ADDRESS_LEN + 8 {
        DecodeError::Truncated
    } else {
        DecodeError::LengthMismatch
    }
}

/// The transaction that bytes encode, if any.
pub open spec fn decode_spec(s: Seq<u8>) -> Option<TxView> {
    if s.len() <= FLAG_POS || s[FLAG_POS as int] > 1 {
        None
    } else {
        let flag = s[FLAG_POS as int];
        let p = sender_pos(flag);
        if s.len() < p + ADDRESS_LEN + 8 {
            None
        } else {
            let n = read_be64(s.subrange(p + ADDRESS_LEN, p + ADDRESS_LEN + 8)) as int;
            let q = p + ADDRESS_LEN + 8;
            if s.len() != q + n + SIGNATURE_LEN {
                None
            } else {
                Some(
                    TxView {
                        tx_type: s[0],
                        nonce: read_be64(s.subrange(1, 9)),
                        gas_limit: read_be64(s.subrange(9, 17)),
                        gas_price: read_be64(s.subrange(17, 25)),
                        value: read_be64(s.subrange(25, 33)),
                        to: if flag == 0 {
                            None
                        } else {
                            Some(s.subrange(FLAG_POS + 1, FLAG_POS + 1 + ADDRESS_LEN))
                        },
                        sender: s.subrange(p, p + ADDRESS_LEN),
                        input: s.subrange(q, q + n),
                        signature: s.subrange(q + n, s.len() as int),
                    },
                )
            }
        }
    }
}

pub proof fn lemma_be64_round_trip(x: u64)
    ensures
        read_be64(be64(x)) == x,
{
    let b = be64(x);
    assert(((((x >> 56u64) as u8) as u64) << 56u64) | ((((x >> 48u64) as u8) as u64) << 48u64)
        | ((((x >> 40u64) as u8) as u64) << 40u64) | ((((x >> 32u64) as u8) as u64) << 32u64) | ((
    ((x >> 24u64) as u8) as u64) << 24u64) | ((((x >> 16u64) as u8) as u64) << 16u64) | ((((x
        >> 8u64) as u8) as u64) << 8u64) | ((x as u8) as u64) == x) by (bit_vector);
}

pub proof fn lemma_be64_of_read(s: Seq<u8>)
    requires
        s.len() == 8,
    ensures
        be64(read_be64(s)) == s,
{
    let (b0, b1, b2, b3, b4, b5, b6, b7) = (s[0], s[1], s[2], s[3], s[4], s[5], s[6], s[7]);
    let x = read_be64(s);
    assert(x == ((b0 as u64) << 56u64) | ((b1 as u64) << 48u64) | ((b2 as u64) << 40u64) | ((
    b3 as u64) << 32u64) | ((b4 as u64) << 24u64) | ((b5 as u64) << 16u64) | ((b6 as u64)
        << 8u64) | (b7 as u64));
    assert(((x >> 56u64) as u8) == b0 && ((x >> 48u64) as u8) == b1 && ((x >> 40u64) as u8) == b2
        && ((x >> 32u64) as u8) == b3 && ((x >> 24u64) as u8) == b4 && ((x >> 16u64) as u8) == b5
        && ((x >> 8u64) as u8) == b6 && (x as u8) == b7) by (bit_vector)
        requires
            x == ((b0 as u64) << 56u64) | ((b1 as u64) << 48u64) | ((b2 as u64) << 40u64) | ((
            b3 as u64) << 32u64) | ((b4 as u64) << 24u64) | ((b5 as u64) << 16u64) | ((
            b6 as u64) << 8u64) | (b7 as u64),
    ;
    assert(be64(x) =~= s);
}

/// Every byte string that decodes is the encoding of what it decodes to, and
/// that transaction is well-formed: decoding is unambiguous.
pub proof fn lemma_encode_decode(s: Seq<u8>)
    requires
        decode_spec(s) is Some,
    ensures
        tx_wf(decode_spec(s)->Some_0),
        encode_spec(decode_spec(s)->Some_0) == s,
{
    let t = decode_spec(s)->Some_0;
    let p = sender_pos(s[FLAG_POS as int]);
    let q = p + ADDRESS_LEN + 8;
    lemma_be64_of_read(s.subrange(1, 9));
    lemma_be64_of_read(s.subrange(9, 17));
    lemma_be64_of_read(s.subrange(17, 25));
    lemma_be64_of_read(s.subrange(25, 33));
    lemma_be64_of_read(s.subrange(p + ADDRESS_LEN, q));
    assert(t.input.len() as u64 == read_be64(s.subrange(p + ADDRESS_LEN, q)));
    assert(encode_spec(t) =~= s);
}

/// Decoding the encoding of a well-formed transaction gives it back.
pub proof fn lemma_decode_encode(t: TxView)
    requires
        tx_wf(t),
    ensures
        decode_spec(encode_spec(t)) == Some(t),
{
    let e = encode_spec(t);
    let n = t.input.len();
    let p = sender_pos(if t.to is Some { 1u8 } else { 0u8 });
    let q = p + ADDRESS_LEN + 8;
    assert(e.len() == q + n + SIGNATURE_LEN);
    assert(e[FLAG_POS as int] == if t.to is Some { 1u8 } else { 0u8 });
    assert(e.subrange(1, 9) =~= be64(t.nonce));
    assert(e.subrange(9, 17) =~= be64(t.gas_limit));
    assert(e.subrange(17, 25) =~= be64(t.gas_price));
    assert(e.subrange(25, 33) =~= be64(t.value));
    assert(e.subrange(p, p + ADDRESS_LEN) =~= t.sender);
    assert(e.subrange(p + ADDRESS_LEN, q) =~= be64(n as u64));
    assert(e.subrange(q, q + n) =~= t.input);
    assert(e.subrange(q + n, e.len() as int) =~= t.signature);
    if let Some(a) = t.to {
        assert(e.subrange(FLAG_POS + 1, FLAG_POS + 1 + ADDRESS_LEN) =~= a);
    }
    lemma_be64_round_trip(t.nonce);
    lemma_be64_round_trip(t.gas_limit);
    lemma_be64_round_trip(t.gas_price);
    lemma_be64_round_trip(t.value);
    lemma_be64_round_trip(n as u64);
}

pub(crate) fn push_u64(out: &mut Vec<u8>, x: u64)
    ensures
        final(out)@ == old(out)@ + be64(x),
{
    out.push((x >> 56u64) as u8);
    out.push((x >> 48u64) as u8);
    out.push((x >> 40u64) as u8);
    out.push((x >> 32u64) as u8);
    out.push((x >> 24u64) as u8);
    out.push((x >> 16u64) as u8);
    out.push((x >> 8u64) as u8);
    out.push(x as u8);
    assert(out@ =~= old(out)@ + be64(x));
}

pub(crate) fn push_bytes(out: &mut Vec<u8>, b: &[u8])
    ensures
        final(out)@ == old(out)@ + b@,
{
    let mut i: usize = 0;
    while i < b.len()
        invariant
            i <= b@.len(),
            out@ == old(out)@ + b@.subrange(0, i as int),
        decreases b@.len() - i,
    {
        out.push(b[i]);
        i = i + 1;
        assert(out@ =~= old(out)@ + b@.subrange(0, i as int));
    }
    assert(b@.subrange(0, b@.len() as int) =~= b@);
}

fn read_u64(raw: &[u8], pos: usize) -> (r: u64)
    requires
        pos + 8 <= raw@.len(),
    ensures
        r == read_be64(raw@.subrange(pos as int, pos + 8)),
{
    ((raw[pos] as u64) << 56u64) | ((raw[pos + 1] as u64) << 48u64) | ((raw[pos + 2] as u64)
        << 40u64) | ((raw[pos + 3] as u64) << 32u64) | ((raw[pos + 4] as u64) << 24u64) | ((raw[pos
        + 5] as u64) << 16u64) | ((raw[pos + 6] as u64) << 8u64) | (raw[pos + 7] as u64)
}

fn copy_range(raw: &[u8], start: usize, end: usize) -> (r: Vec<u8>)
    requires
        start <= end <= raw@.len(),
    ensures
        r@ == raw@.subrange(start as int, end as int),
{
    let mut out: Vec<u8> = Vec::new();
    let mut i: usize = start;
    while i < end
        invariant
            start <= i <= end <= raw@.len(),
            out@ == raw@.subrange(start as int, i as int),
        decreases end - i,
    {
        out.push(raw[i]);
        i = i + 1;
        assert(out@ =~= raw@.subrange(start as int, i as int));
    }
    out
}

/// The bytes of a transaction that its signature covers.
fn encode_unsigned(tx: &TransactionSigned) -> (r: Vec<u8>)
    ensures
        r@ == unsigned_bytes(tx@),
{
    let mut out: Vec<u8> = Vec::new();
    out.push(tx.tx_type);
    assert(out@ =~= seq![tx.tx_type]);
    push_u64(&mut out, tx.nonce);
    push_u64(&mut out, tx.gas_limit);
    push_u64(&mut out, tx.gas_price);
    push_u64(&mut out, tx.value);
    let ghost before_to = out@;
    match &tx.to {
        Some(a) => {
            out.push(1u8);
            push_bytes(&mut out, a.as_slice());
            assert(out@ =~= before_to + to_bytes(opt_bytes_view(tx.to)));
        },
        None => {
            out.push(0u8);
            assert(out@ =~= before_to + to_bytes(opt_bytes_view(tx.to)));
        },
    }
    push_bytes(&mut out, tx.sender.as_slice());
    push_u64(&mut out, tx.input.len() as u64);
    push_bytes(&mut out, tx.input.as_slice());
    out
}

/// Encodes a transaction into its wire bytes.
pub fn encode_eth_tx(tx: &TransactionSigned) -> (r: Vec<u8>)
    ensures
        r@ == encode_spec(tx@),
{
    let mut out = encode_unsigned(tx);
    push_bytes(&mut out, tx.signature.as_slice());
    out
}

/// Decodes wire bytes. The leading byte tells the format apart: at most
/// `MAX_TX_TYPE` for a typed transaction, above it for a legacy one. Both
/// share the layout after that byte.
pub fn decode_eth_tx(raw: &[u8]) -> (r: Result<TransactionSigned, DecodeError>)
    ensures
        match r {
            Ok(tx) => decode_spec(raw@) == Some(tx@),
            Err(e) => decode_spec(raw@) is None && e == decode_error_spec(raw@),
        },
{
    if raw.len() <= FLAG_POS {
        return Err(DecodeError::Truncated);
    }
    let flag = raw[FLAG_POS];
    if flag > 1 {
        return Err(DecodeError::BadRecipientFlag);
    }
    let first = raw[0];
    let p: usize = if flag == 0 {
        FLAG_POS + 1
    } else {
        FLAG_POS + 1 + ADDRESS_LEN
    };
    if raw.len() < p + ADDRESS_LEN + 8 {
        return Err(DecodeError::Truncated);
    }
    let q: usize = p + ADDRESS_LEN + 8;
    let n = read_u64(raw, p + ADDRESS_LEN);
    let rest: usize = raw.len() - q;
    if rest < SIGNATURE_LEN || n != (rest - SIGNATURE_LEN) as u64 {
        return Err(DecodeError::LengthMismatch);
    }
    let sig_start: usize = raw.len() - SIGNATURE_LEN;
    let to = if flag == 0 {
        None
    } else {
        Some(copy_range(raw, FLAG_POS + 1, FLAG_POS + 1 + ADDRESS_LEN))
    };
    let tx = TransactionSigned {
        tx_type: first,
        nonce: read_u64(raw, 1),
        gas_limit: read_u64(raw, 9),
        gas_price: read_u64(raw, 17),
        value: read_u64(raw, 25),
        to,
        sender: copy_range(raw, p, p + ADDRESS_LEN),
        input: copy_range(raw, q, sig_start),
        signature: copy_range(raw, sig_start, raw.len()),
    };
    Ok(tx)
}

/// Whether bytes decode to a transaction.
pub fn validate_tx_format(raw: &[u8]) -> (r: bool)
    ensures
        r == decode_spec(raw@) is Some,
{
    decode_eth_tx(raw).is_ok()
}

/// Why a transaction is refused or fails to apply.
pub enum TxError {
    Decode(DecodeError),
    ZeroGasLimit,
    InvalidSignature,
    BlockGasExceeded,
}

/// The recovery byte fits the format: 27 or 28 for legacy, 0 or 1 for typed.
pub open spec fn recovery_byte_ok(t: TxView) -> bool {
    if t.tx_type > MAX_TX_TYPE {
        t.signature[64] == 27 || t.signature[64] == 28
    } else {
        t.signature[64] <= 1
    }
}

/// The recovery id (0 or 1) that the recovery byte stands for.
pub open spec fn recovery_id(t: TxView) -> u8 {
    if t.tx_type > MAX_TX_TYPE {
        (t.signature[64] - 27) as u8
    } else {
        t.signature[64]
    }
}

/// The address of the key that signed the transaction, if the signature
/// yields one: the last 20 bytes of the Keccak-256 digest of the recovered
/// public key without its leading format byte.
pub open spec fn signer_of(t: TxView) -> Option<Seq<u8>> {
    match recovered_key_of(
        keccak256_of(unsigned_bytes(t)),
        t.signature.subrange(0, 64),
        recovery_id(t),
    ) {
        Some(k) => Some(keccak256_of(k.subrange(1, 65)).subrange(12, 32)),
        None => None,
    }
}

/// The signature is valid: 65 bytes, a recovery byte that fits the format,
/// and it was made by the key of the sender over the unsigned bytes.
pub open spec fn signature_ok(t: TxView) -> bool {
    &&& t.signature.len() == SIGNATURE_LEN
    &&& recovery_byte_ok(t)
    &&& signer_of(t) == Some(t.sender)
}

/// The public key, as 65 uncompressed SEC1 bytes, that made the signature
/// `rs` with recovery id `recid` over the 32-byte digest `hash`, if any.
pub uninterp spec fn recovered_key_of(hash: Seq<u8>, rs: Seq<u8>, recid: u8) -> Option<Seq<u8>>;

/// Relies on k256's `ecdsa::VerifyingKey::recover_from_prehash`, with
/// `Signature::from_slice` and `RecoveryId::from_byte` to read its inputs:
/// the key that made the signature, encoded uncompressed (65 bytes).
#[verifier::external_body]
fn recover_key(hash: &[u8; 32], rs: &[u8], recid: u8) -> (r: Option<Vec<u8>>)
    requires
        rs@.len() == 64,
        recid <= 1,
    ensures
        opt_bytes_view(r) == recovered_key_of(hash@, rs@, recid),
        r matches Some(k) ==> k@.len() == 65,
{
    let sig = k256::ecdsa::Signature::from_slice(rs).ok()?;
    let id = k256::ecdsa::RecoveryId::from_byte(recid)?;
    let key = k256::ecdsa::VerifyingKey::recover_from_prehash(&hash[..], &sig, id).ok()?;
    Some(key.to_encoded_point(false).as_bytes().to_vec())
}

fn bytes_eq(a: &Vec<u8>, b: &Vec<u8>) -> (r: bool)
    ensures
        r == (a@ == b@),
{
    if a.len() != b.len() {
        return false;
    }
    let mut i: usize = 0;
    while i < a.len()
        invariant
            a@.len() == b@.len(),
            i <= a@.len(),
            forall|k: int| 0 <= k < i ==> a@[k] == b@[k],
        decreases a@.len() - i,
    {
        if a[i] != b[i] {
            return false;
        }
        i = i + 1;
    }
    assert(a@ =~= b@);
    true
}

/// The sender of a transaction, recovered from its signature; refused when
/// the signature does not recover to the sender it carries.
pub fn get_tx_sender(tx: &TransactionSigned) -> (r: Result<Vec<u8>, TxError>)
    ensures
        match r {
            Ok(a) => signature_ok(tx@) && a@ == tx@.sender,
            Err(e) => !signature_ok(tx@) && e == TxError::InvalidSignature,
        },
{
    if tx.signature.len() != SIGNATURE_LEN {
        return Err(TxError::InvalidSignature);
    }
    let v = tx.signature[64];
    let recid: u8 = if tx.tx_type > MAX_TX_TYPE {
        if v != 27 && v != 28 {
            return Err(TxError::InvalidSignature);
        }
        v - 27
    } else {
        if v > 1 {
            return Err(TxError::InvalidSignature);
        }
        v
    };
    let unsigned = encode_unsigned(tx);
    let hash = keccak256(unsigned.as_slice());
    let rs = copy_range(tx.signature.as_slice(), 0, 64);
    let key = match recover_key(&hash, rs.as_slice(), recid) {
        Some(k) => k,
        None => {
            return Err(TxError::InvalidSignature);
        },
    };
    let public = copy_range(key.as_slice(), 1, 65);
    let digest = keccak256(public.as_slice());
    let addr = copy_range(digest.as_slice(), 12, 32);
    if !bytes_eq(&addr, &tx.sender) {
        return Err(TxError::InvalidSignature);
    }
    Ok(addr)
}

/// The Keccak-256 digest of a byte string.
pub uninterp spec fn keccak256_of(data: Seq<u8>) -> Seq<u8>;

/// Relies on sha3::Keccak256 (through digest::Digest::digest): the 32-byte
/// Keccak-256 digest of `data`.
#[verifier::external_body]
pub(crate) fn keccak256(data: &[u8]) -> (r: [u8; 32])
    ensures
        r@ == keccak256_of(data@),
{
    sha3::Keccak256::digest(data).into()
}

/// The application hash: Keccak-256 of the state root followed by the
/// receipts root.
pub fn apphash_from(state_root: [u8; 32], receipts_root: [u8; 32]) -> (r: [u8; 32])
    ensures
        r@ == keccak256_of(state_root@ + receipts_root@),
{
    let mut data: Vec<u8> = Vec::new();
    push_bytes(&mut data, state_root.as_slice());
    push_bytes(&mut data, receipts_root.as_slice());
    keccak256(data.as_slice())
}

} // verus!
