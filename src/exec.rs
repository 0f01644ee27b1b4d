use vstd::prelude::*;

use crate::wire::{
    TransactionSigned, TxError, TxView, encode_eth_tx, encode_spec, keccak256, keccak256_of,
    push_bytes, push_u64, signature_ok,
};

verus! {

/// Chain id of this network.
pub const CHAIN_ID: u64 = 777;

/// Gas charged for each applied transaction: the cost of a plain transfer.
pub const TRANSFER_GAS: u64 = 21000;

/// Gas that one block may use in all.
pub const BLOCK_GAS_LIMIT: u64 = 30_000_000;

/// Block header fields that execution reads.
pub struct BlockHeader {
    pub height: i64,
    pub time: i64,
    pub proposer: Vec<u8>,
}

/// A header that a block can be executed under.
pub open spec fn header_valid(h: BlockHeader) -> bool {
    h.height > 0 && h.time >= 0
}

/// Chain configuration and the last committed state commitment.
pub struct RethCtx {
    pub db_path: String,
    pub chain_id: u64,
    pub state_root: [u8; 32],
}

/// A transaction that passes the checks made before execution.
pub open spec fn valid_basic(t: TxView) -> bool {
    t.gas_limit != 0 && signature_ok(t)
}

/// The error `validate_tx_basic` gives for a transaction that fails it.
pub open spec fn basic_error(t: TxView) -> TxError {
    if t.gas_limit == 0 {
        TxError::ZeroGasLimit
    } else {
        TxError::InvalidSignature
    }
}

/// Every entry of a proposal decodes.
pub open spec fn all_decode(txs: Seq<Vec<u8>>) -> bool {
    forall|i: int| 0 <= i < txs.len() ==> (#[trigger] crate::wire::decode_spec(txs[i]@)) is Some
}

pub open spec fn total_bytes(txs: Seq<Vec<u8>>) -> nat
    decreases txs.len(),
{
    if txs.len() == 0 {
        0
    } else {
        total_bytes(txs.drop_last()) + txs.last()@.len()
    }
}

impl RethCtx {
    /// A context for the store at `path`, with nothing committed yet.
    pub fn open(path: &str) -> (r: RethCtx)
        ensures
            r.db_path@ == path@,
            r.chain_id == CHAIN_ID,
            r.state_root@ == Seq::new(32, |i: int| 0u8),
    {
        let r = RethCtx { db_path: path.to_owned(), chain_id: CHAIN_ID, state_root: [0u8; 32] };
        assert(r.state_root@ =~= Seq::new(32, |i: int| 0u8));
        r
    }

    /// Checks that need no execution: a non-zero gas limit and a well-formed
    /// signature.
    pub fn validate_tx_basic(&self, tx: &TransactionSigned) -> (r: Result<(), TxError>)
        ensures
            r is Ok <==> valid_basic(tx@),
            r matches Err(e) ==> e == basic_error(tx@),
    {
        if tx.gas_limit == 0 {
            return Err(TxError::ZeroGasLimit);
        }
        match crate::wire::get_tx_sender(tx) {
            Ok(_) => Ok(()),
            Err(e) => Err(e),
        }
    }

    /// Selects transactions for a new block within `max_bytes`. This context
    /// keeps no pool of pending transactions, so the selection is empty.
    pub fn propose_block(&self, max_bytes: usize) -> (r: Proposed)
        ensures
            r.txs@.len() == 0,
            total_bytes(r.txs@) <= max_bytes,
    {
        Proposed { txs: Vec::new() }
    }

    /// Whether every entry of a received proposal decodes.
    pub fn quick_validate_proposal(&self, txs: &Vec<Vec<u8>>) -> (r: bool)
        ensures
            r == all_decode(txs@),
    {
        let mut i: usize = 0;
        while i < txs.len()
            invariant
                i <= txs@.len(),
                forall|k: int|
                    0 <= k < i ==> (#[trigger] crate::wire::decode_spec(txs@[k]@)) is Some,
            decreases txs@.len() - i,
        {
            if !crate::wire::validate_tx_format(txs[i].as_slice()) {
                return false;
            }
            i = i + 1;
        }
        true
    }
}

/// An ordered list of raw transactions proposed for a block.
pub struct Proposed {
    pub txs: Vec<Vec<u8>>,
}

/// A log emitted by a transaction.
pub struct Log {
    pub address: Vec<u8>,
    pub topics: Vec<Vec<u8>>,
    pub data: Vec<u8>,
}

/// Outcome of one applied transaction.
pub struct Receipt {
    pub success: bool,
    pub gas_used: u64,
    pub logs: Vec<Log>,
}

/// The receipt of a successful plain transfer.
pub open spec fn transfer_receipt(r: Receipt) -> bool {
    r.success && r.gas_used == TRANSFER_GAS && r.logs@.len() == 0
}

/// A byte string preceded by its length.
pub open spec fn framed(b: Seq<u8>) -> Seq<u8> {
    crate::wire::be64(b.len() as u64) + b
}

/// The topics of a log, each framed, in order.
pub open spec fn topics_bytes(ts: Seq<Vec<u8>>) -> Seq<u8>
    decreases ts.len(),
{
    if ts.len() == 0 {
        Seq::empty()
    } else {
        topics_bytes(ts.drop_last()) + framed(ts.last()@)
    }
}

/// Bytes of a log: its address, the number of its topics, the topics, and
/// its data.
pub open spec fn log_bytes(l: Log) -> Seq<u8> {
    framed(l.address@) + crate::wire::be64(l.topics@.len() as u64) + topics_bytes(l.topics@)
        + framed(l.data@)
}

/// Bytes of the logs of a receipt, in order.
pub open spec fn logs_bytes(ls: Seq<Log>) -> Seq<u8>
    decreases ls.len(),
{
    if ls.len() == 0 {
        Seq::empty()
    } else {
        logs_bytes(ls.drop_last()) + log_bytes(ls.last())
    }
}

/// What the receipts root commits to of a receipt: its success flag, its
/// gas and the bytes of its logs.
pub open spec fn receipt_view(r: Receipt) -> (bool, u64, Seq<u8>) {
    (r.success, r.gas_used, logs_bytes(r.logs@))
}

/// Bytes of a receipt that the receipts root commits to.
pub open spec fn receipt_bytes(r: (bool, u64, Seq<u8>)) -> Seq<u8> {
    seq![if r.0 { 1u8 } else { 0u8 }] + crate::wire::be64(r.1) + crate::wire::be64(
        r.2.len() as u64,
    ) + r.2
}

fn push_framed(out: &mut Vec<u8>, b: &Vec<u8>)
    ensures
        final(out)@ == old(out)@ + framed(b@),
{
    push_u64(out, b.len() as u64);
    push_bytes(out, b.as_slice());
    assert(out@ =~= old(out)@ + framed(b@));
}

fn push_log(out: &mut Vec<u8>, l: &Log)
    ensures
        final(out)@ == old(out)@ + log_bytes(*l),
{
    push_framed(out, &l.address);
    push_u64(out, l.topics.len() as u64);
    let ghost mid = out@;
    let mut i: usize = 0;
    assert(l.topics@.subrange(0, 0) =~= Seq::<Vec<u8>>::empty());
    while i < l.topics.len()
        invariant
            i <= l.topics@.len(),
            out@ == mid + topics_bytes(l.topics@.subrange(0, i as int)),
        decreases l.topics@.len() - i,
    {
        push_framed(out, &l.topics[i]);
        assert(l.topics@.subrange(0, i + 1).drop_last() =~= l.topics@.subrange(0, i as int));
        i = i + 1;
        assert(out@ =~= mid + topics_bytes(l.topics@.subrange(0, i as int)));
    }
    assert(l.topics@.subrange(0, i as int) =~= l.topics@);
    push_framed(out, &l.data);
    assert(out@ =~= old(out)@ + log_bytes(*l));
}

fn logs_encoding(logs: &Vec<Log>) -> (r: Vec<u8>)
    ensures
        r@ == logs_bytes(logs@),
{
    let mut out: Vec<u8> = Vec::new();
    let mut i: usize = 0;
    assert(logs@.subrange(0, 0) =~= Seq::<Log>::empty());
    while i < logs.len()
        invariant
            i <= logs@.len(),
            out@ == logs_bytes(logs@.subrange(0, i as int)),
        decreases logs@.len() - i,
    {
        push_log(&mut out, &logs[i]);
        assert(logs@.subrange(0, i + 1).drop_last() =~= logs@.subrange(0, i as int));
        i = i + 1;
    }
    assert(logs@.subrange(0, i as int) =~= logs@);
    out
}

pub open spec fn zero_root() -> Seq<u8> {
    Seq::new(32, |i: int| 0u8)
}

/// Receipts root: a hash chain over the receipts in order, from the zero root.
pub open spec fn receipts_root_spec(rs: Seq<(bool, u64, Seq<u8>)>) -> Seq<u8>
    decreases rs.len(),
{
    if rs.len() == 0 {
        zero_root()
    } else {
        keccak256_of(receipts_root_spec(rs.drop_last()) + receipt_bytes(rs.last()))
    }
}

/// State commitment after applying `txs` in order on top of `parent`: a hash
/// chain over the encoded transactions.
pub open spec fn state_root_spec(parent: Seq<u8>, txs: Seq<TxView>) -> Seq<u8>
    decreases txs.len(),
{
    if txs.len() == 0 {
        parent
    } else {
        keccak256_of(state_root_spec(parent, txs.drop_last()) + encode_spec(txs.last()))
    }
}

pub open spec fn gas_total(rs: Seq<(bool, u64, Seq<u8>)>) -> nat
    decreases rs.len(),
{
    if rs.len() == 0 {
        0
    } else {
        gas_total(rs.drop_last()) + rs.last().1 as nat
    }
}

/// Result of finalizing a block.
pub struct Finalized {
    pub state_root: [u8; 32],
    pub receipts_root: [u8; 32],
    pub gas_used: u64,
    pub timestamp: u64,
}

/// What a block session has accumulated.
pub struct BlockExecView {
    pub height: i64,
    pub time: i64,
    pub parent_root: Seq<u8>,
    pub applied: Seq<TxView>,
    pub receipts: Seq<(bool, u64, Seq<u8>)>,
    pub gas_used: u64,
}

/// A session just opened for `header` on top of the state root `parent`.
pub open spec fn session_start(header: BlockHeader, parent: Seq<u8>) -> BlockExecView {
    BlockExecView {
        height: header.height,
        time: header.time,
        parent_root: parent,
        applied: Seq::empty(),
        receipts: Seq::empty(),
        gas_used: 0,
    }
}

/// Whether a session in state `v` applies `t`.
pub open spec fn accepts(v: BlockExecView, t: TxView) -> bool {
    valid_basic(t) && v.gas_used + TRANSFER_GAS <= BLOCK_GAS_LIMIT
}

/// The session after it is handed `t`: unchanged where it refuses `t`.
pub open spec fn block_step(v: BlockExecView, t: TxView) -> BlockExecView {
    if accepts(v, t) {
        BlockExecView {
            applied: v.applied.push(t),
            receipts: v.receipts.push((true, TRANSFER_GAS, Seq::empty())),
            gas_used: (v.gas_used + TRANSFER_GAS) as u64,
            ..v
        }
    } else {
        v
    }
}

/// The session after it is handed each of `txs` in order: what
/// `BlockExec::apply_tx`, called on each in turn, leaves.
pub open spec fn run_block(v: BlockExecView, txs: Seq<TxView>) -> BlockExecView
    decreases txs.len(),
{
    if txs.len() == 0 {
        v
    } else {
        block_step(run_block(v, txs.drop_last()), txs.last())
    }
}

/// Two sessions opened by `BlockExec::new` under one header on one committed
/// state root, and handed the same transactions in order, finalize to the
/// same state root, receipts root and gas.
pub proof fn lemma_session_determinism(
    header: BlockHeader,
    root1: Seq<u8>,
    root2: Seq<u8>,
    txs: Seq<TxView>,
)
    requires
        root1 == root2,
    ensures
        finalize_spec(run_block(session_start(header, root1), txs)) == finalize_spec(
            run_block(session_start(header, root2), txs),
        ),
{
}

/// What finalizing a session yields: state root, receipts root, gas, time.
pub open spec fn finalize_spec(v: BlockExecView) -> (Seq<u8>, Seq<u8>, u64, i64) {
    (state_root_spec(v.parent_root, v.applied), receipts_root_spec(v.receipts), v.gas_used, v.time)
}


/// The open session of one block.
pub struct BlockExec {
    header: BlockHeader,
    parent_root: Ghost<Seq<u8>>,
    receipts: Vec<Receipt>,
    gas_used: u64,
    state_root: [u8; 32],
    executed_txs: Vec<TransactionSigned>,
}

impl View for BlockExec {
    type V = BlockExecView;

    closed spec fn view(&self) -> BlockExecView {
        BlockExecView {
            height: self.header.height,
            time: self.header.time,
            parent_root: self.parent_root@,
            applied: self.executed_txs@.map_values(|t: TransactionSigned| t@),
            receipts: self.receipts@.map_values(|r: Receipt| receipt_view(r)),
            gas_used: self.gas_used,
        }
    }
}

impl BlockExec {
    pub closed spec fn wf(&self) -> bool {
        &&& header_valid(self.header)
        &&& self.executed_txs@.len() == self.receipts@.len()
        &&& self.gas_used == gas_total(self.receipts@.map_values(|r: Receipt| receipt_view(r)))
        &&& self.gas_used <= BLOCK_GAS_LIMIT
        &&& self.state_root@ == state_root_spec(
            self.parent_root@,
            self.executed_txs@.map_values(|t: TransactionSigned| t@),
        )
    }

    /// Opens a session for the block of `header`, on top of the context's
    /// committed state.
    pub fn new(reth: &RethCtx, header: BlockHeader) -> (r: BlockExec)
        requires
            header_valid(header),
        ensures
            r.wf(),
            r@ == session_start(header, reth.state_root@),
    {
        let r = BlockExec {
            header,
            parent_root: Ghost(reth.state_root@),
            receipts: Vec::new(),
            gas_used: 0,
            state_root: reth.state_root,
            executed_txs: Vec::new(),
        };
        assert(r.executed_txs@.map_values(|t: TransactionSigned| t@) =~= Seq::<TxView>::empty());
        assert(r.receipts@.map_values(|r: Receipt| receipt_view(r)) =~= Seq::<(bool, u64, Seq<u8>)>::empty());
        r
    }

    /// Applies one transaction. It fails, leaving the session as it was, when
    /// the transaction fails the basic checks or the block has no gas left for
    /// it; else its receipt and its gas are added.
    pub fn apply_tx(&mut self, reth: &RethCtx, tx: TransactionSigned) -> (r: Result<
        Receipt,
        TxError,
    >)
        requires
            old(self).wf(),
        ensures
            final(self).wf(),
            final(self)@ == block_step(old(self)@, tx@),
            match r {
                Ok(rc) => accepts(old(self)@, tx@) && transfer_receipt(rc),
                Err(e) => !accepts(old(self)@, tx@) && if !valid_basic(tx@) {
                    e == basic_error(tx@)
                } else {
                    e == TxError::BlockGasExceeded
                },
            },
    {
        match reth.validate_tx_basic(&tx) {
            Err(e) => {
                return Err(e);
            },
            Ok(()) => {},
        }
        if self.gas_used > BLOCK_GAS_LIMIT - TRANSFER_GAS {
            return Err(TxError::BlockGasExceeded);
        }
        let ghost old_applied = self.executed_txs@.map_values(|t: TransactionSigned| t@);
        let ghost old_receipts = self.receipts@.map_values(|r: Receipt| receipt_view(r));
        let mut data: Vec<u8> = Vec::new();
        push_bytes(&mut data, self.state_root.as_slice());
        let enc = encode_eth_tx(&tx);
        push_bytes(&mut data, enc.as_slice());
        self.state_root = keccak256(data.as_slice());
        self.receipts.push(Receipt::ok());
        self.gas_used = self.gas_used + TRANSFER_GAS;
        self.executed_txs.push(tx);
        proof {
            let applied = self.executed_txs@.map_values(|t: TransactionSigned| t@);
            assert(applied =~= old_applied.push(tx@));
            assert(applied.drop_last() =~= old_applied);
            let rs = self.receipts@.map_values(|r: Receipt| receipt_view(r));
            assert(rs.last() == (true, TRANSFER_GAS, Seq::<u8>::empty()));
            assert(rs =~= old_receipts.push((true, TRANSFER_GAS, Seq::empty())));
            assert(rs.drop_last() =~= old_receipts);
        }
        Ok(Receipt::ok())
    }

    /// Finalizes the block: the state root after its transactions, the
    /// receipts root over its receipts, the gas it used and its time.
    pub fn commit(self) -> (r: Finalized)
        requires
            self.wf(),
        ensures
            (r.state_root@, r.receipts_root@, r.gas_used, r.timestamp as i64) == finalize_spec(
                self@,
            ),
            r.gas_used == gas_total(self@.receipts),
    {
        let ghost rs = self.receipts@.map_values(|r: Receipt| receipt_view(r));
        let mut acc: [u8; 32] = [0u8; 32];
        assert(acc@ =~= zero_root());
        assert(rs.subrange(0, 0) =~= Seq::<(bool, u64, Seq<u8>)>::empty());
        let mut i: usize = 0;
        while i < self.receipts.len()
            invariant
                i <= self.receipts@.len(),
                rs == self.receipts@.map_values(|r: Receipt| receipt_view(r)),
                acc@ == receipts_root_spec(rs.subrange(0, i as int)),
            decreases self.receipts@.len() - i,
        {
            let rc = &self.receipts[i];
            let mut data: Vec<u8> = Vec::new();
            push_bytes(&mut data, acc.as_slice());
            data.push(if rc.success { 1u8 } else { 0u8 });
            push_u64(&mut data, rc.gas_used);
            let logs = logs_encoding(&rc.logs);
            push_framed(&mut data, &logs);
            assert(data@ =~= acc@ + receipt_bytes(rs[i as int]));
            acc = keccak256(data.as_slice());
            i = i + 1;
            assert(rs.subrange(0, i as int).drop_last() =~= rs.subrange(0, i - 1));
        }
        assert(rs.subrange(0, i as int) =~= rs);
        Finalized {
            state_root: self.state_root,
            receipts_root: acc,
            gas_used: self.gas_used,
            timestamp: self.header.time as u64,
        }
    }
}

impl Receipt {
    /// The receipt of a successful plain transfer.
    pub fn ok() -> (r: Receipt)
        ensures
            transfer_receipt(r),
    {
        Receipt { success: true, gas_used: TRANSFER_GAS, logs: Vec::new() }
    }
}

/// An attribute of an event: key, value, and whether it is indexed.
pub struct EventAttribute {
    pub key: String,
    pub value: String,
    pub index: bool,
}

/// An event reported to the consensus engine for a delivered transaction.
pub struct Event {
    pub kind: String,
    pub attributes: Vec<EventAttribute>,
}

pub struct EventView {
    pub kind: Seq<char>,
    pub attributes: Seq<(Seq<char>, Seq<char>, bool)>,
}

pub open spec fn attribute_view(a: EventAttribute) -> (Seq<char>, Seq<char>, bool) {
    (a.key@, a.value@, a.index)
}

pub open spec fn event_view(e: Event) -> EventView {
    EventView { kind: e.kind@, attributes: e.attributes@.map_values(|a: EventAttribute| attribute_view(a)) }
}

pub open spec fn events_view(es: Seq<Event>) -> Seq<EventView> {
    es.map_values(|e: Event| event_view(e))
}

pub open spec fn hex_char(d: int) -> char {
    seq!['0', '1', '2', '3', '4', '5', '6', '7', '8', '9', 'a', 'b', 'c', 'd', 'e', 'f'][d]
}

/// Lowercase hexadecimal text of bytes, two digits per byte.
pub open spec fn hex_spec(b: Seq<u8>) -> Seq<char>
    decreases b.len(),
{
    if b.len() == 0 {
        Seq::empty()
    } else {
        hex_spec(b.drop_last()) + seq![hex_char(b.last() as int / 16), hex_char(b.last() as int % 16)]
    }
}

/// Decimal text of a natural number, without leading zeros.
pub open spec fn decimal_spec(x: nat) -> Seq<char>
    decreases x,
{
    if x < 10 {
        seq![hex_char(x as int)]
    } else {
        decimal_spec(x / 10) + seq![hex_char((x % 10) as int)]
    }
}

pub open spec fn bool_text(b: bool) -> Seq<char> {
    if b {
        "true"@
    } else {
        "false"@
    }
}

/// The event that reports a transaction's outcome.
pub open spec fn tx_event(success: bool, gas: u64) -> EventView {
    EventView {
        kind: "ethereum.tx"@,
        attributes: seq![("success"@, bool_text(success), true), ("gas_used"@, decimal_spec(gas as nat), false)],
    }
}

/// The event that reports one log, by its emitter's address.
pub open spec fn log_event(address: Seq<u8>) -> EventView {
    EventView { kind: "ethereum.log"@, attributes: seq![("address"@, hex_spec(address), true)] }
}

/// Events of a receipt: its outcome, then one per log in order.
pub open spec fn receipt_events_spec(success: bool, gas: u64, addresses: Seq<Seq<u8>>) -> Seq<
    EventView,
> {
    seq![tx_event(success, gas)] + addresses.map_values(|a: Seq<u8>| log_event(a))
}

/// Relies on hex::encode: two lowercase hexadecimal digits per byte, in order.
#[verifier::external_body]
fn hex_encode(b: &[u8]) -> (r: String)
    ensures
        r@ == hex_spec(b@),
{
    hex::encode(b)
}

/// Relies on std's `Display` for `u64` (through `ToString::to_string`): the
/// decimal digits, without sign or leading zeros.
#[verifier::external_body]
fn decimal_text(x: u64) -> (r: String)
    ensures
        r@ == decimal_spec(x as nat),
{
    x.to_string()
}

impl Receipt {
    /// Events that report this receipt.
    pub fn into_abci_events(self) -> (r: Vec<Event>)
        ensures
            events_view(r@) == receipt_events_spec(
                self.success,
                self.gas_used,
                self.logs@.map_values(|l: Log| l.address@),
            ),
    {
        let ghost addrs = self.logs@.map_values(|l: Log| l.address@);
        let mut attributes: Vec<EventAttribute> = Vec::new();
        let success_text = if self.success {
            "true".to_owned()
        } else {
            "false".to_owned()
        };
        attributes.push(EventAttribute { key: "success".to_owned(), value: success_text, index: true });
        attributes.push(
            EventAttribute {
                key: "gas_used".to_owned(),
                value: decimal_text(self.gas_used),
                index: false,
            },
        );
        let mut events: Vec<Event> = Vec::new();
        events.push(Event { kind: "ethereum.tx".to_owned(), attributes });
        proof {
            assert(events[0].attributes@.map_values(|a: EventAttribute| attribute_view(a))
                =~= tx_event(self.success, self.gas_used).attributes);
            assert(events_view(events@) =~= receipt_events_spec(
                self.success,
                self.gas_used,
                addrs.subrange(0, 0),
            ));
        }
        let mut i: usize = 0;
        while i < self.logs.len()
            invariant
                i <= self.logs@.len(),
                addrs == self.logs@.map_values(|l: Log| l.address@),
                events@.len() == i + 1,
                events_view(events@) == receipt_events_spec(
                    self.success,
                    self.gas_used,
                    addrs.subrange(0, i as int),
                ),
            decreases self.logs@.len() - i,
        {
            let mut attrs: Vec<EventAttribute> = Vec::new();
            attrs.push(
                EventAttribute {
                    key: "address".to_owned(),
                    value: hex_encode(self.logs[i].address.as_slice()),
                    index: true,
                },
            );
            proof {
                assert(attrs@.map_values(|a: EventAttribute| attribute_view(a))
                    =~= log_event(addrs[i as int]).attributes);
            }
            let ev = Event { kind: "ethereum.log".to_owned(), attributes: attrs };
            assert(event_view(ev) == log_event(addrs[i as int]));
            let ghost before = events@;
            events.push(ev);
            proof {
                assert(events_view(events@) =~= events_view(before).push(log_event(addrs[i as int])));
                assert(addrs.subrange(0, i + 1).map_values(|a: Seq<u8>| log_event(a))
                    =~= addrs.subrange(0, i as int).map_values(|a: Seq<u8>| log_event(a)).push(log_event(addrs[i as int])));
            }
            i = i + 1;
            proof {
                assert(events_view(events@) =~= receipt_events_spec(
                    self.success,
                    self.gas_used,
                    addrs.subrange(0, i as int),
                ));
            }
        }
        assert(addrs.subrange(0, i as int) =~= addrs);
        events
    }
}

} // verus!
