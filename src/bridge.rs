use vstd::prelude::*;

use crate::exec::{
    BlockExec, BlockExecView, BlockHeader, Event, Proposed, RethCtx, accepts, all_decode,
    basic_error, block_step, finalize_spec, header_valid, receipt_events_spec, session_start,
    valid_basic,
};
use crate::wire::{TxError, apphash_from, decode_eth_tx, decode_spec, keccak256_of};

verus! {

/// Gas that an admitted or delivered transaction asks for.
pub const GAS_WANTED: i64 = 100_000;

/// A call that does not fit the phase of the protocol: the consensus engine
/// and this application disagree, which is fatal.
pub enum AppError {
    MissingHeader,
    InvalidHeader,
    SessionAlreadyOpen,
    NoOpenSession,
    HeightOverflow,
}

/// Answer to a mempool admission check: code 0 admits.
pub struct CheckTxResponse {
    pub code: u32,
    pub gas_wanted: i64,
    pub error: Option<TxError>,
}

/// Answer to a delivered transaction: code 0 when it was applied.
pub struct DeliverTxResponse {
    pub code: u32,
    pub gas_wanted: i64,
    pub gas_used: i64,
    pub events: Vec<Event>,
    pub error: Option<TxError>,
}

/// Answer to a commit.
pub struct CommitResponse {
    pub app_hash: [u8; 32],
    pub retain_height: i64,
}

/// Answer to a query against committed state.
pub struct QueryResponse {
    pub code: u32,
    pub value: Vec<u8>,
    pub height: i64,
}

/// Mathematical view of the application.
pub struct StateView {
    pub height: i64,
    pub last_app_hash: Seq<u8>,
    pub state_root: Seq<u8>,
    pub session: Option<BlockExecView>,
}

/// The application: committed height, app hash and state, and at most one
/// open block session.
pub struct State {
    reth: RethCtx,
    height: i64,
    last_app_hash: [u8; 32],
    in_block: Option<BlockExec>,
}

/// The app hash of a finalized session.
pub open spec fn app_hash_spec(v: BlockExecView) -> Seq<u8> {
    keccak256_of(finalize_spec(v).0 + finalize_spec(v).1)
}

/// What check_tx answers for bytes: the error that refuses them, if any.
pub open spec fn check_error(raw: Seq<u8>) -> Option<TxError> {
    match decode_spec(raw) {
        None => Some(TxError::Decode(crate::wire::decode_error_spec(raw))),
        Some(t) => if valid_basic(t) {
            None
        } else {
            Some(basic_error(t))
        },
    }
}

/// The session after bytes are delivered to it: bytes that do not decode
/// leave it as it was.
pub open spec fn deliver_spec(s: BlockExecView, raw: Seq<u8>) -> BlockExecView {
    match decode_spec(raw) {
        None => s,
        Some(t) => block_step(s, t),
    }
}

/// The session after each of `raws` is delivered in order.
pub open spec fn deliver_all(s: BlockExecView, raws: Seq<Seq<u8>>) -> BlockExecView
    decreases raws.len(),
{
    if raws.len() == 0 {
        s
    } else {
        deliver_spec(deliver_all(s, raws.drop_last()), raws.last())
    }
}

/// Two executions of one list of transactions, begun under one header from
/// one committed state, finalize to the same state root, receipts root and
/// app hash. `execute_block` returns exactly the app hash of
/// `deliver_all(session_start(header, root), raws)`, so two calls of it on
/// applications with the same committed state root, the same header and the
/// same list return the same app hash and leave the same committed state.
pub proof fn lemma_block_determinism(
    header: BlockHeader,
    root1: Seq<u8>,
    root2: Seq<u8>,
    raws: Seq<Seq<u8>>,
)
    requires
        root1 == root2,
    ensures
        finalize_spec(deliver_all(session_start(header, root1), raws)) == finalize_spec(
            deliver_all(session_start(header, root2), raws),
        ),
        app_hash_spec(deliver_all(session_start(header, root1), raws)) == app_hash_spec(
            deliver_all(session_start(header, root2), raws),
        ),
{
}

/// Bytes that do not decode, delivered after any list, change neither the
/// applied transactions, nor the receipts, nor the gas used.
pub proof fn lemma_malformed_delivery_is_inert(
    s: BlockExecView,
    raws: Seq<Seq<u8>>,
    bad: Seq<u8>,
)
    requires
        decode_spec(bad) is None,
    ensures
        deliver_all(s, raws.push(bad)) == deliver_all(s, raws),
{
    assert(raws.push(bad).drop_last() =~= raws);
}

/// A decodable transaction whose gas limit is zero is refused at admission,
/// for that reason.
pub proof fn lemma_zero_gas_refused(raw: Seq<u8>)
    requires
        decode_spec(raw) matches Some(t) && t.gas_limit == 0,
    ensures
        check_error(raw) == Some(TxError::ZeroGasLimit),
{
}

/// A proposal with an entry that does not decode is rejected.
pub proof fn lemma_undecodable_proposal_rejected(txs: Seq<Vec<u8>>, i: int)
    requires
        0 <= i < txs.len(),
        decode_spec(txs[i]@) is None,
    ensures
        !all_decode(txs),
{
}

impl View for State {
    type V = StateView;

    closed spec fn view(&self) -> StateView {
        StateView {
            height: self.height,
            last_app_hash: self.last_app_hash@,
            state_root: self.reth.state_root@,
            session: match self.in_block {
                Some(e) => Some(e@),
                None => None,
            },
        }
    }
}

impl State {
    pub closed spec fn wf(&self) -> bool {
        &&& self.height >= 1
        &&& self.last_app_hash@.len() == 32
        &&& (self.in_block matches Some(e) ==> {
            &&& e.wf()
            &&& e@.parent_root == self.reth.state_root@
            &&& e@.height == self.height
        })
    }

    /// A fresh application over `reth`: the next block is block 1, the app
    /// hash is zero and no session is open.
    pub fn new(reth: RethCtx) -> (r: State)
        ensures
            r.wf(),
            r@.height == 1,
            r@.last_app_hash == Seq::new(32, |i: int| 0u8),
            r@.state_root == reth.state_root@,
            r@.session is None,
    {
        let r = State { reth, height: 1, last_app_hash: [0u8; 32], in_block: None };
        assert(r.last_app_hash@ =~= Seq::new(32, |i: int| 0u8));
        r
    }

    /// An application resumed with `height` the height of its next block and
    /// the app hash of the block before it.
    pub fn restore(reth: RethCtx, height: i64, last_app_hash: [u8; 32]) -> (r: State)
        requires
            height >= 1,
        ensures
            r.wf(),
            r@.height == height,
            r@.last_app_hash == last_app_hash@,
            r@.state_root == reth.state_root@,
            r@.session is None,
    {
        State { reth, height, last_app_hash, in_block: None }
    }

    /// Height of the next block (one more than the committed blocks) and the
    /// last app hash.
    pub fn info(&self) -> (r: (i64, [u8; 32]))
        ensures
            r.0 == self@.height,
            r.1@ == self@.last_app_hash,
    {
        (self.height, self.last_app_hash)
    }

    /// Mempool admission: decodes and runs the basic checks, against
    /// committed state only.
    pub fn check_tx(&self, raw: &[u8]) -> (r: CheckTxResponse)
        ensures
            r.error == check_error(raw@),
            r.code == 0 <==> r.error is None,
            r.code == 0 ==> r.gas_wanted == GAS_WANTED,
            r.code != 0 ==> r.code == 1 && r.gas_wanted == 0,
    {
        match decode_eth_tx(raw) {
            Err(e) => CheckTxResponse { code: 1, gas_wanted: 0, error: Some(TxError::Decode(e)) },
            Ok(tx) => match self.reth.validate_tx_basic(&tx) {
                Ok(()) => CheckTxResponse { code: 0, gas_wanted: GAS_WANTED, error: None },
                Err(e) => CheckTxResponse { code: 1, gas_wanted: 0, error: Some(e) },
            },
        }
    }

    /// Transactions proposed for the next block, within `max_bytes`.
    pub fn prepare_proposal(&self, max_bytes: usize) -> (r: Proposed)
        ensures
            r.txs@.len() == 0,
            crate::exec::total_bytes(r.txs@) <= max_bytes,
    {
        self.reth.propose_block(max_bytes)
    }

    /// Accepts a received proposal exactly when every entry decodes.
    pub fn process_proposal(&self, txs: &Vec<Vec<u8>>) -> (r: bool)
        ensures
            r == all_decode(txs@),
    {
        self.reth.quick_validate_proposal(txs)
    }

    /// Opens the session of the block of `header`. Fails, changing nothing,
    /// when the header is missing, invalid or not for the next block, or a
    /// session is open.
    pub fn begin_block(&mut self, header: Option<BlockHeader>) -> (r: Result<(), AppError>)
        requires
            old(self).wf(),
        ensures
            final(self).wf(),
            match header {
                None => r == Err::<(), AppError>(AppError::MissingHeader),
                Some(h) => if !header_valid(h) || h.height != old(self)@.height {
                    r == Err::<(), AppError>(AppError::InvalidHeader)
                } else if old(self)@.session is Some {
                    r == Err::<(), AppError>(AppError::SessionAlreadyOpen)
                } else {
                    r is Ok
                },
            },
            r is Err ==> final(self)@ == old(self)@,
            r is Ok ==> final(self)@ == (StateView {
                session: Some(session_start(header->Some_0, old(self)@.state_root)),
                ..old(self)@
            }),
    {
        let h = match header {
            None => {
                return Err(AppError::MissingHeader);
            },
            Some(h) => h,
        };
        if h.height <= 0 || h.time < 0 || h.height != self.height {
            return Err(AppError::InvalidHeader);
        }
        if self.in_block.is_some() {
            return Err(AppError::SessionAlreadyOpen);
        }
        self.in_block = Some(BlockExec::new(&self.reth, h));
        Ok(())
    }

    /// Decodes and applies one transaction to the open session. Fails,
    /// changing nothing, when no session is open. Bytes that do not decode
    /// leave the session as it was.
    pub fn deliver_tx(&mut self, raw: &[u8]) -> (r: Result<DeliverTxResponse, AppError>)
        requires
            old(self).wf(),
        ensures
            final(self).wf(),
            old(self)@.session is None <==> r == Err::<DeliverTxResponse, AppError>(
                AppError::NoOpenSession,
            ),
            old(self)@.session is Some ==> r is Ok,
            r is Err ==> final(self)@ == old(self)@,
            r matches Ok(resp) ==> {
                let s = old(self)@.session->Some_0;
                &&& final(self)@.session == Some(deliver_spec(s, raw@))
                &&& final(self)@.height == old(self)@.height
                &&& final(self)@.last_app_hash == old(self)@.last_app_hash
                &&& final(self)@.state_root == old(self)@.state_root
                &&& match decode_spec(raw@) {
                    None => resp.error == Some(
                        TxError::Decode(crate::wire::decode_error_spec(raw@)),
                    ),
                    Some(t) => {
                        &&& final(self)@.session == Some(block_step(s, t))
                        &&& (resp.code == 0 <==> accepts(s, t))
                        &&& (resp.code == 0 ==> resp.error is None && resp.gas_used
                            == crate::exec::TRANSFER_GAS && crate::exec::events_view(resp.events@) == receipt_events_spec(
                            true,
                            crate::exec::TRANSFER_GAS,
                            Seq::empty(),
                        ))
                        &&& (!accepts(s, t) ==> resp.error == Some(
                            if !valid_basic(t) {
                                basic_error(t)
                            } else {
                                TxError::BlockGasExceeded
                            },
                        ))
                    },
                }
                &&& (resp.code == 0 || resp.code == 1)
                &&& (resp.code == 0 <==> resp.error is None)
                &&& (resp.code == 0 ==> resp.gas_wanted == GAS_WANTED)
                &&& (resp.code == 1 ==> resp.gas_wanted == 0 && resp.gas_used == 0
                    && resp.events@.len() == 0 && resp.error is Some)
            },
    {
        let mut exec = match self.in_block.take() {
            None => {
                return Err(AppError::NoOpenSession);
            },
            Some(e) => e,
        };
        let resp = match decode_eth_tx(raw) {
            Err(e) => DeliverTxResponse {
                code: 1,
                gas_wanted: 0,
                gas_used: 0,
                events: Vec::new(),
                error: Some(TxError::Decode(e)),
            },
            Ok(tx) => match exec.apply_tx(&self.reth, tx) {
                Ok(receipt) => {
                    let gas = receipt.gas_used as i64;
                    DeliverTxResponse {
                        code: 0,
                        gas_wanted: GAS_WANTED,
                        gas_used: gas,
                        events: receipt.into_abci_events(),
                        error: None,
                    }
                },
                Err(e) => DeliverTxResponse {
                    code: 1,
                    gas_wanted: 0,
                    gas_used: 0,
                    events: Vec::new(),
                    error: Some(e),
                },
            },
        };
        self.in_block = Some(exec);
        Ok(resp)
    }

    /// Finalizes the open session, derives the app hash from its state and
    /// receipts roots, makes the state root the committed one and advances
    /// the height by one. Fails, changing nothing, when no session is open or
    /// the height cannot grow.
    pub fn commit(&mut self) -> (r: Result<CommitResponse, AppError>)
        requires
            old(self).wf(),
        ensures
            final(self).wf(),
            old(self)@.session is None ==> r == Err::<CommitResponse, AppError>(
                AppError::NoOpenSession,
            ),
            old(self)@.session is Some && old(self)@.height == i64::MAX ==> r == Err::<
                CommitResponse,
                AppError,
            >(AppError::HeightOverflow),
            old(self)@.session is Some && old(self)@.height < i64::MAX ==> r is Ok,
            r is Err ==> final(self)@ == old(self)@,
            r matches Ok(resp) ==> {
                let s = old(self)@.session->Some_0;
                &&& old(self)@.session is Some
                &&& final(self)@.height == old(self)@.height + 1
                &&& final(self)@.height == s.height + 1
                &&& final(self)@.last_app_hash == app_hash_spec(s)
                &&& final(self)@.state_root == finalize_spec(s).0
                &&& final(self)@.session is None
                &&& resp.app_hash@ == app_hash_spec(s)
                &&& resp.retain_height == 0
            },
    {
        if self.in_block.is_none() {
            return Err(AppError::NoOpenSession);
        }
        if self.height == i64::MAX {
            return Err(AppError::HeightOverflow);
        }
        let exec = match self.in_block.take() {
            Some(e) => e,
            None => {
                return Err(AppError::NoOpenSession);
            },
        };
        let fin = exec.commit();
        let app_hash = apphash_from(fin.state_root, fin.receipts_root);
        self.last_app_hash = app_hash;
        self.height = self.height + 1;
        self.reth.state_root = fin.state_root;
        Ok(CommitResponse { app_hash, retain_height: 0 })
    }

    /// Runs one whole block: opens it under `header`, delivers each of `raws`
    /// in order and commits. Fails, changing nothing, when the header is not
    /// valid for the next block, a session is already open or the height
    /// cannot grow.
    pub fn execute_block(&mut self, header: BlockHeader, raws: &Vec<Vec<u8>>) -> (r: Result<
        (Vec<DeliverTxResponse>, CommitResponse),
        AppError,
    >)
        requires
            old(self).wf(),
        ensures
            final(self).wf(),
            r is Ok <==> header_valid(header) && header.height == old(self)@.height && old(
                self,
            )@.session is None && old(self)@.height < i64::MAX,
            r is Err ==> final(self)@ == old(self)@,
            r matches Ok((resps, c)) ==> {
                let s = deliver_all(
                    session_start(header, old(self)@.state_root),
                    raws@.map_values(|v: Vec<u8>| v@),
                );
                &&& resps@.len() == raws@.len()
                &&& c.app_hash@ == app_hash_spec(s)
                &&& final(self)@.height == old(self)@.height + 1
                &&& final(self)@.last_app_hash == app_hash_spec(s)
                &&& final(self)@.state_root == finalize_spec(s).0
                &&& final(self)@.session is None
            },
    {
        if header.height <= 0 || header.time < 0 || header.height != self.height {
            return Err(AppError::InvalidHeader);
        }
        if self.in_block.is_some() {
            return Err(AppError::SessionAlreadyOpen);
        }
        if self.height == i64::MAX {
            return Err(AppError::HeightOverflow);
        }
        let ghost old_view = self@;
        let ghost rv = raws@.map_values(|v: Vec<u8>| v@);
        let ghost start = session_start(header, old_view.state_root);
        match self.begin_block(Some(header)) {
            Ok(()) => {},
            Err(e) => {
                return Err(e);
            },
        }
        assert(rv.subrange(0, 0) =~= Seq::<Seq<u8>>::empty());
        let mut resps: Vec<DeliverTxResponse> = Vec::new();
        let mut i: usize = 0;
        while i < raws.len()
            invariant
                self.wf(),
                i <= raws@.len(),
                resps@.len() == i,
                rv == raws@.map_values(|v: Vec<u8>| v@),
                self@.height == old_view.height,
                self@.last_app_hash == old_view.last_app_hash,
                self@.state_root == old_view.state_root,
                self@.session == Some(deliver_all(start, rv.subrange(0, i as int))),
            decreases raws@.len() - i,
        {
            let resp = match self.deliver_tx(raws[i].as_slice()) {
                Ok(resp) => resp,
                Err(e) => {
                    return Err(e);
                },
            };
            resps.push(resp);
            assert(rv.subrange(0, i + 1).drop_last() =~= rv.subrange(0, i as int));
            i = i + 1;
        }
        assert(rv.subrange(0, i as int) =~= rv);
        match self.commit() {
            Ok(c) => Ok((resps, c)),
            Err(e) => Err(e),
        }
    }

    /// A read-only lookup against committed state. No keys are served, so
    /// every value is empty.
    pub fn query(&self, _path: &str, _data: &[u8]) -> (r: QueryResponse)
        ensures
            r.code == 0,
            r.value@.len() == 0,
            r.height == self@.height,
    {
        QueryResponse { code: 0, value: Vec::new(), height: self.height }
    }
}

} // verus!
