use vstd::prelude::*;

use crate::error::RelayerError;
use crate::text::str_eq;
use crate::types::{
    transition_allowed, tx_equiv, Chain, RelayerTransaction, TransactionStatus,
};

verus! {

/// Whether some row already carries this nonce.
pub open spec fn has_nonce(rows: Seq<RelayerTransaction>, nonce: i64) -> bool {
    exists|i: int| 0 <= i < rows.len() && rows[i].nonce == nonce
}

/// Whether some row already carries this source transaction hash.
pub open spec fn has_hash(rows: Seq<RelayerTransaction>, hash: Seq<char>) -> bool {
    exists|i: int| 0 <= i < rows.len() && rows[i].from_tx_hash@ == hash
}

/// A row the processing queue picks up.
pub open spec fn is_queue_status(t: RelayerTransaction) -> bool {
    t.status is Pending || t.status is SignaturesCollected
}

/// The queue: rows still waiting for signatures or submission, oldest first.
pub open spec fn queue_rows(rows: Seq<RelayerTransaction>) -> Seq<RelayerTransaction> {
    rows.filter(|t: RelayerTransaction| is_queue_status(t))
}

/// The rows in one status, oldest first.
pub open spec fn status_rows(
    rows: Seq<RelayerTransaction>,
    status: TransactionStatus,
) -> Seq<RelayerTransaction> {
    rows.filter(|t: RelayerTransaction| t.status == status)
}

proof fn lemma_status_rows_add(a: Seq<RelayerTransaction>, b: Seq<RelayerTransaction>, status: TransactionStatus)
    ensures
        status_rows(a + b, status) == status_rows(a, status) + status_rows(b, status),
{
    Seq::filter_distributes_over_add(a, b, |t: RelayerTransaction| t.status == status);
}

/// Every element of a filtered sequence is an element of the original.
proof fn lemma_filter_elem(
    rows: Seq<RelayerTransaction>,
    pred: spec_fn(RelayerTransaction) -> bool,
    k: int,
)
    requires
        0 <= k < rows.filter(pred).len(),
    ensures
        exists|m: int| 0 <= m < rows.len() && rows[m] == rows.filter(pred)[k],
    decreases rows.len(),
{
    reveal(Seq::filter);
    if rows.len() > 0 {
        let prefix = rows.drop_last();
        let fp = prefix.filter(pred);
        if pred(rows.last()) && k == fp.len() {
            assert(rows.filter(pred)[k] == rows.last());
            assert(rows[rows.len() - 1] == rows.filter(pred)[k]);
        } else {
            assert(rows.filter(pred)[k] == fp[k]);
            lemma_filter_elem(prefix, pred, k);
            let m = choose|m: int| 0 <= m < prefix.len() && prefix[m] == fp[k];
            assert(rows[m] == rows.filter(pred)[k]);
        }
    }
}

/// Filtering keeps rows in ledger order, so a creation order that rises with
/// the row ids stays risen through any filter.
proof fn lemma_filter_sorted(
    rows: Seq<RelayerTransaction>,
    pred: spec_fn(RelayerTransaction) -> bool,
)
    requires
        forall|i: int, j: int|
            #![trigger rows[i].created_at, rows[j].created_at]
            0 <= i < j < rows.len() ==> rows[i].created_at <= rows[j].created_at,
    ensures
        ({
            let f = rows.filter(pred);
            forall|i: int, j: int|
                #![trigger f[i].created_at, f[j].created_at]
                0 <= i < j < f.len() ==> f[i].created_at <= f[j].created_at
        }),
    decreases rows.len(),
{
    reveal(Seq::filter);
    if rows.len() > 0 {
        let prefix = rows.drop_last();
        assert forall|i: int, j: int|
            #![trigger prefix[i].created_at, prefix[j].created_at]
            0 <= i < j < prefix.len() implies prefix[i].created_at <= prefix[j].created_at by {
            assert(prefix[i] == rows[i]);
            assert(prefix[j] == rows[j]);
        }
        lemma_filter_sorted(prefix, pred);
        let f = rows.filter(pred);
        let fp = prefix.filter(pred);
        assert forall|i: int, j: int| 0 <= i < j < f.len() implies f[i].created_at
            <= f[j].created_at by {
            if pred(rows.last()) && j == f.len() - 1 {
                assert(f[j] == rows.last());
                assert(f[i] == fp[i]);
                lemma_filter_elem(prefix, pred, i);
                let m = choose|m: int| 0 <= m < prefix.len() && prefix[m] == fp[i];
                assert(rows[m] == prefix[m]);
                assert(rows[m].created_at <= rows[rows.len() - 1].created_at);
            } else {
                assert(f[i] == fp[i]);
                assert(f[j] == fp[j]);
            }
        }
    }
}

/// What ingesting one observed event did to the ledger.
#[derive(Debug, Clone, Copy, PartialEq, Eq, Structural)]
pub enum IngestOutcome {
    /// A new row was created under this id.
    Created(i64),
    /// A row with this nonce already existed; nothing was written.
    DuplicateNonce,
    /// The event is not one this monitor records; nothing was written.
    Ignored,
}

/// The row a freshly ingested event produces.
pub open spec fn row_matches_event(
    t: RelayerTransaction,
    e: crate::types::BridgeEvent,
    id: int,
    now: i64,
) -> bool {
    &&& t.id == id
    &&& t.nonce == crate::types::spec_event_nonce(e)
    &&& t.from_chain == crate::types::spec_event_from_chain(e)
    &&& t.to_chain == crate::types::spec_event_to_chain(e)
    &&& t.from_tx_hash@ == crate::types::spec_event_tx_hash(e)
    &&& t.to_tx_hash is None
    &&& t.sender@ == crate::types::spec_event_sender(e)
    &&& t.recipient@ == crate::types::spec_event_recipient(e)
    &&& t.amount == crate::types::spec_event_amount(e)
    &&& t.status is Pending
    &&& t.signatures is None
    &&& t.error_message is None
    &&& t.created_at == now
    &&& t.updated_at == now
}

/// Per-status counts over the whole ledger.
#[derive(Debug, Clone, Copy)]
pub struct TransactionStats {
    pub total: i64,
    pub pending: i64,
    pub signatures_collected: i64,
    pub submitted: i64,
    pub confirmed: i64,
    pub failed: i64,
}

/// The relay ledger: every detected cross-chain transfer and its lifecycle
/// status, one row per transfer, keyed by a sequential id with the nonce and
/// the source transaction hash unique across rows.
pub struct Database {
    rows: Vec<RelayerTransaction>,
}

impl View for Database {
    type V = Seq<RelayerTransaction>;

    closed spec fn view(&self) -> Seq<RelayerTransaction> {
        self.rows@
    }
}

impl Database {
    /// The ledger's invariant: ids are 1-based and sequential, nonces and
    /// source hashes unique.
    pub open spec fn wf(&self) -> bool {
        &&& forall|i: int| 0 <= i < self@.len() ==> #[trigger] self@[i].id == i + 1
        &&& forall|i: int, j: int|
            #![trigger self@[i].nonce, self@[j].nonce]
            0 <= i < j < self@.len() ==> self@[i].nonce != self@[j].nonce
        &&& forall|i: int, j: int|
            #![trigger self@[i].from_tx_hash, self@[j].from_tx_hash]
            0 <= i < j < self@.len() ==> self@[i].from_tx_hash@ != self@[j].from_tx_hash@
        &&& forall|i: int, j: int|
            #![trigger self@[i].created_at, self@[j].created_at]
            0 <= i < j < self@.len() ==> self@[i].created_at <= self@[j].created_at
    }

    /// Nonces identify rows: under the invariant, two rows that carry the
    /// same nonce are the same row, so an ingested transfer has exactly one
    /// row however often it is observed.
    pub proof fn lemma_nonce_unique(&self, i: int, j: int)
        requires
            self.wf(),
            0 <= i < self@.len(),
            0 <= j < self@.len(),
            self@[i].nonce == self@[j].nonce,
        ensures
            i == j,
    {
    }

    /// An empty ledger.
    pub fn new() -> (r: Database)
        ensures
            r@ == Seq::<RelayerTransaction>::empty(),
            r.wf(),
    {
        let db = Database { rows: Vec::new() };
        proof {
            assert(db@ =~= Seq::<RelayerTransaction>::empty());
        }
        db
    }

    /// How many rows the ledger holds.
    pub fn len(&self) -> (r: usize)
        ensures
            r == self@.len(),
    {
        self.rows.len()
    }

    /// The newest row's creation time, or the smallest representable time on
    /// an empty ledger: the floor a caller's clock reading must not undercut
    /// when it records a new transfer.
    pub fn latest_created_at(&self) -> (r: i64)
        requires
            self.wf(),
        ensures
            forall|i: int| 0 <= i < self@.len() ==> #[trigger] self@[i].created_at <= r,
            self@.len() > 0 ==> r == self@.last().created_at,
            self@.len() == 0 ==> r == i64::MIN,
    {
        if self.rows.len() == 0 {
            i64::MIN
        } else {
            self.rows[self.rows.len() - 1].created_at
        }
    }

    /// Record a newly observed transfer as a `Pending` row.
    ///
    /// Fails, leaving the ledger unchanged, when a row with the same nonce or
    /// the same source hash already exists (the unique constraints), or when
    /// the id space is exhausted. Otherwise appends the row with the next
    /// sequential id, and returns that id.
    #[verifier::loop_isolation(false)]
    pub fn create_transaction(
        &mut self,
        nonce: u64,
        from_chain: Chain,
        to_chain: Chain,
        from_tx_hash: &str,
        sender: &str,
        recipient: &str,
        amount: u64,
        now: i64,
    ) -> (r: Result<i64, RelayerError>)
        requires
            old(self).wf(),
            nonce <= i64::MAX,
            amount <= i64::MAX,
            forall|i: int|
                0 <= i < old(self)@.len() ==> #[trigger] old(self)@[i].created_at <= now,
        ensures
            final(self).wf(),
            ({
                let dup = has_nonce(old(self)@, nonce as i64) || has_hash(
                    old(self)@,
                    from_tx_hash@,
                );
                match r {
                    Ok(id) => {
                        &&& !dup
                        &&& old(self)@.len() < i64::MAX
                        &&& id == old(self)@.len() + 1
                        &&& final(self)@.len() == old(self)@.len() + 1
                        &&& forall|i: int|
                            0 <= i < old(self)@.len() ==> #[trigger] final(self)@[i] == old(
                                self,
                            )@[i]
                        &&& final(self)@.last().id == id
                        &&& final(self)@.last().nonce == nonce
                        &&& final(self)@.last().from_chain == from_chain
                        &&& final(self)@.last().to_chain == to_chain
                        &&& final(self)@.last().from_tx_hash@ == from_tx_hash@
                        &&& final(self)@.last().to_tx_hash is None
                        &&& final(self)@.last().sender@ == sender@
                        &&& final(self)@.last().recipient@ == recipient@
                        &&& final(self)@.last().amount == amount
                        &&& final(self)@.last().status is Pending
                        &&& final(self)@.last().signatures is None
                        &&& final(self)@.last().error_message is None
                        &&& final(self)@.last().created_at == now
                        &&& final(self)@.last().updated_at == now
                    },
                    Err(e) => {
                        &&& dup || old(self)@.len() == i64::MAX
                        &&& final(self)@ == old(self)@
                        &&& e is DatabaseError
                    },
                }
            }),
    {
        let ghost rows0 = self@;
        let mut i: usize = 0;
        while i < self.rows.len()
            invariant
                self@ == rows0,
                i <= rows0.len(),
                nonce <= i64::MAX,
                forall|j: int|
                    0 <= j < i ==> rows0[j].nonce != nonce as i64 && rows0[j].from_tx_hash@
                        != from_tx_hash@,
            decreases rows0.len() - i,
        {
            if self.rows[i].nonce == nonce as i64 || str_eq(
                self.rows[i].from_tx_hash.as_str(),
                from_tx_hash,
            ) {
                return Err(
                    RelayerError::DatabaseError(
                        String::from_str("UNIQUE constraint failed on nonce or source hash"),
                    ),
                );
            }
            i += 1;
        }
        assert(!has_nonce(rows0, nonce as i64) && !has_hash(rows0, from_tx_hash@));
        let n = self.rows.len();
        proof {
            if rows0.len() > 0 {
                assert(rows0[rows0.len() - 1].id == rows0.len());
            }
        }
        assert(n <= i64::MAX);
        if n as i64 == i64::MAX {
            return Err(RelayerError::DatabaseError(String::from_str("id space exhausted")));
        }
        let id: i64 = n as i64 + 1;
        let row = RelayerTransaction {
            id,
            nonce: nonce as i64,
            from_chain,
            to_chain,
            from_tx_hash: String::from_str(from_tx_hash),
            to_tx_hash: None,
            sender: String::from_str(sender),
            recipient: String::from_str(recipient),
            amount: amount as i64,
            status: TransactionStatus::Pending,
            signatures: None,
            error_message: None,
            created_at: now,
            updated_at: now,
        };
        self.rows.push(row);
        Ok(id)
    }

    /// The row carrying this nonce, if any.
    pub fn get_transaction_by_nonce(&self, nonce: u64) -> (r: Option<RelayerTransaction>)
        requires
            self.wf(),
            nonce <= i64::MAX,
        ensures
            match r {
                Some(t) => exists|i: int|
                    0 <= i < self@.len() && #[trigger] self@[i].nonce == nonce as i64 && tx_equiv(
                        t,
                        self@[i],
                    ),
                None => !has_nonce(self@, nonce as i64),
            },
    {
        let mut i: usize = 0;
        while i < self.rows.len()
            invariant
                self.wf(),
                i <= self@.len(),
                nonce <= i64::MAX,
                forall|j: int| 0 <= j < i ==> self@[j].nonce != nonce as i64,
            decreases self@.len() - i,
        {
            if self.rows[i].nonce == nonce as i64 {
                return Some(self.rows[i].clone());
            }
            i += 1;
        }
        None
    }

    /// The row created from this source transaction hash, if any.
    pub fn get_transaction_by_hash(&self, tx_hash: &str) -> (r: Option<RelayerTransaction>)
        requires
            self.wf(),
        ensures
            match r {
                Some(t) => exists|i: int|
                    0 <= i < self@.len() && #[trigger] self@[i].from_tx_hash@ == tx_hash@
                        && tx_equiv(t, self@[i]),
                None => !has_hash(self@, tx_hash@),
            },
    {
        let mut i: usize = 0;
        while i < self.rows.len()
            invariant
                self.wf(),
                i <= self@.len(),
                forall|j: int| 0 <= j < i ==> self@[j].from_tx_hash@ != tx_hash@,
            decreases self@.len() - i,
        {
            if str_eq(self.rows[i].from_tx_hash.as_str(), tx_hash) {
                return Some(self.rows[i].clone());
            }
            i += 1;
        }
        None
    }

    /// Whether a row with this nonce exists: the monitors' idempotence check.
    pub fn is_nonce_processed(&self, nonce: u64) -> (r: bool)
        requires
            self.wf(),
            nonce <= i64::MAX,
        ensures
            r == has_nonce(self@, nonce as i64),
    {
        let mut i: usize = 0;
        while i < self.rows.len()
            invariant
                self.wf(),
                i <= self@.len(),
                nonce <= i64::MAX,
                forall|j: int| 0 <= j < i ==> self@[j].nonce != nonce as i64,
            decreases self@.len() - i,
        {
            if self.rows[i].nonce == nonce as i64 {
                return true;
            }
            i += 1;
        }
        false
    }

    /// Move the row with this id to `status`, and overwrite its destination
    /// hash and error message with the given values. A row may only move
    /// forward along its lifecycle; an id that matches no row changes nothing.
    #[verifier::loop_isolation(false)]
    pub fn update_transaction_status(
        &mut self,
        id: i64,
        status: TransactionStatus,
        to_tx_hash: Option<&str>,
        error_message: Option<&str>,
        now: i64,
    ) -> (r: Result<(), RelayerError>)
        requires
            old(self).wf(),
            forall|i: int|
                0 <= i < old(self)@.len() && old(self)@[i].id == id ==> transition_allowed(
                    #[trigger] old(self)@[i].status,
                    status,
                ),
        ensures
            final(self).wf(),
            r is Ok,
            final(self)@.len() == old(self)@.len(),
            forall|i: int|
                0 <= i < old(self)@.len() && old(self)@[i].id != id ==> #[trigger] final(self)@[i]
                    == old(self)@[i],
            forall|i: int|
                0 <= i < old(self)@.len() && old(self)@[i].id == id ==> {
                    let t = #[trigger] final(self)@[i];
                    let t0 = old(self)@[i];
                    &&& t.id == t0.id
                    &&& t.nonce == t0.nonce
                    &&& t.from_chain == t0.from_chain
                    &&& t.to_chain == t0.to_chain
                    &&& t.from_tx_hash == t0.from_tx_hash
                    &&& (match to_tx_hash {
                        Some(h) => t.to_tx_hash matches Some(s) && s@ == h@,
                        None => t.to_tx_hash is None,
                    })
                    &&& t.sender == t0.sender
                    &&& t.recipient == t0.recipient
                    &&& t.amount == t0.amount
                    &&& t.status == status
                    &&& t.signatures == t0.signatures
                    &&& (match error_message {
                        Some(m) => t.error_message matches Some(s) && s@ == m@,
                        None => t.error_message is None,
                    })
                    &&& t.created_at == t0.created_at
                    &&& t.updated_at == now
                },
    {
        let mut i: usize = 0;
        while i < self.rows.len()
            invariant
                self@ == old(self)@,
                i <= self@.len(),
                forall|j: int| 0 <= j < i ==> self@[j].id != id,
            decreases self@.len() - i,
        {
            if self.rows[i].id == id {
                self.rows[i].status = status;
                self.rows[i].to_tx_hash = match to_tx_hash {
                    Some(h) => Some(String::from_str(h)),
                    None => None,
                };
                self.rows[i].error_message = match error_message {
                    Some(m) => Some(String::from_str(m)),
                    None => None,
                };
                self.rows[i].updated_at = now;
                proof {
                    assert forall|j: int|
                        0 <= j < old(self)@.len() && old(self)@[j].id != id implies #[trigger] self@[j]
                        == old(self)@[j] by {
                        assert(j != i);
                    }
                }
                return Ok(());
            }
            i += 1;
        }
        Ok(())
    }

    /// Store the collected signatures on the row with this id and advance it
    /// to `SignaturesCollected`. The row must still be `Pending`; an id that
    /// matches no row changes nothing.
    #[verifier::loop_isolation(false)]
    pub fn update_signatures(
        &mut self,
        id: i64,
        signatures: Vec<crate::types::ValidatorSignature>,
        now: i64,
    ) -> (r: Result<(), RelayerError>)
        requires
            old(self).wf(),
            forall|i: int|
                0 <= i < old(self)@.len() && old(self)@[i].id == id ==> #[trigger] old(
                    self,
                )@[i].status is Pending,
        ensures
            final(self).wf(),
            r is Ok,
            final(self)@.len() == old(self)@.len(),
            forall|i: int|
                0 <= i < old(self)@.len() && old(self)@[i].id != id ==> #[trigger] final(self)@[i]
                    == old(self)@[i],
            forall|i: int|
                0 <= i < old(self)@.len() && old(self)@[i].id == id ==> {
                    let t = #[trigger] final(self)@[i];
                    let t0 = old(self)@[i];
                    &&& t.id == t0.id
                    &&& t.nonce == t0.nonce
                    &&& t.from_chain == t0.from_chain
                    &&& t.to_chain == t0.to_chain
                    &&& t.from_tx_hash == t0.from_tx_hash
                    &&& t.to_tx_hash == t0.to_tx_hash
                    &&& t.sender == t0.sender
                    &&& t.recipient == t0.recipient
                    &&& t.amount == t0.amount
                    &&& t.status is SignaturesCollected
                    &&& (t.signatures matches Some(v) && v@ == signatures@)
                    &&& t.error_message == t0.error_message
                    &&& t.created_at == t0.created_at
                    &&& t.updated_at == now
                },
    {
        let mut i: usize = 0;
        while i < self.rows.len()
            invariant
                self@ == old(self)@,
                i <= self@.len(),
                forall|j: int| 0 <= j < i ==> self@[j].id != id,
            decreases self@.len() - i,
        {
            if self.rows[i].id == id {
                self.rows[i].status = TransactionStatus::SignaturesCollected;
                self.rows[i].signatures = Some(signatures);
                self.rows[i].updated_at = now;
                proof {
                    assert forall|j: int|
                        0 <= j < old(self)@.len() && old(self)@[j].id != id implies #[trigger] self@[j]
                        == old(self)@[j] by {
                        assert(j != i);
                    }
                }
                return Ok(());
            }
            i += 1;
        }
        Ok(())
    }
    /// The processing queue: every row still `Pending` or
    /// `SignaturesCollected`, oldest first.
    #[verifier::loop_isolation(false)]
    pub fn get_pending_transactions(&self) -> (r: Vec<RelayerTransaction>)
        requires
            self.wf(),
        ensures
            ({
                let q = queue_rows(self@);
                &&& r@.len() == q.len()
                &&& forall|k: int| 0 <= k < q.len() ==> tx_equiv(#[trigger] r@[k], q[k])
                &&& forall|k1: int, k2: int|
                    #![trigger r@[k1].created_at, r@[k2].created_at]
                    0 <= k1 < k2 < r@.len() ==> r@[k1].created_at <= r@[k2].created_at
            }),
    {
        let mut out: Vec<RelayerTransaction> = Vec::new();
        let mut i: usize = 0;
        proof {
            reveal(Seq::filter);
            assert(self@.subrange(0, 0) =~= Seq::<RelayerTransaction>::empty());
        }
        while i < self.rows.len()
            invariant
                i <= self@.len(),
                out@.len() == queue_rows(self@.subrange(0, i as int)).len(),
                forall|k: int|
                    0 <= k < out@.len() ==> tx_equiv(
                        #[trigger] out@[k],
                        queue_rows(self@.subrange(0, i as int))[k],
                    ),
            decreases self@.len() - i,
        {
            proof {
                reveal(Seq::filter);
                let prefix = self@.subrange(0, i as int);
                let prefix1 = self@.subrange(0, i + 1);
                assert(prefix1.drop_last() =~= prefix);
                assert(prefix1.last() == self@[i as int]);
            }
            let queued = matches!(
                self.rows[i].status,
                TransactionStatus::Pending | TransactionStatus::SignaturesCollected
            );
            if queued {
                out.push(self.rows[i].clone());
            }
            i += 1;
        }
        proof {
            assert(self@.subrange(0, self@.len() as int) =~= self@);
            let q = queue_rows(self@);
            lemma_filter_sorted(self@, |t: RelayerTransaction| is_queue_status(t));
            assert forall|k1: int, k2: int| 0 <= k1 < k2 < out@.len() implies out@[k1].created_at
                <= out@[k2].created_at by {
                assert(tx_equiv(out@[k1], q[k1]));
                assert(tx_equiv(out@[k2], q[k2]));
            }
        }
        out
    }

    /// Up to 100 rows in the given status, newest first.
    #[verifier::loop_isolation(false)]
    pub fn get_transactions_by_status(&self, status: TransactionStatus) -> (r: Vec<
        RelayerTransaction,
    >)
        requires
            self.wf(),
        ensures
            ({
                let f = status_rows(self@, status);
                let take = if f.len() > 100 {
                    100int
                } else {
                    f.len() as int
                };
                &&& r@.len() == take
                &&& forall|k: int|
                    0 <= k < take ==> tx_equiv(#[trigger] r@[k], f[f.len() - 1 - k])
                &&& forall|k1: int, k2: int|
                    #![trigger r@[k1].created_at, r@[k2].created_at]
                    0 <= k1 < k2 < r@.len() ==> r@[k1].created_at >= r@[k2].created_at
            }),
    {
        let mut out: Vec<RelayerTransaction> = Vec::new();
        let mut i: usize = self.rows.len();
        proof {
            reveal(Seq::filter);
            assert(self@.subrange(self@.len() as int, self@.len() as int) =~= Seq::<
                RelayerTransaction,
            >::empty());
        }
        while i > 0 && out.len() < 100
            invariant
                i <= self@.len(),
                out@.len() <= 100,
                ({
                    let fs = status_rows(self@.subrange(i as int, self@.len() as int), status);
                    &&& (out@.len() == fs.len() || (out@.len() == 100 && fs.len() >= 100))
                    &&& forall|k: int|
                        0 <= k < out@.len() ==> tx_equiv(
                            #[trigger] out@[k],
                            fs[fs.len() - 1 - k],
                        )
                }),
            decreases i,
        {
            let ghost fs_before = status_rows(self@.subrange(i as int, self@.len() as int), status);
            i -= 1;
            let ghost suffix = self@.subrange(i + 1, self@.len() as int);
            let ghost suffix1 = self@.subrange(i as int, self@.len() as int);
            let ghost head = self@.subrange(i as int, i + 1);
            proof {
                reveal(Seq::filter);
                assert(suffix1 =~= head + suffix);
                lemma_status_rows_add(head, suffix, status);
                assert(head.drop_last() =~= Seq::<RelayerTransaction>::empty());
                assert(head.last() == self@[i as int]);
                assert(Seq::<RelayerTransaction>::empty().filter(
                    |t: RelayerTransaction| t.status == status,
                ) =~= Seq::<RelayerTransaction>::empty());
                if self@[i as int].status == status {
                    assert(status_rows(head, status) =~= seq![self@[i as int]]);
                } else {
                    assert(status_rows(head, status) =~= Seq::<RelayerTransaction>::empty());
                }
            }
            let matched = self.rows[i].status == status;
            if matched {
                out.push(self.rows[i].clone());
                proof {
                    let fs_new = status_rows(suffix1, status);
                    assert(fs_new =~= seq![self@[i as int]] + fs_before);
                    assert(out@.len() == fs_new.len() || (out@.len() == 100 && fs_new.len()
                        >= 100));
                    assert forall|k: int| 0 <= k < out@.len() implies tx_equiv(
                        #[trigger] out@[k],
                        fs_new[fs_new.len() - 1 - k],
                    ) by {
                        if k < out@.len() - 1 {
                            assert(tx_equiv(out@[k], fs_before[fs_before.len() - 1 - k]));
                            assert(fs_new[fs_new.len() - 1 - k] == fs_before[fs_before.len() - 1
                                - k]);
                        } else {
                            assert(fs_new[0] == self@[i as int]);
                        }
                    }
                }
            } else {
                proof {
                    let fs_new = status_rows(suffix1, status);
                    assert(fs_new =~= fs_before);
                }
            }
        }
        proof {
            let f = status_rows(self@, status);
            if i > 0 {
                let prefix = self@.subrange(0, i as int);
                let fs = status_rows(self@.subrange(i as int, self@.len() as int), status);
                assert(self@ =~= prefix + self@.subrange(i as int, self@.len() as int));
                Seq::filter_distributes_over_add(
                    prefix,
                    self@.subrange(i as int, self@.len() as int),
                    |t: RelayerTransaction| t.status == status,
                );
                broadcast use vstd::seq_lib::group_seq_properties;
                assert(f == status_rows(prefix, status) + fs);
                assert(fs.len() >= 100);
                assert forall|k: int| 0 <= k < out@.len() implies tx_equiv(
                    #[trigger] out@[k],
                    f[f.len() - 1 - k],
                ) by {
                    assert(f[f.len() - 1 - k] == fs[fs.len() - 1 - k]);
                }
            } else {
                assert(self@.subrange(0, self@.len() as int) =~= self@);
            }
            let f = status_rows(self@, status);
            lemma_filter_sorted(self@, |t: RelayerTransaction| t.status == status);
            assert forall|k1: int, k2: int| 0 <= k1 < k2 < out@.len() implies out@[k1].created_at
                >= out@[k2].created_at by {
                assert(tx_equiv(out@[k1], f[f.len() - 1 - k1]));
                assert(tx_equiv(out@[k2], f[f.len() - 1 - k2]));
                assert(f[f.len() - 1 - k2].created_at <= f[f.len() - 1 - k1].created_at);
            }
        }
        out
    }

    /// Per-status counts over the whole ledger.
    #[verifier::loop_isolation(false)]
    pub fn get_stats(&self) -> (r: TransactionStats)
        requires
            self.wf(),
        ensures
            r.total == self@.len(),
            r.pending == status_rows(self@, TransactionStatus::Pending).len(),
            r.signatures_collected == status_rows(
                self@,
                TransactionStatus::SignaturesCollected,
            ).len(),
            r.submitted == status_rows(self@, TransactionStatus::Submitted).len(),
            r.confirmed == status_rows(self@, TransactionStatus::Confirmed).len(),
            r.failed == status_rows(self@, TransactionStatus::Failed).len(),
    {
        let mut stats = TransactionStats {
            total: 0,
            pending: 0,
            signatures_collected: 0,
            submitted: 0,
            confirmed: 0,
            failed: 0,
        };
        let mut i: usize = 0;
        proof {
            reveal(Seq::filter);
            assert(self@.subrange(0, 0) =~= Seq::<RelayerTransaction>::empty());
            if self@.len() > 0 {
                assert(self@[self@.len() - 1].id == self@.len());
            }
            broadcast use vstd::seq_lib::group_seq_properties;
        }
        while i < self.rows.len()
            invariant
                i <= self@.len(),
                self@.len() <= i64::MAX,
                stats.total == i,
                stats.pending == status_rows(
                    self@.subrange(0, i as int),
                    TransactionStatus::Pending,
                ).len(),
                stats.signatures_collected == status_rows(
                    self@.subrange(0, i as int),
                    TransactionStatus::SignaturesCollected,
                ).len(),
                stats.submitted == status_rows(
                    self@.subrange(0, i as int),
                    TransactionStatus::Submitted,
                ).len(),
                stats.confirmed == status_rows(
                    self@.subrange(0, i as int),
                    TransactionStatus::Confirmed,
                ).len(),
                stats.failed == status_rows(
                    self@.subrange(0, i as int),
                    TransactionStatus::Failed,
                ).len(),
            decreases self@.len() - i,
        {
            proof {
                reveal(Seq::filter);
                let prefix = self@.subrange(0, i as int);
                let prefix1 = self@.subrange(0, i + 1);
                assert(prefix1.drop_last() =~= prefix);
                assert(prefix1.last() == self@[i as int]);
                prefix.lemma_filter_len(
                    |t: RelayerTransaction| t.status == TransactionStatus::Pending,
                );
                prefix.lemma_filter_len(
                    |t: RelayerTransaction| t.status == TransactionStatus::SignaturesCollected,
                );
                prefix.lemma_filter_len(
                    |t: RelayerTransaction| t.status == TransactionStatus::Submitted,
                );
                prefix.lemma_filter_len(
                    |t: RelayerTransaction| t.status == TransactionStatus::Confirmed,
                );
                prefix.lemma_filter_len(|t: RelayerTransaction| t.status == TransactionStatus::Failed);
            }
            match self.rows[i].status {
                TransactionStatus::Pending => {
                    stats.pending += 1;
                },
                TransactionStatus::SignaturesCollected => {
                    stats.signatures_collected += 1;
                },
                TransactionStatus::Submitted => {
                    stats.submitted += 1;
                },
                TransactionStatus::Confirmed => {
                    stats.confirmed += 1;
                },
                TransactionStatus::Failed => {
                    stats.failed += 1;
                },
            }
            stats.total += 1;
            i += 1;
        }
        proof {
            assert(self@.subrange(0, self@.len() as int) =~= self@);
        }
        stats
    }
}

} // verus!
