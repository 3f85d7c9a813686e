use vstd::prelude::*;

verus! {

/// A fixed-width 256-bit digest, held as exactly 32 raw bytes.
pub struct Hash256 {
    pub bytes: Vec<u8>,
}

impl View for Hash256 {
    type V = Seq<u8>;

    open spec fn view(&self) -> Seq<u8> {
        self.bytes@
    }
}

impl Hash256 {
    /// A digest is well formed when it holds exactly 32 bytes.
    pub open spec fn wf(&self) -> bool {
        self.bytes@.len() == 32
    }

    pub fn new(bytes: Vec<u8>) -> (r: Option<Hash256>)
        ensures
            bytes@.len() == 32 <==> r is Some,
            r matches Some(h) ==> h@ == bytes@ && h.wf(),
    {
        if bytes.len() == 32 {
            Some(Hash256 { bytes })
        } else {
            None
        }
    }
}

/// Ghost image of an `OutPoint`.
#[verifier::ext_equal]
pub struct OutPointView {
    pub hash: Seq<u8>,
    pub index: u32,
}

impl OutPointView {
    pub open spec fn wf(&self) -> bool {
        self.hash.len() == 32
    }
}

/// A reference to a specific output of a specific prior transaction.
pub struct OutPoint {
    pub hash: Hash256,
    pub index: u32,
}

impl View for OutPoint {
    type V = OutPointView;

    open spec fn view(&self) -> OutPointView {
        OutPointView { hash: self.hash@, index: self.index }
    }
}

/// Ghost image of a `CellInput`.
#[verifier::ext_equal]
pub struct CellInputView {
    pub previous_output: OutPointView,
}

impl CellInputView {
    pub open spec fn wf(&self) -> bool {
        self.previous_output.wf()
    }
}

/// A transaction input: it consumes the cell designated by `previous_output`.
pub struct CellInput {
    pub previous_output: OutPoint,
}

impl View for CellInput {
    type V = CellInputView;

    open spec fn view(&self) -> CellInputView {
        CellInputView { previous_output: self.previous_output@ }
    }
}

/// Ghost image of a `CellOutput`.
#[verifier::ext_equal]
pub struct CellOutputView {
    pub capacity: u64,
    pub lock: Seq<u8>,
}

/// A cell: an unsigned 64-bit capacity plus a lock script byte buffer.
pub struct CellOutput {
    pub capacity: u64,
    pub lock: Vec<u8>,
}

impl View for CellOutput {
    type V = CellOutputView;

    open spec fn view(&self) -> CellOutputView {
        CellOutputView { capacity: self.capacity, lock: self.lock@ }
    }
}

/// Ghost image of a `Transaction`.
#[verifier::ext_equal]
pub struct TransactionView {
    pub version: u32,
    pub deps: Seq<OutPointView>,
    pub inputs: Seq<CellInputView>,
    pub outputs: Seq<CellOutputView>,
}

impl TransactionView {
    /// Every digest in the transaction holds exactly 32 bytes.
    pub open spec fn wf(&self) -> bool {
        &&& forall|i: int| 0 <= i < self.deps.len() ==> #[trigger] self.deps[i].wf()
        &&& forall|i: int| 0 <= i < self.inputs.len() ==> #[trigger] self.inputs[i].wf()
    }
}

/// A transaction: a version, ordered dependency references, ordered inputs,
/// and ordered outputs. Immutable once loaded.
pub struct Transaction {
    pub version: u32,
    pub deps: Vec<OutPoint>,
    pub inputs: Vec<CellInput>,
    pub outputs: Vec<CellOutput>,
}

impl View for Transaction {
    type V = TransactionView;

    open spec fn view(&self) -> TransactionView {
        TransactionView {
            version: self.version,
            deps: self.deps@.map_values(|d: OutPoint| d@),
            inputs: self.inputs@.map_values(|d: CellInput| d@),
            outputs: self.outputs@.map_values(|d: CellOutput| d@),
        }
    }
}

/// Result of resolving an `OutPoint`: either the cell's current data, or
/// `Unknown`. No "spent" variant is representable: the resolution mechanism
/// cannot distinguish a cell that never existed from one already consumed.
pub enum CellStatus {
    Current(CellOutput),
    Unknown,
}

/// Ghost image of a `CellStatus`.
#[verifier::ext_equal]
pub enum CellStatusView {
    Current(CellOutputView),
    Unknown,
}

impl View for CellStatus {
    type V = CellStatusView;

    open spec fn view(&self) -> CellStatusView {
        match self {
            CellStatus::Current(c) => CellStatusView::Current(c@),
            CellStatus::Unknown => CellStatusView::Unknown,
        }
    }
}

} // verus!
