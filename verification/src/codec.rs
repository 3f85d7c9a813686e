use vstd::prelude::*;

use crate::tx::{
    CellInput, CellInputView, CellOutput, CellOutputView, Hash256, OutPoint, OutPointView,
    Transaction, TransactionView,
};

verus! {

// ------------------------------------------------------------------
// Little-endian 64-bit words
// ------------------------------------------------------------------

/// The eight little-endian bytes of a 64-bit word.
pub open spec fn u64_le_bytes(v: u64) -> Seq<u8> {
    seq![
        (v & 0xff) as u8,
        ((v >> 8) & 0xff) as u8,
        ((v >> 16) & 0xff) as u8,
        ((v >> 24) & 0xff) as u8,
        ((v >> 32) & 0xff) as u8,
        ((v >> 40) & 0xff) as u8,
        ((v >> 48) & 0xff) as u8,
        ((v >> 56) & 0xff) as u8,
    ]
}

/// The 64-bit word held by eight little-endian bytes.
pub open spec fn le_bytes_to_u64(s: Seq<u8>) -> u64
    recommends
        s.len() == 8,
{
    (s[0] as u64) | ((s[1] as u64) << 8) | ((s[2] as u64) << 16) | ((s[3] as u64) << 24)
        | ((s[4] as u64) << 32) | ((s[5] as u64) << 40) | ((s[6] as u64) << 48)
        | ((s[7] as u64) << 56)
}

/// Reading back the eight little-endian bytes of a word recovers the word.
pub proof fn lemma_le_bytes_roundtrip(v: u64)
    ensures
        le_bytes_to_u64(u64_le_bytes(v)) == v,
{
    let b0 = (v & 0xff) as u8;
    let b1 = ((v >> 8) & 0xff) as u8;
    let b2 = ((v >> 16) & 0xff) as u8;
    let b3 = ((v >> 24) & 0xff) as u8;
    let b4 = ((v >> 32) & 0xff) as u8;
    let b5 = ((v >> 40) & 0xff) as u8;
    let b6 = ((v >> 48) & 0xff) as u8;
    let b7 = ((v >> 56) & 0xff) as u8;
    assert((b0 as u64) | ((b1 as u64) << 8) | ((b2 as u64) << 16) | ((b3 as u64) << 24)
        | ((b4 as u64) << 32) | ((b5 as u64) << 40) | ((b6 as u64) << 48) | ((b7 as u64) << 56)
        == v) by (bit_vector)
        requires
            b0 == (v & 0xff) as u8,
            b1 == ((v >> 8) & 0xff) as u8,
            b2 == ((v >> 16) & 0xff) as u8,
            b3 == ((v >> 24) & 0xff) as u8,
            b4 == ((v >> 32) & 0xff) as u8,
            b5 == ((v >> 40) & 0xff) as u8,
            b6 == ((v >> 48) & 0xff) as u8,
            b7 == ((v >> 56) & 0xff) as u8,
    ;
}

/// Appends the eight little-endian bytes of `v`.
pub fn write_u64_le(out: &mut Vec<u8>, v: u64)
    ensures
        final(out)@ == old(out)@ + u64_le_bytes(v),
{
    out.push((v & 0xff) as u8);
    out.push(((v >> 8) & 0xff) as u8);
    out.push(((v >> 16) & 0xff) as u8);
    out.push(((v >> 24) & 0xff) as u8);
    out.push(((v >> 32) & 0xff) as u8);
    out.push(((v >> 40) & 0xff) as u8);
    out.push(((v >> 48) & 0xff) as u8);
    out.push(((v >> 56) & 0xff) as u8);
    assert(out@ =~= old(out)@ + u64_le_bytes(v));
}

/// Reads the 64-bit word held little-endian at `pos`.
pub fn read_u64_le(bytes: &Vec<u8>, pos: usize) -> (r: u64)
    requires
        pos + 8 <= bytes@.len(),
    ensures
        r == le_bytes_to_u64(bytes@.subrange(pos as int, pos as int + 8)),
{
    let n: usize = bytes.len();
    let b0 = bytes[pos];
    let b1 = bytes[pos + 1];
    let b2 = bytes[pos + 2];
    let b3 = bytes[pos + 3];
    let b4 = bytes[pos + 4];
    let b5 = bytes[pos + 5];
    let b6 = bytes[pos + 6];
    let b7 = bytes[pos + 7];
    let r = (b0 as u64) | ((b1 as u64) << 8) | ((b2 as u64) << 16) | ((b3 as u64) << 24)
        | ((b4 as u64) << 32) | ((b5 as u64) << 40) | ((b6 as u64) << 48) | ((b7 as u64) << 56);
    proof {
        let s = bytes@.subrange(pos as int, pos as int + 8);
        assert(s[0] == b0 && s[1] == b1 && s[2] == b2 && s[3] == b3 && s[4] == b4 && s[5] == b5
            && s[6] == b6 && s[7] == b7);
    }
    r
}

// ------------------------------------------------------------------
// Encoding layout
// ------------------------------------------------------------------
//
// The layout is fixed and deterministic: every number is a little-endian
// 64-bit word, every list is its length followed by its records in order,
// and no field is optional (an absent list encodes as length zero).
//
//   transaction := version · deps-len · dep* · inputs-len · input* ·
//                  outputs-len · output*
//   dep, previous-output := hash (32 raw bytes) · index
//   input  := previous-output
//   output := capacity · lock-len · lock bytes

/// Encoded bytes of one out point: its 32-byte hash, then its index.
pub open spec fn enc_outpoint(v: OutPointView) -> Seq<u8> {
    v.hash + u64_le_bytes(v.index as u64)
}

/// Encoded bytes of one input: the out point it consumes.
pub open spec fn enc_input(v: CellInputView) -> Seq<u8> {
    enc_outpoint(v.previous_output)
}

/// Encoded bytes of one output: capacity, lock length, lock bytes.
pub open spec fn enc_output(v: CellOutputView) -> Seq<u8> {
    u64_le_bytes(v.capacity) + u64_le_bytes(v.lock.len() as u64) + v.lock
}

/// Encoded bytes of the dependency list: each record in order.
pub open spec fn enc_outpoint_list(s: Seq<OutPointView>) -> Seq<u8>
    decreases s.len(),
{
    if s.len() == 0 {
        Seq::<u8>::empty()
    } else {
        enc_outpoint(s.first()) + enc_outpoint_list(s.drop_first())
    }
}

/// Encoded bytes of the input list: each record in order.
pub open spec fn enc_input_list(s: Seq<CellInputView>) -> Seq<u8>
    decreases s.len(),
{
    if s.len() == 0 {
        Seq::<u8>::empty()
    } else {
        enc_input(s.first()) + enc_input_list(s.drop_first())
    }
}

/// Encoded bytes of the output list: each record in order.
pub open spec fn enc_output_list(s: Seq<CellOutputView>) -> Seq<u8>
    decreases s.len(),
{
    if s.len() == 0 {
        Seq::<u8>::empty()
    } else {
        enc_output(s.first()) + enc_output_list(s.drop_first())
    }
}

/// One more record extends a dependency-list encoding on the right.
pub proof fn lemma_enc_outpoint_list_take_succ(s: Seq<OutPointView>, i: int)
    requires
        0 <= i < s.len(),
    ensures
        enc_outpoint_list(s.take(i + 1)) == enc_outpoint_list(s.take(i)) + enc_outpoint(s[i]),
    decreases i,
{
    if i == 0 {
        assert(s.take(1).drop_first() =~= s.take(0));
        assert(enc_outpoint_list(s.take(1)) =~= enc_outpoint_list(s.take(0)) + enc_outpoint(s[0]));
    } else {
        let t = s.drop_first();
        assert(s.take(i + 1).first() == s[0]);
        assert(s.take(i + 1).drop_first() =~= t.take(i));
        assert(s.take(i).first() == s[0]);
        assert(s.take(i).drop_first() =~= t.take(i - 1));
        lemma_enc_outpoint_list_take_succ(t, i - 1);
        assert(t[i - 1] == s[i]);
        assert(enc_outpoint(s[0]) + (enc_outpoint_list(t.take(i - 1)) + enc_outpoint(s[i])) =~= (
        enc_outpoint(s[0]) + enc_outpoint_list(t.take(i - 1))) + enc_outpoint(s[i]));
    }
}

/// One more record extends an input-list encoding on the right.
pub proof fn lemma_enc_input_list_take_succ(s: Seq<CellInputView>, i: int)
    requires
        0 <= i < s.len(),
    ensures
        enc_input_list(s.take(i + 1)) == enc_input_list(s.take(i)) + enc_input(s[i]),
    decreases i,
{
    if i == 0 {
        assert(s.take(1).drop_first() =~= s.take(0));
        assert(enc_input_list(s.take(1)) =~= enc_input_list(s.take(0)) + enc_input(s[0]));
    } else {
        let t = s.drop_first();
        assert(s.take(i + 1).first() == s[0]);
        assert(s.take(i + 1).drop_first() =~= t.take(i));
        assert(s.take(i).first() == s[0]);
        assert(s.take(i).drop_first() =~= t.take(i - 1));
        lemma_enc_input_list_take_succ(t, i - 1);
        assert(t[i - 1] == s[i]);
        assert(enc_input(s[0]) + (enc_input_list(t.take(i - 1)) + enc_input(s[i])) =~= (enc_input(
            s[0],
        ) + enc_input_list(t.take(i - 1))) + enc_input(s[i]));
    }
}

/// One more record extends an output-list encoding on the right.
pub proof fn lemma_enc_output_list_take_succ(s: Seq<CellOutputView>, i: int)
    requires
        0 <= i < s.len(),
    ensures
        enc_output_list(s.take(i + 1)) == enc_output_list(s.take(i)) + enc_output(s[i]),
    decreases i,
{
    if i == 0 {
        assert(s.take(1).drop_first() =~= s.take(0));
        assert(enc_output_list(s.take(1)) =~= enc_output_list(s.take(0)) + enc_output(s[0]));
    } else {
        let t = s.drop_first();
        assert(s.take(i + 1).first() == s[0]);
        assert(s.take(i + 1).drop_first() =~= t.take(i));
        assert(s.take(i).first() == s[0]);
        assert(s.take(i).drop_first() =~= t.take(i - 1));
        lemma_enc_output_list_take_succ(t, i - 1);
        assert(t[i - 1] == s[i]);
        assert(enc_output(s[0]) + (enc_output_list(t.take(i - 1)) + enc_output(s[i])) =~= (
        enc_output(s[0]) + enc_output_list(t.take(i - 1))) + enc_output(s[i]));
    }
}

/// Encoded bytes of a whole transaction.
pub open spec fn enc_tx(v: TransactionView) -> Seq<u8> {
    u64_le_bytes(v.version as u64) + u64_le_bytes(v.deps.len() as u64) + enc_outpoint_list(v.deps)
        + u64_le_bytes(v.inputs.len() as u64) + enc_input_list(v.inputs) + u64_le_bytes(
        v.outputs.len() as u64,
    ) + enc_output_list(v.outputs)
}

// ------------------------------------------------------------------
// Encoder
// ------------------------------------------------------------------

/// Appends the encoding of one out point.
fn write_outpoint(out: &mut Vec<u8>, op: &OutPoint)
    requires
        op@.wf(),
    ensures
        final(out)@ == old(out)@ + enc_outpoint(op@),
{
    let ghost mid = out@ + op.hash.bytes@;
    let mut i: usize = 0;
    while i < op.hash.bytes.len()
        invariant
            op@.wf(),
            i <= op.hash.bytes@.len(),
            out@ == old(out)@ + op.hash.bytes@.take(i as int),
        decreases op.hash.bytes@.len() - i,
    {
        out.push(op.hash.bytes[i]);
        assert(out@ =~= old(out)@ + op.hash.bytes@.take(i + 1));
        i = i + 1;
    }
    assert(out@ =~= old(out)@ + op.hash.bytes@);
    write_u64_le(out, op.index as u64);
    assert(out@ =~= old(out)@ + enc_outpoint(op@));
}

/// Encoded record of one input, as it stands inside an encoded transaction.
pub fn build_input(input: &CellInput) -> (r: Vec<u8>)
    requires
        input@.wf(),
    ensures
        r@ == enc_input(input@),
{
    let mut out: Vec<u8> = Vec::new();
    write_outpoint(&mut out, &input.previous_output);
    assert(out@ =~= enc_input(input@));
    out
}

/// Encoded record of one output: this is also the per-cell encoding the
/// backing store serves for cell mappings.
pub fn build_output(output: &CellOutput) -> (r: Vec<u8>)
    ensures
        r@ == enc_output(output@),
{
    let mut out: Vec<u8> = Vec::new();
    write_u64_le(&mut out, output.capacity);
    write_u64_le(&mut out, output.lock.len() as u64);
    let mut i: usize = 0;
    let ghost pre = out@;
    while i < output.lock.len()
        invariant
            i <= output.lock@.len(),
            out@ == pre + output.lock@.take(i as int),
        decreases output.lock@.len() - i,
    {
        out.push(output.lock[i]);
        assert(out@ =~= pre + output.lock@.take(i + 1));
        i = i + 1;
    }
    assert(out@ =~= enc_output(output@));
    out
}

/// Deterministic encoding of a whole transaction: version, then the
/// dependency list, then the input list, then the output list.
pub fn build_tx(tx: &Transaction) -> (r: Vec<u8>)
    requires
        tx@.wf(),
    ensures
        r@ == enc_tx(tx@),
{
    let mut out: Vec<u8> = Vec::new();
    write_u64_le(&mut out, tx.version as u64);
    write_u64_le(&mut out, tx.deps.len() as u64);

    let ghost pre_deps = out@;
    let mut i: usize = 0;
    while i < tx.deps.len()
        invariant
            tx@.wf(),
            i <= tx.deps@.len(),
            out@ == pre_deps + enc_outpoint_list(tx@.deps.take(i as int)),
        decreases tx.deps@.len() - i,
    {
        assert(tx@.deps[i as int] == tx.deps@[i as int]@);
        assert(tx@.deps[i as int].wf());
        write_outpoint(&mut out, &tx.deps[i]);
        proof {
            lemma_enc_outpoint_list_take_succ(tx@.deps, i as int);
        }
        assert(out@ =~= pre_deps + enc_outpoint_list(tx@.deps.take(i as int + 1)));
        i = i + 1;
    }
    assert(tx@.deps.take(tx.deps@.len() as int) =~= tx@.deps);

    write_u64_le(&mut out, tx.inputs.len() as u64);
    let ghost pre_inputs = out@;
    let mut i: usize = 0;
    while i < tx.inputs.len()
        invariant
            tx@.wf(),
            i <= tx.inputs@.len(),
            out@ == pre_inputs + enc_input_list(tx@.inputs.take(i as int)),
        decreases tx.inputs@.len() - i,
    {
        assert(tx@.inputs[i as int] == tx.inputs@[i as int]@);
        assert(tx@.inputs[i as int].wf());
        write_outpoint(&mut out, &tx.inputs[i].previous_output);
        proof {
            lemma_enc_input_list_take_succ(tx@.inputs, i as int);
        }
        assert(enc_input(tx@.inputs[i as int]) == enc_outpoint(
            tx@.inputs[i as int].previous_output,
        ));
        assert(out@ =~= pre_inputs + enc_input_list(tx@.inputs.take(i as int + 1)));
        i = i + 1;
    }
    assert(tx@.inputs.take(tx.inputs@.len() as int) =~= tx@.inputs);

    write_u64_le(&mut out, tx.outputs.len() as u64);
    let ghost pre_outputs = out@;
    let mut i: usize = 0;
    while i < tx.outputs.len()
        invariant
            i <= tx.outputs@.len(),
            out@ == pre_outputs + enc_output_list(tx@.outputs.take(i as int)),
        decreases tx.outputs@.len() - i,
    {
        assert(tx@.outputs[i as int] == tx.outputs@[i as int]@);
        let record = build_output(&tx.outputs[i]);
        let mut j: usize = 0;
        let ghost pre_rec = out@;
        while j < record.len()
            invariant
                j <= record@.len(),
                out@ == pre_rec + record@.take(j as int),
            decreases record@.len() - j,
        {
            out.push(record[j]);
            assert(out@ =~= pre_rec + record@.take(j + 1));
            j = j + 1;
        }
        assert(out@ =~= pre_rec + record@);
        proof {
            lemma_enc_output_list_take_succ(tx@.outputs, i as int);
        }
        assert(out@ =~= pre_outputs + enc_output_list(tx@.outputs.take(i as int + 1)));
        i = i + 1;
    }
    assert(tx@.outputs.take(tx.outputs@.len() as int) =~= tx@.outputs);
    assert(out@ =~= enc_tx(tx@));
    out
}

// ------------------------------------------------------------------
// Decoder
// ------------------------------------------------------------------

/// Decodes the 64-bit word at `pos`; `None` past the end.
pub open spec fn dec_u64(s: Seq<u8>, pos: int) -> Option<(u64, int)> {
    if 0 <= pos && pos + 8 <= s.len() {
        Option::Some((le_bytes_to_u64(s.subrange(pos, pos + 8)), pos + 8))
    } else {
        Option::None
    }
}

/// Decodes one out-point record at `pos`: 32 hash bytes, then an index that
/// must fit the index width.
pub open spec fn dec_outpoint(s: Seq<u8>, pos: int) -> Option<(OutPointView, int)> {
    if 0 <= pos && pos + 32 <= s.len() {
        let hash = s.subrange(pos, pos + 32);
        match dec_u64(s, pos + 32) {
            Option::Some((idx, p2)) => if idx <= u32::MAX as u64 {
                Option::Some((OutPointView { hash, index: idx as u32 }, p2))
            } else {
                Option::None
            },
            Option::None => Option::None,
        }
    } else {
        Option::None
    }
}

/// Decodes one input record at `pos`.
pub open spec fn dec_input(s: Seq<u8>, pos: int) -> Option<(CellInputView, int)> {
    match dec_outpoint(s, pos) {
        Option::Some((op, p2)) => Option::Some((CellInputView { previous_output: op }, p2)),
        Option::None => Option::None,
    }
}

/// Decodes one output record at `pos`: capacity, lock length, lock bytes.
pub open spec fn dec_output(s: Seq<u8>, pos: int) -> Option<(CellOutputView, int)> {
    match dec_u64(s, pos) {
        Option::Some((capacity, p2)) => match dec_u64(s, p2) {
            Option::Some((lock_len, p3)) => if p3 + lock_len <= s.len() {
                Option::Some(
                    (
                        CellOutputView { capacity, lock: s.subrange(p3, p3 + lock_len) },
                        p3 + lock_len,
                    ),
                )
            } else {
                Option::None
            },
            Option::None => Option::None,
        },
        Option::None => Option::None,
    }
}

/// Decodes `count` out-point records starting at `pos`.
pub open spec fn dec_outpoint_list(s: Seq<u8>, pos: int, count: nat) -> Option<
    (Seq<OutPointView>, int),
>
    decreases count,
{
    if count == 0 {
        Option::Some((Seq::<OutPointView>::empty(), pos))
    } else {
        match dec_outpoint(s, pos) {
            Option::Some((v, p2)) => match dec_outpoint_list(s, p2, (count - 1) as nat) {
                Option::Some((rest, p3)) => Option::Some((seq![v] + rest, p3)),
                Option::None => Option::None,
            },
            Option::None => Option::None,
        }
    }
}

/// Decodes `count` input records starting at `pos`.
pub open spec fn dec_input_list(s: Seq<u8>, pos: int, count: nat) -> Option<
    (Seq<CellInputView>, int),
>
    decreases count,
{
    if count == 0 {
        Option::Some((Seq::<CellInputView>::empty(), pos))
    } else {
        match dec_input(s, pos) {
            Option::Some((v, p2)) => match dec_input_list(s, p2, (count - 1) as nat) {
                Option::Some((rest, p3)) => Option::Some((seq![v] + rest, p3)),
                Option::None => Option::None,
            },
            Option::None => Option::None,
        }
    }
}

/// Decodes `count` output records starting at `pos`.
pub open spec fn dec_output_list(s: Seq<u8>, pos: int, count: nat) -> Option<
    (Seq<CellOutputView>, int),
>
    decreases count,
{
    if count == 0 {
        Option::Some((Seq::<CellOutputView>::empty(), pos))
    } else {
        match dec_output(s, pos) {
            Option::Some((v, p2)) => match dec_output_list(s, p2, (count - 1) as nat) {
                Option::Some((rest, p3)) => Option::Some((seq![v] + rest, p3)),
                Option::None => Option::None,
            },
            Option::None => Option::None,
        }
    }
}

/// Decodes a whole transaction: the exact inverse shape of `enc_tx`, with
/// nothing left over at the end.
pub open spec fn dec_tx(s: Seq<u8>) -> Option<TransactionView> {
    match dec_u64(s, 0) {
        Option::Some((version, p1)) => if version <= u32::MAX as u64 {
            match dec_u64(s, p1) {
                Option::Some((dep_count, p2)) => match dec_outpoint_list(s, p2, dep_count as nat) {
                    Option::Some((deps, p3)) => match dec_u64(s, p3) {
                        Option::Some((in_count, p4)) => match dec_input_list(
                            s,
                            p4,
                            in_count as nat,
                        ) {
                            Option::Some((inputs, p5)) => match dec_u64(s, p5) {
                                Option::Some((out_count, p6)) => match dec_output_list(
                                    s,
                                    p6,
                                    out_count as nat,
                                ) {
                                    Option::Some((outputs, p7)) => if p7 == s.len() {
                                        Option::Some(
                                            TransactionView {
                                                version: version as u32,
                                                deps,
                                                inputs,
                                                outputs,
                                            },
                                        )
                                    } else {
                                        Option::None
                                    },
                                    Option::None => Option::None,
                                },
                                Option::None => Option::None,
                            },
                            Option::None => Option::None,
                        },
                        Option::None => Option::None,
                    },
                    Option::None => Option::None,
                },
                Option::None => Option::None,
            }
        } else {
            Option::None
        },
        Option::None => Option::None,
    }
}

// ------------------------------------------------------------------
// Round trip
// ------------------------------------------------------------------

/// Every list and every lock script is short enough for its length to be
/// carried in one 64-bit word. Every value held in executable vectors is.
pub open spec fn bounded(v: TransactionView) -> bool {
    &&& v.deps.len() <= u64::MAX
    &&& v.inputs.len() <= u64::MAX
    &&& v.outputs.len() <= u64::MAX
    &&& forall|i: int| 0 <= i < v.outputs.len() ==> (#[trigger] v.outputs[i]).lock.len()
        <= u64::MAX
}

/// A window into a window of a sequence is a window of the sequence.
proof fn lemma_subrange_of_subrange(s: Seq<u8>, pos: int, len: int, lo: int, hi: int)
    requires
        0 <= pos,
        pos + len <= s.len(),
        0 <= lo <= hi <= len,
    ensures
        s.subrange(pos, pos + len).subrange(lo, hi) == s.subrange(pos + lo, pos + hi),
{
    assert(s.subrange(pos, pos + len).subrange(lo, hi) =~= s.subrange(pos + lo, pos + hi));
}

/// A word encoded at `pos` decodes back to itself.
proof fn lemma_dec_u64_at(s: Seq<u8>, pos: int, v: u64)
    requires
        0 <= pos,
        pos + 8 <= s.len(),
        s.subrange(pos, pos + 8) == u64_le_bytes(v),
    ensures
        dec_u64(s, pos) == Option::Some((v, pos + 8)),
{
    lemma_le_bytes_roundtrip(v);
}

/// An out-point record encoded at `pos` decodes back to itself.
proof fn lemma_dec_outpoint_at(s: Seq<u8>, pos: int, op: OutPointView)
    requires
        op.wf(),
        0 <= pos,
        pos + 40 <= s.len(),
        s.subrange(pos, pos + 40) == enc_outpoint(op),
    ensures
        dec_outpoint(s, pos) == Option::Some((op, pos + 40)),
{
    assert(u64_le_bytes(op.index as u64).len() == 8);
    lemma_subrange_of_subrange(s, pos, 40, 0, 32);
    assert(enc_outpoint(op).subrange(0, 32) =~= op.hash);
    assert(s.subrange(pos, pos + 32) == op.hash);
    lemma_subrange_of_subrange(s, pos, 40, 32, 40);
    assert(enc_outpoint(op).subrange(32, 40) =~= u64_le_bytes(op.index as u64));
    assert(s.subrange(pos + 32, pos + 40) == u64_le_bytes(op.index as u64));
    lemma_dec_u64_at(s, pos + 32, op.index as u64);
    assert((OutPointView { hash: s.subrange(pos, pos + 32), index: op.index }) =~= op);
}

/// An output record encoded at `pos` decodes back to itself.
proof fn lemma_dec_output_at(s: Seq<u8>, pos: int, c: CellOutputView)
    requires
        0 <= pos,
        c.lock.len() <= u64::MAX,
        pos + 16 + c.lock.len() <= s.len(),
        s.subrange(pos, pos + 16 + c.lock.len()) == enc_output(c),
    ensures
        dec_output(s, pos) == Option::Some((c, pos + 16 + c.lock.len())),
{
    let total: int = 16 + c.lock.len() as int;
    assert(u64_le_bytes(c.capacity).len() == 8);
    assert(u64_le_bytes(c.lock.len() as u64).len() == 8);
    lemma_subrange_of_subrange(s, pos, total, 0, 8);
    assert(enc_output(c).subrange(0, 8) =~= u64_le_bytes(c.capacity));
    lemma_subrange_of_subrange(s, pos, total, 8, 16);
    assert(enc_output(c).subrange(8, 16) =~= u64_le_bytes(c.lock.len() as u64));
    lemma_dec_u64_at(s, pos, c.capacity);
    lemma_dec_u64_at(s, pos + 8, c.lock.len() as u64);
    lemma_subrange_of_subrange(s, pos, total, 16, total);
    assert(enc_output(c).subrange(16, total) =~= c.lock);
    assert(s.subrange(pos + 16, pos + 16 + c.lock.len()) == c.lock);
    assert((CellOutputView {
        capacity: c.capacity,
        lock: s.subrange(pos + 16, pos + 16 + c.lock.len()),
    }) =~= c);
}

/// A dependency list encoded at `pos` decodes back to itself.
proof fn lemma_dec_outpoint_list_at(s: Seq<u8>, pos: int, items: Seq<OutPointView>)
    requires
        forall|k: int| 0 <= k < items.len() ==> (#[trigger] items[k]).wf(),
        0 <= pos,
        pos + enc_outpoint_list(items).len() <= s.len(),
        s.subrange(pos, pos + enc_outpoint_list(items).len()) == enc_outpoint_list(items),
    ensures
        dec_outpoint_list(s, pos, items.len()) == Option::Some(
            (items, pos + enc_outpoint_list(items).len()),
        ),
    decreases items.len(),
{
    if items.len() == 0 {
        assert(items =~= Seq::<OutPointView>::empty());
    } else {
        let first = items.first();
        let rest = items.drop_first();
        let el = enc_outpoint(first);
        let lw = enc_outpoint_list(items);
        let lr = enc_outpoint_list(rest);
        assert(first.wf()) by {
            assert(items[0].wf());
        }
        assert(el.len() == 40);
        assert(lw == el + lr);
        lemma_subrange_of_subrange(s, pos, lw.len() as int, 0, 40);
        assert(lw.subrange(0, 40) =~= el);
        lemma_dec_outpoint_at(s, pos, first);
        lemma_subrange_of_subrange(s, pos, lw.len() as int, 40, lw.len() as int);
        assert(lw.subrange(40, lw.len() as int) =~= lr);
        assert(s.subrange(pos + 40, pos + 40 + lr.len()) == lr);
        assert(forall|k: int| 0 <= k < rest.len() ==> (#[trigger] rest[k]).wf()) by {
            assert(forall|k: int| 0 <= k < rest.len() ==> rest[k] == items[k + 1]);
        }
        lemma_dec_outpoint_list_at(s, pos + 40, rest);
        assert(seq![first] + rest =~= items);
    }
}

/// An input list encoded at `pos` decodes back to itself.
proof fn lemma_dec_input_list_at(s: Seq<u8>, pos: int, items: Seq<CellInputView>)
    requires
        forall|k: int| 0 <= k < items.len() ==> (#[trigger] items[k]).wf(),
        0 <= pos,
        pos + enc_input_list(items).len() <= s.len(),
        s.subrange(pos, pos + enc_input_list(items).len()) == enc_input_list(items),
    ensures
        dec_input_list(s, pos, items.len()) == Option::Some(
            (items, pos + enc_input_list(items).len()),
        ),
    decreases items.len(),
{
    if items.len() == 0 {
        assert(items =~= Seq::<CellInputView>::empty());
    } else {
        let first = items.first();
        let rest = items.drop_first();
        let el = enc_input(first);
        let lr = enc_input_list(rest);
        assert(first.wf()) by {
            assert(items[0].wf());
        }
        let lw = enc_input_list(items);
        assert(el.len() == 40);
        assert(lw == el + lr);
        lemma_subrange_of_subrange(s, pos, lw.len() as int, 0, 40);
        assert(lw.subrange(0, 40) =~= el);
        lemma_dec_outpoint_at(s, pos, first.previous_output);
        assert((CellInputView { previous_output: first.previous_output }) =~= first);
        lemma_subrange_of_subrange(s, pos, lw.len() as int, 40, lw.len() as int);
        assert(lw.subrange(40, lw.len() as int) =~= lr);
        assert(s.subrange(pos + 40, pos + 40 + lr.len()) == lr);
        assert(forall|k: int| 0 <= k < rest.len() ==> (#[trigger] rest[k]).wf()) by {
            assert(forall|k: int| 0 <= k < rest.len() ==> rest[k] == items[k + 1]);
        }
        lemma_dec_input_list_at(s, pos + 40, rest);
        assert(seq![first] + rest =~= items);
    }
}

/// An output list encoded at `pos` decodes back to itself.
proof fn lemma_dec_output_list_at(s: Seq<u8>, pos: int, items: Seq<CellOutputView>)
    requires
        forall|k: int| 0 <= k < items.len() ==> (#[trigger] items[k]).lock.len() <= u64::MAX,
        0 <= pos,
        pos + enc_output_list(items).len() <= s.len(),
        s.subrange(pos, pos + enc_output_list(items).len()) == enc_output_list(items),
    ensures
        dec_output_list(s, pos, items.len()) == Option::Some(
            (items, pos + enc_output_list(items).len()),
        ),
    decreases items.len(),
{
    if items.len() == 0 {
        assert(items =~= Seq::<CellOutputView>::empty());
    } else {
        let first = items.first();
        let rest = items.drop_first();
        let el = enc_output(first);
        let lr = enc_output_list(rest);
        let elen = 16 + first.lock.len();
        assert(first.lock.len() <= u64::MAX) by {
            assert(items[0].lock.len() <= u64::MAX);
        }
        let lw = enc_output_list(items);
        assert(el.len() == elen);
        assert(lw == el + lr);
        lemma_subrange_of_subrange(s, pos, lw.len() as int, 0, elen as int);
        assert(lw.subrange(0, elen as int) =~= el);
        lemma_dec_output_at(s, pos, first);
        lemma_subrange_of_subrange(s, pos, lw.len() as int, elen as int, lw.len() as int);
        assert(lw.subrange(elen as int, lw.len() as int) =~= lr);
        assert(s.subrange(pos + elen, pos + elen + lr.len()) == lr);
        assert(forall|k: int| 0 <= k < rest.len() ==> (#[trigger] rest[k]).lock.len()
            <= u64::MAX) by {
            assert(forall|k: int| 0 <= k < rest.len() ==> rest[k] == items[k + 1]);
        }
        lemma_dec_output_list_at(s, pos + elen, rest);
        assert(seq![first] + rest =~= items);
    }
}

/// The round trip: encoding a well-formed transaction and decoding the
/// encoded bytes recovers the same version, dependency list, input list,
/// and output list. Together with `enc_tx` being a function of the logical
/// transaction alone — so the encoding is deterministic — this pins the
/// binary layout down completely.
#[verifier::rlimit(80)]
pub proof fn lemma_tx_round_trip(v: TransactionView)
    requires
        v.wf(),
        bounded(v),
    ensures
        dec_tx(enc_tx(v)) == Option::Some(v),
{
    let s = enc_tx(v);
    let a = u64_le_bytes(v.version as u64);
    let b = u64_le_bytes(v.deps.len() as u64);
    let c = enc_outpoint_list(v.deps);
    let d = u64_le_bytes(v.inputs.len() as u64);
    let e = enc_input_list(v.inputs);
    let f = u64_le_bytes(v.outputs.len() as u64);
    let g = enc_output_list(v.outputs);
    assert(a.len() == 8 && b.len() == 8 && d.len() == 8 && f.len() == 8);
    assert(s == a + b + c + d + e + f + g);
    let o3: int = 16 + c.len() as int;
    let o4: int = o3 + 8;
    let o5: int = o4 + e.len();
    let o6: int = o5 + 8;
    let o7: int = o6 + g.len();
    assert(s.len() == o7);

    assert(s.subrange(0, 8) =~= a);
    lemma_dec_u64_at(s, 0, v.version as u64);
    assert(s.subrange(8, 16) =~= b);
    lemma_dec_u64_at(s, 8, v.deps.len() as u64);
    assert(s.subrange(16, o3) =~= c);
    lemma_dec_outpoint_list_at(s, 16, v.deps);
    assert(s.subrange(o3, o4) =~= d);
    lemma_dec_u64_at(s, o3, v.inputs.len() as u64);
    assert(s.subrange(o4, o5) =~= e);
    lemma_dec_input_list_at(s, o4, v.inputs);
    assert(s.subrange(o5, o6) =~= f);
    lemma_dec_u64_at(s, o5, v.outputs.len() as u64);
    assert(s.subrange(o6, o7) =~= g);
    lemma_dec_output_list_at(s, o6, v.outputs);

    assert((v.version as u64) <= u32::MAX as u64);
    assert(((v.deps.len() as u64) as nat) == v.deps.len());
    assert(((v.inputs.len() as u64) as nat) == v.inputs.len());
    assert(((v.outputs.len() as u64) as nat) == v.outputs.len());
    assert((TransactionView {
        version: (v.version as u64) as u32,
        deps: v.deps,
        inputs: v.inputs,
        outputs: v.outputs,
    }) =~= v);
}

/// Reads the word at `pos`, exactly as the decoder specifies it.
fn read_u64_checked(bytes: &Vec<u8>, pos: usize) -> (r: Option<(u64, usize)>)
    ensures
        match r {
            Option::Some((v, p2)) => {
                &&& dec_u64(bytes@, pos as int) == Option::Some((v, p2 as int))
                &&& p2 == pos + 8
                &&& p2 <= bytes@.len()
            },
            Option::None => dec_u64(bytes@, pos as int) is None,
        },
{
    let n: usize = bytes.len();
    if n >= 8 && pos <= n - 8 {
        Some((read_u64_le(bytes, pos), pos + 8))
    } else {
        None
    }
}

/// Decodes one out-point record, exactly as the decoder specifies it.
fn decode_outpoint(bytes: &Vec<u8>, pos: usize) -> (r: Option<(OutPoint, usize)>)
    ensures
        match r {
            Option::Some((op, p2)) => {
                &&& dec_outpoint(bytes@, pos as int) == Option::Some((op@, p2 as int))
                &&& op@.wf()
                &&& pos <= p2 <= bytes@.len()
            },
            Option::None => dec_outpoint(bytes@, pos as int) is None,
        },
{
    let n: usize = bytes.len();
    if !(n >= 32 && pos <= n - 32) {
        return None;
    }
    let mut hash_bytes: Vec<u8> = Vec::new();
    let mut i: usize = 0;
    while i < 32
        invariant
            pos + 32 <= bytes@.len(),
            bytes@.len() <= usize::MAX,
            i <= 32,
            hash_bytes@ == bytes@.subrange(pos as int, pos as int + i),
        decreases 32 - i,
    {
        hash_bytes.push(bytes[pos + i]);
        assert(hash_bytes@ =~= bytes@.subrange(pos as int, pos as int + i + 1));
        i = i + 1;
    }
    match read_u64_checked(bytes, pos + 32) {
        Some((idx, p2)) => {
            if idx <= u32::MAX as u64 {
                let op = OutPoint { hash: Hash256 { bytes: hash_bytes }, index: idx as u32 };
                assert(op@ =~= (OutPointView {
                    hash: bytes@.subrange(pos as int, pos as int + 32),
                    index: idx as u32,
                }));
                Some((op, p2))
            } else {
                None
            }
        },
        None => None,
    }
}

/// Decodes one output record, exactly as the decoder specifies it.
fn decode_output(bytes: &Vec<u8>, pos: usize) -> (r: Option<(CellOutput, usize)>)
    ensures
        match r {
            Option::Some((c, p2)) => {
                &&& dec_output(bytes@, pos as int) == Option::Some((c@, p2 as int))
                &&& pos <= p2 <= bytes@.len()
            },
            Option::None => dec_output(bytes@, pos as int) is None,
        },
{
    let (capacity, p1) = match read_u64_checked(bytes, pos) {
        Some(x) => x,
        None => {
            return None;
        },
    };
    let (lock_len, p2) = match read_u64_checked(bytes, p1) {
        Some(x) => x,
        None => {
            return None;
        },
    };
    let n: usize = bytes.len();
    if lock_len > (n - p2) as u64 {
        return None;
    }
    let ll = lock_len as usize;
    let mut lock: Vec<u8> = Vec::new();
    let mut i: usize = 0;
    while i < ll
        invariant
            p2 + ll <= bytes@.len(),
            bytes@.len() <= usize::MAX,
            i <= ll,
            lock@ == bytes@.subrange(p2 as int, p2 as int + i),
        decreases ll - i,
    {
        lock.push(bytes[p2 + i]);
        assert(lock@ =~= bytes@.subrange(p2 as int, p2 as int + i + 1));
        i = i + 1;
    }
    let c = CellOutput { capacity, lock };
    assert(c@ =~= (CellOutputView {
        capacity,
        lock: bytes@.subrange(p2 as int, p2 as int + lock_len),
    }));
    Some((c, p2 + ll))
}

/// Decodes `count` out-point records, exactly as the decoder specifies.
fn decode_outpoint_list(bytes: &Vec<u8>, pos: usize, count: u64) -> (r: Option<
    (Vec<OutPoint>, usize),
>)
    requires
        pos <= bytes@.len(),
    ensures
        match r {
            Option::Some((v, p)) => {
                &&& dec_outpoint_list(bytes@, pos as int, count as nat) == Option::Some(
                    (v@.map_values(|d: OutPoint| d@), p as int),
                )
                &&& p <= bytes@.len()
                &&& forall|k: int| 0 <= k < v@.len() ==> (#[trigger] v@[k])@.wf()
            },
            Option::None => dec_outpoint_list(bytes@, pos as int, count as nat) is None,
        },
{
    let mut acc: Vec<OutPoint> = Vec::new();
    let mut cur: usize = pos;
    let mut i: u64 = 0;
    assert(acc@.map_values(|d: OutPoint| d@) =~= Seq::<OutPointView>::empty());
    while i < count
        invariant
            i <= count,
            cur <= bytes@.len(),
            forall|k: int| 0 <= k < acc@.len() ==> (#[trigger] acc@[k])@.wf(),
            ({
                let tail = dec_outpoint_list(bytes@, cur as int, (count - i) as nat);
                let whole = dec_outpoint_list(bytes@, pos as int, count as nat);
                match tail {
                    Option::Some((rest, p)) => whole == Option::Some(
                        (acc@.map_values(|d: OutPoint| d@) + rest, p),
                    ),
                    Option::None => whole is None,
                }
            }),
        decreases count - i,
    {
        match decode_outpoint(bytes, cur) {
            Some((op, p2)) => {
                proof {
                    let tail = dec_outpoint_list(bytes@, cur as int, (count - i) as nat);
                    let tail2 = dec_outpoint_list(bytes@, p2 as int, (count - i - 1) as nat);
                    match tail2 {
                        Option::Some((rest2, pp)) => {
                            assert(tail == Option::Some((seq![op@] + rest2, pp)));
                            assert(acc@.map_values(|d: OutPoint| d@) + (seq![op@] + rest2)
                                =~= acc@.push(op).map_values(|d: OutPoint| d@) + rest2);
                        },
                        Option::None => {
                            assert(tail is None);
                        },
                    }
                }
                acc.push(op);
                cur = p2;
            },
            None => {
                proof {
                    assert(dec_outpoint_list(bytes@, cur as int, (count - i) as nat) is None);
                }
                return None;
            },
        }
        i = i + 1;
    }
    proof {
        assert(dec_outpoint_list(bytes@, cur as int, 0) == Option::Some(
            (Seq::<OutPointView>::empty(), cur as int),
        ));
        assert(acc@.map_values(|d: OutPoint| d@) + Seq::<OutPointView>::empty() =~= acc@.map_values(
            |d: OutPoint| d@,
        ));
    }
    Some((acc, cur))
}

/// Decodes `count` input records, exactly as the decoder specifies.
fn decode_input_list(bytes: &Vec<u8>, pos: usize, count: u64) -> (r: Option<
    (Vec<CellInput>, usize),
>)
    requires
        pos <= bytes@.len(),
    ensures
        match r {
            Option::Some((v, p)) => {
                &&& dec_input_list(bytes@, pos as int, count as nat) == Option::Some(
                    (v@.map_values(|d: CellInput| d@), p as int),
                )
                &&& p <= bytes@.len()
                &&& forall|k: int| 0 <= k < v@.len() ==> (#[trigger] v@[k])@.wf()
            },
            Option::None => dec_input_list(bytes@, pos as int, count as nat) is None,
        },
{
    let mut acc: Vec<CellInput> = Vec::new();
    let mut cur: usize = pos;
    let mut i: u64 = 0;
    assert(acc@.map_values(|d: CellInput| d@) =~= Seq::<CellInputView>::empty());
    while i < count
        invariant
            i <= count,
            cur <= bytes@.len(),
            forall|k: int| 0 <= k < acc@.len() ==> (#[trigger] acc@[k])@.wf(),
            ({
                let tail = dec_input_list(bytes@, cur as int, (count - i) as nat);
                let whole = dec_input_list(bytes@, pos as int, count as nat);
                match tail {
                    Option::Some((rest, p)) => whole == Option::Some(
                        (acc@.map_values(|d: CellInput| d@) + rest, p),
                    ),
                    Option::None => whole is None,
                }
            }),
        decreases count - i,
    {
        match decode_outpoint(bytes, cur) {
            Some((op, p2)) => {
                let input = CellInput { previous_output: op };
                proof {
                    assert(dec_input(bytes@, cur as int) == Option::Some((input@, p2 as int)));
                    let tail = dec_input_list(bytes@, cur as int, (count - i) as nat);
                    let tail2 = dec_input_list(bytes@, p2 as int, (count - i - 1) as nat);
                    match tail2 {
                        Option::Some((rest2, pp)) => {
                            assert(tail == Option::Some((seq![input@] + rest2, pp)));
                            assert(acc@.map_values(|d: CellInput| d@) + (seq![input@] + rest2)
                                =~= acc@.push(input).map_values(|d: CellInput| d@) + rest2);
                        },
                        Option::None => {
                            assert(tail is None);
                        },
                    }
                }
                acc.push(input);
                cur = p2;
            },
            None => {
                proof {
                    assert(dec_input(bytes@, cur as int) is None);
                    assert(dec_input_list(bytes@, cur as int, (count - i) as nat) is None);
                }
                return None;
            },
        }
        i = i + 1;
    }
    proof {
        assert(dec_input_list(bytes@, cur as int, 0) == Option::Some(
            (Seq::<CellInputView>::empty(), cur as int),
        ));
        assert(acc@.map_values(|d: CellInput| d@) + Seq::<CellInputView>::empty()
            =~= acc@.map_values(|d: CellInput| d@));
    }
    Some((acc, cur))
}

/// Decodes `count` output records, exactly as the decoder specifies.
fn decode_output_list(bytes: &Vec<u8>, pos: usize, count: u64) -> (r: Option<
    (Vec<CellOutput>, usize),
>)
    requires
        pos <= bytes@.len(),
    ensures
        match r {
            Option::Some((v, p)) => {
                &&& dec_output_list(bytes@, pos as int, count as nat) == Option::Some(
                    (v@.map_values(|d: CellOutput| d@), p as int),
                )
                &&& p <= bytes@.len()
            },
            Option::None => dec_output_list(bytes@, pos as int, count as nat) is None,
        },
{
    let mut acc: Vec<CellOutput> = Vec::new();
    let mut cur: usize = pos;
    let mut i: u64 = 0;
    assert(acc@.map_values(|d: CellOutput| d@) =~= Seq::<CellOutputView>::empty());
    while i < count
        invariant
            i <= count,
            cur <= bytes@.len(),
            ({
                let tail = dec_output_list(bytes@, cur as int, (count - i) as nat);
                let whole = dec_output_list(bytes@, pos as int, count as nat);
                match tail {
                    Option::Some((rest, p)) => whole == Option::Some(
                        (acc@.map_values(|d: CellOutput| d@) + rest, p),
                    ),
                    Option::None => whole is None,
                }
            }),
        decreases count - i,
    {
        match decode_output(bytes, cur) {
            Some((c, p2)) => {
                proof {
                    let tail = dec_output_list(bytes@, cur as int, (count - i) as nat);
                    let tail2 = dec_output_list(bytes@, p2 as int, (count - i - 1) as nat);
                    match tail2 {
                        Option::Some((rest2, pp)) => {
                            assert(tail == Option::Some((seq![c@] + rest2, pp)));
                            assert(acc@.map_values(|d: CellOutput| d@) + (seq![c@] + rest2)
                                =~= acc@.push(c).map_values(|d: CellOutput| d@) + rest2);
                        },
                        Option::None => {
                            assert(tail is None);
                        },
                    }
                }
                acc.push(c);
                cur = p2;
            },
            None => {
                proof {
                    assert(dec_output_list(bytes@, cur as int, (count - i) as nat) is None);
                }
                return None;
            },
        }
        i = i + 1;
    }
    proof {
        assert(dec_output_list(bytes@, cur as int, 0) == Option::Some(
            (Seq::<CellOutputView>::empty(), cur as int),
        ));
        assert(acc@.map_values(|d: CellOutput| d@) + Seq::<CellOutputView>::empty()
            =~= acc@.map_values(|d: CellOutput| d@));
    }
    Some((acc, cur))
}

/// Decodes a whole encoded transaction; the result is exactly what the
/// decoder specification yields on these bytes, and `None` exactly when
/// the bytes are not a complete encoding.
pub fn decode_tx(bytes: &Vec<u8>) -> (r: Option<Transaction>)
    ensures
        match r {
            Option::Some(tx) => dec_tx(bytes@) == Option::Some(tx@),
            Option::None => dec_tx(bytes@) is None,
        },
{
    let (version, p1) = match read_u64_checked(bytes, 0) {
        Some(x) => x,
        None => {
            return None;
        },
    };
    if version > u32::MAX as u64 {
        return None;
    }
    let (dep_count, p2) = match read_u64_checked(bytes, p1) {
        Some(x) => x,
        None => {
            return None;
        },
    };
    let (deps, p3) = match decode_outpoint_list(bytes, p2, dep_count) {
        Some(x) => x,
        None => {
            return None;
        },
    };
    let (in_count, p4) = match read_u64_checked(bytes, p3) {
        Some(x) => x,
        None => {
            return None;
        },
    };
    let (inputs, p5) = match decode_input_list(bytes, p4, in_count) {
        Some(x) => x,
        None => {
            return None;
        },
    };
    let (out_count, p6) = match read_u64_checked(bytes, p5) {
        Some(x) => x,
        None => {
            return None;
        },
    };
    let (outputs, p7) = match decode_output_list(bytes, p6, out_count) {
        Some(x) => x,
        None => {
            return None;
        },
    };
    if p7 != bytes.len() {
        return None;
    }
    let tx = Transaction { version: version as u32, deps, inputs, outputs };
    assert(tx@ =~= (TransactionView {
        version: version as u32,
        deps: deps@.map_values(|d: OutPoint| d@),
        inputs: inputs@.map_values(|d: CellInput| d@),
        outputs: outputs@.map_values(|d: CellOutput| d@),
    }));
    Some(tx)
}

} // verus!
