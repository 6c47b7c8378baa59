//! The wire frame: the serialized representation of one block for one
//! exchange boundary. A frame holds the column count, the row count and the
//! column values, each number as eight little-endian bytes; no out-of-band
//! dictionary segment exists in the format, which is why the exchange sink
//! refuses any block whose serialization would need one.

use crate::block::ColumnarBlock;
use crate::errors::ErrorCode;
use vstd::prelude::*;

verus! {

/// Byte `k` of the little-endian encoding of `n`.
pub open spec fn u64_byte(n: u64, k: int) -> u8 {
    (((n >> ((8 * k) as u64)) & 0xff) as u8)
}

/// The eight little-endian bytes of `n`.
pub open spec fn u64_le(n: u64) -> Seq<u8> {
    Seq::new(8, |i: int| u64_byte(n, i))
}

/// The eight little-endian bytes of a signed value, in two's complement.
pub open spec fn i64_le(v: i64) -> Seq<u8> {
    u64_le(v as u64)
}

/// The bytes of one column: its values in row order.
pub open spec fn col_bytes(col: Seq<i64>) -> Seq<u8>
    decreases col.len(),
{
    if col.len() == 0 {
        Seq::empty()
    } else {
        i64_le(col[0]) + col_bytes(col.drop_first())
    }
}

/// The bytes of all columns, in column order.
pub open spec fn cols_bytes(cols: Seq<Seq<i64>>) -> Seq<u8>
    decreases cols.len(),
{
    if cols.len() == 0 {
        Seq::empty()
    } else {
        col_bytes(cols[0]) + cols_bytes(cols.drop_first())
    }
}

/// The wire frame of a block: column count, row count, then the values.
pub open spec fn frame_bytes(b: ColumnarBlock) -> Seq<u8> {
    u64_le(b.cols().len() as u64) + u64_le(b.rows() as u64) + cols_bytes(b.cols())
}

/// The frames one block yields at an exchange boundary: its wire frame,
/// except that an empty block yields none.
pub open spec fn block_frames(b: ColumnarBlock) -> Seq<Seq<u8>> {
    if b.spec_is_empty() {
        Seq::<Seq<u8>>::empty()
    } else {
        seq![frame_bytes(b)]
    }
}

/// The frames a sequence of blocks yields at an exchange boundary: one per
/// block, in order, except that empty blocks yield none.
pub open spec fn frames_of_blocks(s: Seq<ColumnarBlock>) -> Seq<Seq<u8>>
    decreases s.len(),
{
    if s.len() == 0 {
        Seq::empty()
    } else {
        block_frames(s[0]) + frames_of_blocks(s.drop_first())
    }
}

/// The value eight little-endian bytes stand for.
pub open spec fn le_val(s: Seq<u8>) -> u64
    recommends
        s.len() == 8,
{
    (s[0] as u64) | ((s[1] as u64) << 8u64) | ((s[2] as u64) << 16u64) | ((s[3] as u64) << 24u64)
        | ((s[4] as u64) << 32u64) | ((s[5] as u64) << 40u64) | ((s[6] as u64) << 48u64) | ((
    s[7] as u64) << 56u64)
}

/// Reading the eight bytes of a value back gives the value.
pub proof fn lemma_le_round_trip(n: u64)
    ensures
        le_val(u64_le(n)) == n,
{
    let s = u64_le(n);
    assert(s[0] == (((n >> 0u64) & 0xff) as u8));
    assert(s[1] == (((n >> 8u64) & 0xff) as u8));
    assert(s[2] == (((n >> 16u64) & 0xff) as u8));
    assert(s[3] == (((n >> 24u64) & 0xff) as u8));
    assert(s[4] == (((n >> 32u64) & 0xff) as u8));
    assert(s[5] == (((n >> 40u64) & 0xff) as u8));
    assert(s[6] == (((n >> 48u64) & 0xff) as u8));
    assert(s[7] == (((n >> 56u64) & 0xff) as u8));
    assert(((((n >> 0u64) & 0xff) as u8) as u64) | (((((n >> 8u64) & 0xff) as u8) as u64) << 8u64)
        | (((((n >> 16u64) & 0xff) as u8) as u64) << 16u64) | (((((n >> 24u64) & 0xff) as u8)
        as u64) << 24u64) | (((((n >> 32u64) & 0xff) as u8) as u64) << 32u64) | (((((n >> 40u64)
        & 0xff) as u8) as u64) << 40u64) | (((((n >> 48u64) & 0xff) as u8) as u64) << 48u64) | ((((
    (n >> 56u64) & 0xff) as u8) as u64) << 56u64) == n) by (bit_vector);
}

/// Encoding the value eight bytes stand for gives the bytes back.
pub proof fn lemma_le_inverse(s: Seq<u8>)
    requires
        s.len() == 8,
    ensures
        u64_le(le_val(s)) == s,
{
    let n = le_val(s);
    let b0 = s[0];
    let b1 = s[1];
    let b2 = s[2];
    let b3 = s[3];
    let b4 = s[4];
    let b5 = s[5];
    let b6 = s[6];
    let b7 = s[7];
    assert({
        let m = (b0 as u64) | ((b1 as u64) << 8u64) | ((b2 as u64) << 16u64) | ((b3 as u64)
            << 24u64) | ((b4 as u64) << 32u64) | ((b5 as u64) << 40u64) | ((b6 as u64) << 48u64) | (
        (b7 as u64) << 56u64);
        (((m >> 0u64) & 0xff) as u8) == b0 && (((m >> 8u64) & 0xff) as u8) == b1 && (((m >> 16u64)
            & 0xff) as u8) == b2 && (((m >> 24u64) & 0xff) as u8) == b3 && (((m >> 32u64) & 0xff)
            as u8) == b4 && (((m >> 40u64) & 0xff) as u8) == b5 && (((m >> 48u64) & 0xff) as u8)
            == b6 && (((m >> 56u64) & 0xff) as u8) == b7
    }) by (bit_vector);
    assert(u64_le(n) =~= s);
}

/// Appending a value to a column appends its encoding to the column bytes.
pub proof fn lemma_col_bytes_push(col: Seq<i64>, v: i64)
    ensures
        col_bytes(col.push(v)) == col_bytes(col) + i64_le(v),
    decreases col.len(),
{
    if col.len() == 0 {
        assert(col.push(v).drop_first() =~= Seq::<i64>::empty());
        assert(col_bytes(Seq::<i64>::empty()) == Seq::<u8>::empty());
        assert(col.push(v)[0] == v);
        assert(col_bytes(col.push(v)) =~= col_bytes(col) + i64_le(v));
    } else {
        assert(col.push(v).drop_first() =~= col.drop_first().push(v));
        lemma_col_bytes_push(col.drop_first(), v);
        assert(col_bytes(col.push(v)) =~= col_bytes(col) + i64_le(v));
    }
}

/// Appending a column appends its bytes to the bytes of the columns so far.
pub proof fn lemma_cols_bytes_push(cols: Seq<Seq<i64>>, col: Seq<i64>)
    ensures
        cols_bytes(cols.push(col)) == cols_bytes(cols) + col_bytes(col),
    decreases cols.len(),
{
    if cols.len() == 0 {
        assert(cols.push(col).drop_first() =~= Seq::<Seq<i64>>::empty());
        assert(cols_bytes(Seq::<Seq<i64>>::empty()) == Seq::<u8>::empty());
        assert(cols.push(col)[0] == col);
        assert(cols_bytes(cols.push(col)) =~= cols_bytes(cols) + col_bytes(col));
    } else {
        assert(cols.push(col).drop_first() =~= cols.drop_first().push(col));
        lemma_cols_bytes_push(cols.drop_first(), col);
        assert(cols_bytes(cols.push(col)) =~= cols_bytes(cols) + col_bytes(col));
    }
}

/// Appends the eight little-endian bytes of `n`.
fn push_u64_le(out: &mut Vec<u8>, n: u64)
    ensures
        final (out)@ == old(out)@ + u64_le(n),
{
    out.push(((n >> 0u64) & 0xff) as u8);
    out.push(((n >> 8u64) & 0xff) as u8);
    out.push(((n >> 16u64) & 0xff) as u8);
    out.push(((n >> 24u64) & 0xff) as u8);
    out.push(((n >> 32u64) & 0xff) as u8);
    out.push(((n >> 40u64) & 0xff) as u8);
    out.push(((n >> 48u64) & 0xff) as u8);
    out.push(((n >> 56u64) & 0xff) as u8);
    proof {
        assert(out@ =~= old(out)@ + u64_le(n));
    }
}

/// Serializes a block into its wire frame.
pub fn serialize_block(b: &ColumnarBlock) -> (frame: Vec<u8>)
    requires
        b.wf(),
    ensures
        frame@ == frame_bytes(*b),
{
    let ghost header = u64_le(b.cols().len() as u64) + u64_le(b.rows() as u64);
    let mut out: Vec<u8> = Vec::new();
    push_u64_le(&mut out, b.num_columns() as u64);
    push_u64_le(&mut out, b.num_rows() as u64);
    proof {
        assert(out@ =~= header + cols_bytes(b.cols().subrange(0, 0)));
    }
    let nc = b.num_columns();
    let nr = b.num_rows();
    let mut c: usize = 0;
    while c < nc
        invariant
            b.wf(),
            header == u64_le(b.cols().len() as u64) + u64_le(b.rows() as u64),
            nc == b.cols().len(),
            nr == b.rows(),
            c <= nc,
            out@ == header + cols_bytes(b.cols().subrange(0, c as int)),
        decreases nc - c,
    {
        let ghost col = b.cols()[c as int];
        let mut r: usize = 0;
        while r < nr
            invariant
                b.wf(),
                nc == b.cols().len(),
                nr == b.rows(),
                c < nc,
                r <= nr,
                col == b.cols()[c as int],
                out@ == header + cols_bytes(b.cols().subrange(0, c as int)) + col_bytes(
                    col.subrange(0, r as int),
                ),
            decreases nr - r,
        {
            let v = b.value_at(c, r);
            push_u64_le(&mut out, v as u64);
            proof {
                assert(col.subrange(0, r as int + 1) =~= col.subrange(0, r as int).push(
                    col[r as int],
                ));
                lemma_col_bytes_push(col.subrange(0, r as int), col[r as int]);
                assert(out@ =~= header + cols_bytes(b.cols().subrange(0, c as int)) + col_bytes(
                    col.subrange(0, r as int + 1),
                ));
            }
            r = r + 1;
        }
        proof {
            assert(col.subrange(0, nr as int) =~= col);
            assert(b.cols().subrange(0, c as int + 1) =~= b.cols().subrange(0, c as int).push(col));
            lemma_cols_bytes_push(b.cols().subrange(0, c as int), col);
            assert(out@ =~= header + cols_bytes(b.cols().subrange(0, c as int + 1)));
        }
        c = c + 1;
    }
    proof {
        assert(b.cols().subrange(0, nc as int) =~= b.cols());
    }
    out
}

/// The views of a sequence of columns.
pub open spec fn views_of(cs: Seq<Vec<i64>>) -> Seq<Seq<i64>> {
    Seq::new(cs.len(), |i: int| cs[i]@)
}

/// An unsigned value survives the cast through its signed wire form.
pub proof fn lemma_u64_cast_round_trip(x: u64)
    ensures
        ((x as i64) as u64) == x,
{
    assert(((x as i64) as u64) == x) by (bit_vector);
}

/// Whether a byte string is a well-formed wire frame: long enough for its
/// header, column and row counts that are addressable, and exactly the
/// announced number of value bytes after the header.
pub open spec fn frame_parses(s: Seq<u8>) -> bool {
    &&& s.len() >= 16
    &&& le_val(s.subrange(0, 8)) <= usize::MAX
    &&& le_val(s.subrange(8, 16)) <= usize::MAX
    &&& 16 + (le_val(s.subrange(0, 8)) as int) * (le_val(s.subrange(8, 16)) as int) * 8 == s.len()
}

/// The bytes of a column of `rows` values are eight per value.
proof fn lemma_col_bytes_len(col: Seq<i64>)
    ensures
        col_bytes(col).len() == col.len() * 8,
    decreases col.len(),
{
    if col.len() > 0 {
        lemma_col_bytes_len(col.drop_first());
    }
}

/// The bytes of columns of `rows` values each are eight per value.
proof fn lemma_cols_bytes_len(cols: Seq<Seq<i64>>, rows: int)
    requires
        forall|i: int| 0 <= i < cols.len() ==> (#[trigger] cols[i]).len() == rows,
    ensures
        cols_bytes(cols).len() == cols.len() * rows * 8,
    decreases cols.len(),
{
    if cols.len() > 0 {
        lemma_col_bytes_len(cols[0]);
        lemma_cols_bytes_len(cols.drop_first(), rows);
        assert(cols_bytes(cols).len() == rows * 8 + (cols.len() - 1) * rows * 8);
        assert(rows * 8 + (cols.len() - 1) * rows * 8 == cols.len() * rows * 8)
            by (nonlinear_arith);
    }
}

/// Round trip, encoding side: the wire frame of a well-formed block is a
/// well-formed frame, so `materialize_frame` accepts it and yields a block
/// with the same frame.
pub proof fn lemma_frame_round_trip(b: ColumnarBlock)
    requires
        b.wf(),
    ensures
        frame_parses(frame_bytes(b)),
{
    let s = frame_bytes(b);
    let nc = b.cols().len() as int;
    let nr = b.rows() as int;
    lemma_cols_bytes_len(b.cols(), nr);
    assert(s.subrange(0, 8) =~= u64_le(b.cols().len() as u64));
    assert(s.subrange(8, 16) =~= u64_le(b.rows() as u64));
    lemma_le_round_trip(b.cols().len() as u64);
    lemma_le_round_trip(b.rows() as u64);
}

/// Reads the eight little-endian bytes at `off`.
fn read_u64_le(bytes: &Vec<u8>, off: usize) -> (r: u64)
    requires
        off + 8 <= bytes@.len(),
    ensures
        r == le_val(bytes@.subrange(off as int, off as int + 8)),
{
    let n = bytes.len();
    assert(off + 8 <= n);
    let r = (bytes[off] as u64) | ((bytes[off + 1] as u64) << 8u64) | ((bytes[off + 2] as u64)
        << 16u64) | ((bytes[off + 3] as u64) << 24u64) | ((bytes[off + 4] as u64) << 32u64) | ((
    bytes[off + 5] as u64) << 40u64) | ((bytes[off + 6] as u64) << 48u64) | ((bytes[off + 7] as u64)
        << 56u64);
    proof {
        let s = bytes@.subrange(off as int, off as int + 8);
        assert(s[0] == bytes@[off as int] && s[1] == bytes@[off as int + 1] && s[2] == bytes@[off
            as int + 2] && s[3] == bytes@[off as int + 3] && s[4] == bytes@[off as int + 4] && s[5]
            == bytes@[off as int + 5] && s[6] == bytes@[off as int + 6] && s[7] == bytes@[off as int
            + 7]);
    }
    r
}

/// Materializes a wire frame back into a block, the exchange source's half
/// of the boundary. Succeeds exactly on well-formed frames; the block
/// handed back serializes to the same bytes.
#[verifier::rlimit(60)]
pub fn materialize_frame(bytes: &Vec<u8>) -> (r: Result<ColumnarBlock, ErrorCode>)
    ensures
        r is Ok <==> frame_parses(bytes@),
        r is Err ==> r == Err::<ColumnarBlock, ErrorCode>(ErrorCode::MalformedFrame),
        r is Ok ==> {
            let b = r->Ok_0;
            &&& b.wf()
            &&& !b.spec_dict_encoded()
            &&& frame_bytes(b) == bytes@
            &&& b.cols().len() == le_val(bytes@.subrange(0, 8))
            &&& b.rows() == le_val(bytes@.subrange(8, 16))
        },
{
    let len = bytes.len();
    if len < 16 {
        return Err(ErrorCode::MalformedFrame);
    }
    let ncols_u64 = read_u64_le(bytes, 0);
    let nrows_u64 = read_u64_le(bytes, 8);
    if ncols_u64 > (usize::MAX as u64) || nrows_u64 > (usize::MAX as u64) {
        return Err(ErrorCode::MalformedFrame);
    }
    let nc = ncols_u64 as usize;
    let nr = nrows_u64 as usize;
    proof {
        assert((nc as int) * (nr as int) <= 0xffffffffffffffff * 0xffffffffffffffff)
            by (nonlinear_arith)
            requires
                0 <= (nc as int) <= 0xffffffffffffffff,
                0 <= (nr as int) <= 0xffffffffffffffff,
        ;
    }
    let cells: u128 = (nc as u128) * (nr as u128);
    if cells > (len as u128) {
        proof {
            assert((nc as int) * (nr as int) * 8 >= (nc as int) * (nr as int)) by (nonlinear_arith)
                requires
                    (nc as int) >= 0,
                    (nr as int) >= 0,
            ;
        }
        return Err(ErrorCode::MalformedFrame);
    }
    if cells * 8 + 16 != (len as u128) {
        return Err(ErrorCode::MalformedFrame);
    }
    let ghost stride = 8 * (nr as int);
    proof {
        assert((nc as int) * (nr as int) * 8 == (nc as int) * (8 * (nr as int)))
            by (nonlinear_arith);
    }
    let mut columns: Vec<Vec<i64>> = Vec::new();
    let mut off: usize = 16;
    let mut c: usize = 0;
    while c < nc
        invariant
            stride == 8 * (nr as int),
            len == bytes@.len(),
            16 + (nc as int) * stride == len,
            c <= nc,
            columns@.len() == c,
            off as int == 16 + (c as int) * stride,
            off <= len,
            forall|i: int| 0 <= i < c ==> (#[trigger] columns@[i]@).len() == nr,
            bytes@.subrange(16, off as int) == cols_bytes(views_of(columns@)),
        decreases nc - c,
    {
        proof {
            assert(16 + (c as int) * stride + stride <= 16 + (nc as int) * stride)
                by (nonlinear_arith)
                requires
                    (c as int) < (nc as int),
                    stride >= 0,
            ;
        }
        let ghost pre_views = views_of(columns@);
        let ghost col_start = off as int;
        let mut col: Vec<i64> = Vec::new();
        let mut rr: usize = 0;
        while rr < nr
            invariant
                stride == 8 * (nr as int),
                len == bytes@.len(),
                rr <= nr,
                col@.len() == rr,
                off as int == col_start + 8 * (rr as int),
                col_start + stride <= len,
                col_start >= 16,
                bytes@.subrange(col_start, off as int) == col_bytes(col@),
            decreases nr - rr,
        {
            let v_u = read_u64_le(bytes, off);
            let v: i64 = (#[verifier::truncate] (v_u as i64));
            let ghost pre_col = col@;
            col.push(v);
            proof {
                lemma_u64_cast_round_trip(v_u);
                lemma_le_inverse(bytes@.subrange(off as int, off as int + 8));
                lemma_col_bytes_push(pre_col, v);
                assert(bytes@.subrange(col_start, off as int + 8) =~= bytes@.subrange(
                    col_start,
                    off as int,
                ) + bytes@.subrange(off as int, off as int + 8));
                assert(bytes@.subrange(col_start, off as int + 8) =~= col_bytes(col@));
            }
            off = off + 8;
            rr = rr + 1;
        }
        proof {
            lemma_cols_bytes_push(pre_views, col@);
            assert(views_of(columns@.push(col)) =~= pre_views.push(col@));
            assert(bytes@.subrange(16, off as int) =~= bytes@.subrange(16, col_start)
                + bytes@.subrange(col_start, off as int));
            assert((c as int) * stride + stride == (c as int + 1) * stride) by (nonlinear_arith);
        }
        columns.push(col);
        c = c + 1;
    }
    proof {
        assert(off == len);
    }
    let block = match ColumnarBlock::new(nr, columns, false) {
        Some(b) => b,
        None => vstd::pervasive::unreached(),
    };
    proof {
        assert(block.cols() =~= views_of(columns@));
        assert(frame_bytes(block).subrange(0, 8) =~= u64_le(nc as u64));
        lemma_le_inverse(bytes@.subrange(0, 8));
        lemma_le_inverse(bytes@.subrange(8, 16));
        assert(frame_bytes(block) =~= bytes@);
    }
    Ok(block)
}

} // verus!
