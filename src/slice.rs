use crate::digest::md5_hex_of;
use crate::error::YunPanError;
use vstd::arithmetic::div_mod::{
    lemma_div_is_ordered_by_denominator, lemma_fundamental_div_mod, lemma_mod_pos_bound,
};
use vstd::arithmetic::mul::lemma_mul_inequality;
use vstd::prelude::*;
use vstd::slice::slice_subrange;

verus! {

/// Files of at most this many bytes (4 MiB) are never split.
pub const SPLIT_THRESHOLD: u64 = 4194304;

/// Smallest nominal slice size (4 MiB) the remote protocol accepts.
pub const MIN_SLICE_SIZE: u64 = 4194304;

/// Distance between the starts of two consecutive slices: the whole file
/// when it is not split, the nominal size otherwise.
pub open spec fn stride(total: int, nominal: int) -> int {
    if total <= SPLIT_THRESHOLD {
        total
    } else {
        nominal
    }
}

/// `ceil(a / b)` for `a >= 0`, `b > 0`.
pub open spec fn ceil_div(a: int, b: int) -> int {
    if a % b == 0 {
        a / b
    } else {
        a / b + 1
    }
}

/// Number of slices in the plan of a file of `total` bytes.
pub open spec fn slice_count(total: int, nominal: int) -> int {
    if total <= SPLIT_THRESHOLD {
        1
    } else {
        ceil_div(total, nominal)
    }
}

/// First byte of slice `seq`.
pub open spec fn slice_offset(total: int, nominal: int, seq: int) -> int {
    seq * stride(total, nominal)
}

/// Length of slice `seq`: the stride, except for a shorter last slice.
pub open spec fn slice_len(total: int, nominal: int, seq: int) -> int {
    let s = stride(total, nominal);
    if (seq + 1) * s <= total {
        s
    } else {
        total - seq * s
    }
}

/// The inputs for which a plan exists: small files always, larger ones
/// only with a nominal size the protocol accepts.
pub open spec fn plan_accepted(total: int, nominal: int) -> bool {
    total <= SPLIT_THRESHOLD || nominal >= MIN_SLICE_SIZE
}

/// One slice of a source file. Its offset is not stored: it is always
/// `seq * slice_size`.
#[derive(Debug)]
pub struct SliceFileInfo {
    /// The file the bytes are read from.
    pub file_path: String,
    /// Bytes in this slice.
    pub size: u64,
    /// Stride of the plan this slice belongs to.
    pub slice_size: u64,
    /// Position of the slice in upload and block-list order.
    pub seq: u64,
    /// Lower-case hex digest of the slice's bytes; empty until computed.
    pub md5: String,
}

/// `s` is slice `i` of the plan of a `total`-byte file at `path`.
pub open spec fn slice_matches(s: SliceFileInfo, path: Seq<char>, total: int, nominal: int, i: int) -> bool {
    &&& s.seq == i
    &&& s.slice_size == stride(total, nominal)
    &&& s.size == slice_len(total, nominal, i)
    &&& s.file_path@ == path
}

/// `v` is the whole plan, in sequence order.
pub open spec fn plan_matches(v: Seq<SliceFileInfo>, path: Seq<char>, total: int, nominal: int) -> bool {
    &&& v.len() == slice_count(total, nominal)
    &&& forall|i: int| 0 <= i < v.len() ==> #[trigger] slice_matches(v[i], path, total, nominal, i)
}

/// Two slices agree on every field.
pub open spec fn same_slice(a: SliceFileInfo, b: SliceFileInfo) -> bool {
    &&& a.file_path@ == b.file_path@
    &&& a.md5@ == b.md5@
    &&& a.size == b.size
    &&& a.slice_size == b.slice_size
    &&& a.seq == b.seq
}

/// Each slice of `v` carries the digest of its bytes of `file`.
pub open spec fn digests_match(v: Seq<SliceFileInfo>, file: Seq<u8>, nominal: int) -> bool {
    forall|i: int|
        0 <= i < v.len() ==> (#[trigger] v[i]).md5@ == md5_hex_of(slice_bytes(file, nominal, i))
}

/// Sum of the lengths of the first `k` slices.
pub open spec fn lens_sum(total: int, nominal: int, k: nat) -> int
    decreases k,
{
    if k == 0 {
        0
    } else {
        lens_sum(total, nominal, (k - 1) as nat) + slice_len(total, nominal, k - 1)
    }
}

/// The bytes of slice `i` of `file`.
pub open spec fn slice_bytes(file: Seq<u8>, nominal: int, i: int) -> Seq<u8> {
    let off = slice_offset(file.len() as int, nominal, i);
    file.subrange(off, off + slice_len(file.len() as int, nominal, i))
}

/// The bytes of the first `k` slices of `file`, joined in sequence order.
pub open spec fn joined_slices(file: Seq<u8>, nominal: int, k: nat) -> Seq<u8>
    decreases k,
{
    if k == 0 {
        Seq::empty()
    } else {
        joined_slices(file, nominal, (k - 1) as nat) + slice_bytes(file, nominal, k - 1)
    }
}

proof fn lemma_ceil_bounds(total: int, n: int)
    requires
        total >= 0,
        n > 0,
    ensures
        (ceil_div(total, n) - 1) * n < total || total == 0,
        ceil_div(total, n) * n >= total,
        ceil_div(total, n) >= 0,
        total > 0 ==> ceil_div(total, n) >= 1,
{
    lemma_fundamental_div_mod(total, n);
    lemma_mod_pos_bound(total, n);
    let q = total / n;
    let r = total % n;
    assert(total == n * q + r);
    assert(q >= 0) by (nonlinear_arith)
        requires
            total == n * q + r,
            0 <= r < n,
            total >= 0,
    ;
    if r == 0 {
        assert(q * n == total) by (nonlinear_arith)
            requires
                total == n * q + r,
                r == 0,
        ;
        assert((q - 1) * n == total - n) by (nonlinear_arith)
            requires
                q * n == total,
        ;
        assert(total > 0 ==> q >= 1) by (nonlinear_arith)
            requires
                q * n == total,
                n > 0,
        ;
    } else {
        assert((q + 1) * n == total - r + n) by (nonlinear_arith)
            requires
                total == n * q + r,
        ;
        assert(q * n == total - r) by (nonlinear_arith)
            requires
                total == n * q + r,
        ;
    }
}

/// Every slice but the last is a full stride; the last one ends at `total`.
proof fn lemma_slice_shape(total: int, nominal: int, i: int)
    requires
        total >= 0,
        plan_accepted(total, nominal),
        0 <= i < slice_count(total, nominal),
    ensures
        slice_offset(total, nominal, i) <= total,
        slice_offset(total, nominal, i) + slice_len(total, nominal, i) <= total,
        slice_len(total, nominal, i) >= 0,
        i + 1 < slice_count(total, nominal) ==> slice_len(total, nominal, i) == stride(total, nominal),
        i + 1 < slice_count(total, nominal) ==> slice_offset(total, nominal, i) + slice_len(
            total,
            nominal,
            i,
        ) == slice_offset(total, nominal, i + 1),
        i + 1 == slice_count(total, nominal) ==> slice_offset(total, nominal, i) + slice_len(
            total,
            nominal,
            i,
        ) == total,
        total > 0 ==> slice_len(total, nominal, i) > 0,
{
    let s = stride(total, nominal);
    if total <= SPLIT_THRESHOLD {
        assert(i == 0);
        assert((i + 1) * s == total);
        assert(i * s == 0);
    } else {
        let c = ceil_div(total, nominal);
        lemma_ceil_bounds(total, nominal);
        assert(i * s + s == (i + 1) * s) by (nonlinear_arith);
        if i + 1 < c {
            lemma_mul_inequality(i + 2, c, s);
            assert((i + 2) * s == (i + 1) * s + s) by (nonlinear_arith);
            assert((i + 1) * s <= (c - 1) * s) by {
                lemma_mul_inequality(i + 1, c - 1, s);
            }
        } else {
            assert(i == c - 1);
            assert(c * s == (i + 1) * s);
        }
        lemma_mul_inequality(i, c - 1, s);
    }
}

/// The slices of an accepted plan partition `[0, total)`: slice `0` starts
/// at `0`, each following slice starts where the one before it ends, the last
/// one ends at `total`, no slice of a non-empty file is empty, and the lengths
/// sum to `total`.
pub proof fn lemma_plan_partitions(total: int, nominal: int)
    requires
        total >= 0,
        nominal >= MIN_SLICE_SIZE,
    ensures
        slice_count(total, nominal) >= 1,
        slice_offset(total, nominal, 0) == 0,
        forall|i: int|
            0 <= i < slice_count(total, nominal) - 1 ==> #[trigger] slice_offset(total, nominal, i)
                + slice_len(total, nominal, i) == slice_offset(total, nominal, i + 1),
        slice_offset(total, nominal, slice_count(total, nominal) - 1) + slice_len(
            total,
            nominal,
            slice_count(total, nominal) - 1,
        ) == total,
        forall|i: int|
            0 <= i < slice_count(total, nominal) && total > 0 ==> #[trigger] slice_len(
                total,
                nominal,
                i,
            ) > 0,
        lens_sum(total, nominal, slice_count(total, nominal) as nat) == total,
{
    lemma_partition_general(total, nominal);
}

proof fn lemma_partition_general(total: int, nominal: int)
    requires
        total >= 0,
        plan_accepted(total, nominal),
        total > SPLIT_THRESHOLD ==> nominal > 0,
    ensures
        slice_count(total, nominal) >= 1,
        slice_offset(total, nominal, 0) == 0,
        forall|i: int|
            0 <= i < slice_count(total, nominal) - 1 ==> #[trigger] slice_offset(total, nominal, i)
                + slice_len(total, nominal, i) == slice_offset(total, nominal, i + 1),
        slice_offset(total, nominal, slice_count(total, nominal) - 1) + slice_len(
            total,
            nominal,
            slice_count(total, nominal) - 1,
        ) == total,
        forall|i: int|
            0 <= i < slice_count(total, nominal) && total > 0 ==> #[trigger] slice_len(
                total,
                nominal,
                i,
            ) > 0,
        lens_sum(total, nominal, slice_count(total, nominal) as nat) == total,
{
    let c = slice_count(total, nominal);
    if total > SPLIT_THRESHOLD {
        lemma_ceil_bounds(total, nominal);
    }
    assert(slice_offset(total, nominal, 0) == 0);
    assert forall|i: int| 0 <= i < c - 1 implies #[trigger] slice_offset(total, nominal, i)
        + slice_len(total, nominal, i) == slice_offset(total, nominal, i + 1) by {
        lemma_slice_shape(total, nominal, i);
    }
    assert forall|i: int| 0 <= i < c && total > 0 implies #[trigger] slice_len(
        total,
        nominal,
        i,
    ) > 0 by {
        lemma_slice_shape(total, nominal, i);
    }
    lemma_slice_shape(total, nominal, c - 1);
    lemma_lens_prefix(total, nominal, c as nat);
}

/// The first `k` lengths sum to the start of slice `k` (or to `total` at the end).
proof fn lemma_lens_prefix(total: int, nominal: int, k: nat)
    requires
        total >= 0,
        plan_accepted(total, nominal),
        total > SPLIT_THRESHOLD ==> nominal > 0,
        1 <= k <= slice_count(total, nominal),
    ensures
        lens_sum(total, nominal, k) == slice_offset(total, nominal, k - 1) + slice_len(
            total,
            nominal,
            k - 1,
        ),
    decreases k,
{
    lemma_slice_shape(total, nominal, k - 1);
    if k > 1 {
        lemma_lens_prefix(total, nominal, (k - 1) as nat);
        lemma_slice_shape(total, nominal, k - 2);
    } else {
        assert(lens_sum(total, nominal, 0) == 0);
        assert((k - 1) * stride(total, nominal) == 0) by (nonlinear_arith)
            requires
                k == 1,
        ;
    }
}

/// The slices of a file, joined in sequence order, are the file itself; so a
/// digest of the whole file equals the digest of the joined slice bytes.
pub proof fn lemma_slices_rebuild_file(file: Seq<u8>, nominal: int)
    requires
        plan_accepted(file.len() as int, nominal),
        file.len() > SPLIT_THRESHOLD ==> nominal > 0,
    ensures
        joined_slices(file, nominal, slice_count(file.len() as int, nominal) as nat) == file,
        md5_hex_of(joined_slices(file, nominal, slice_count(file.len() as int, nominal) as nat))
            == md5_hex_of(file),
{
    let total = file.len() as int;
    lemma_partition_general(total, nominal);
    let c = slice_count(total, nominal);
    lemma_joined_prefix(file, nominal, c as nat);
    assert(file.subrange(0, total) =~= file);
}

proof fn lemma_joined_prefix(file: Seq<u8>, nominal: int, k: nat)
    requires
        plan_accepted(file.len() as int, nominal),
        file.len() > SPLIT_THRESHOLD ==> nominal > 0,
        1 <= k <= slice_count(file.len() as int, nominal),
    ensures
        joined_slices(file, nominal, k) == file.subrange(
            0,
            slice_offset(file.len() as int, nominal, k - 1) + slice_len(
                file.len() as int,
                nominal,
                k - 1,
            ),
        ),
    decreases k,
{
    let total = file.len() as int;
    lemma_slice_shape(total, nominal, k - 1);
    let off = slice_offset(total, nominal, k - 1);
    let end = off + slice_len(total, nominal, k - 1);
    if k > 1 {
        lemma_joined_prefix(file, nominal, (k - 1) as nat);
        lemma_slice_shape(total, nominal, k - 2);
        assert(joined_slices(file, nominal, k) == joined_slices(file, nominal, (k - 1) as nat)
            + slice_bytes(file, nominal, k - 1));
        assert(slice_bytes(file, nominal, k - 1) == file.subrange(off, end));
        assert(off == slice_offset(total, nominal, k - 2) + slice_len(total, nominal, k - 2));
        assert(file.subrange(0, off) + file.subrange(off, end) =~= file.subrange(0, end));
    } else {
        assert((k - 1) * stride(total, nominal) == 0) by (nonlinear_arith)
            requires
                k == 1,
        ;
        assert(off == 0);
        assert(joined_slices(file, nominal, 0) == Seq::<u8>::empty());
        assert(joined_slices(file, nominal, k) == joined_slices(file, nominal, 0) + slice_bytes(
            file,
            nominal,
            0,
        ));
        assert(Seq::<u8>::empty() + file.subrange(0, end) =~= file.subrange(0, end));
    }
}

/// Planning and digesting the same file twice with the same nominal size
/// gives the same slices, field for field, and so the same digest sequence.
pub proof fn lemma_plan_deterministic(
    a: Seq<SliceFileInfo>,
    b: Seq<SliceFileInfo>,
    path: Seq<char>,
    file: Seq<u8>,
    nominal: int,
)
    requires
        plan_matches(a, path, file.len() as int, nominal),
        plan_matches(b, path, file.len() as int, nominal),
        digests_match(a, file, nominal),
        digests_match(b, file, nominal),
    ensures
        a.len() == b.len(),
        forall|i: int| 0 <= i < a.len() ==> #[trigger] same_slice(a[i], b[i]),
{
    assert forall|i: int| 0 <= i < a.len() implies #[trigger] same_slice(a[i], b[i]) by {
        assert(slice_matches(a[i], path, file.len() as int, nominal, i));
        assert(slice_matches(b[i], path, file.len() as int, nominal, i));
    }
}

/// Cuts a `total_file_size`-byte file into its slice plan. A file of at most
/// 4 MiB is one slice, whatever `slice_size` is; a larger one is cut into
/// `slice_size` strides and needs `slice_size >= 4 MiB`. Digests are left
/// empty.
pub fn split_file2(file_path: &str, total_file_size: u64, slice_size: u64) -> (r: Result<
    Vec<SliceFileInfo>,
    YunPanError,
>)
    ensures
        r is Ok <==> plan_accepted(total_file_size as int, slice_size as int),
        r is Err ==> r->Err_0 == (YunPanError::Configuration { slice_size }),
        r is Ok ==> plan_matches(r->Ok_0@, file_path@, total_file_size as int, slice_size as int),
        r is Ok ==> forall|i: int| 0 <= i < r->Ok_0@.len() ==> (#[trigger] r->Ok_0@[i]).md5@.len()
            == 0,
        total_file_size <= SPLIT_THRESHOLD ==> r is Ok && r->Ok_0@.len() == 1
            && r->Ok_0@[0].size == total_file_size,
{
    let total = total_file_size;
    if total > SPLIT_THRESHOLD && slice_size < MIN_SLICE_SIZE {
        return Err(YunPanError::Configuration { slice_size });
    }
    let step: u64 = if total <= SPLIT_THRESHOLD {
        total
    } else {
        slice_size
    };
    let count: u64 = if total <= SPLIT_THRESHOLD {
        1
    } else if total % slice_size == 0 {
        total / slice_size
    } else {
        proof {
            lemma_div_is_ordered_by_denominator(total as int, 2, slice_size as int);
        }
        total / slice_size + 1
    };
    proof {
        lemma_partition_general(total as int, slice_size as int);
    }
    let mut v: Vec<SliceFileInfo> = Vec::new();
    let mut i: u64 = 0;
    while i < count
        invariant
            i <= count,
            count == slice_count(total as int, slice_size as int),
            step == stride(total as int, slice_size as int),
            plan_accepted(total as int, slice_size as int),
            total > SPLIT_THRESHOLD ==> slice_size > 0,
            v@.len() == i,
            forall|j: int|
                0 <= j < i ==> #[trigger] slice_matches(
                    v@[j],
                    file_path@,
                    total as int,
                    slice_size as int,
                    j,
                ),
            forall|j: int| 0 <= j < i ==> (#[trigger] v@[j]).md5@.len() == 0,
        decreases count - i,
    {
        proof {
            lemma_slice_shape(total as int, slice_size as int, i as int);
        }
        let start: u64 = i * step;
        let size: u64 = if step <= total - start {
            step
        } else {
            total - start
        };
        proof {
            assert((i + 1) * step == i * step + step) by (nonlinear_arith);
        }
        v.push(
            SliceFileInfo {
                file_path: file_path.to_owned(),
                size,
                slice_size: step,
                seq: i,
                md5: String::new(),
            },
        );
        i = i + 1;
    }
    proof {
        if total <= SPLIT_THRESHOLD {
            assert(slice_matches(v@[0], file_path@, total as int, slice_size as int, 0));
            assert((0int + 1) * (total as int) == total as int) by (nonlinear_arith);
        }
    }
    Ok(v)
}

/// Largest copy buffer of physical slicing (100 KiB).
pub const COPY_BUFFER_MAX: u64 = 102400;

/// Size of the buffer that copies slices out to their own files: the slice
/// size, at most 100 KiB, so memory use does not grow with the slice size.
pub fn copy_buffer_size(chunk_size: u64) -> (r: usize)
    ensures
        r == if chunk_size < COPY_BUFFER_MAX {
            chunk_size
        } else {
            COPY_BUFFER_MAX
        },
{
    if chunk_size < COPY_BUFFER_MAX {
        chunk_size as usize
    } else {
        COPY_BUFFER_MAX as usize
    }
}

/// How many bytes the next read of a slice copy asks for, with `left` bytes
/// of the slice still to copy.
pub fn copy_step(left: u64, buffer_size: usize) -> (r: usize)
    ensures
        r == if left < buffer_size {
            left
        } else {
            buffer_size as u64
        },
{
    if left < buffer_size as u64 {
        left as usize
    } else {
        buffer_size
    }
}

/// The decimal digit `d`.
pub open spec fn digit_char(d: nat) -> char {
    if d == 0 { '0' }
    else if d == 1 { '1' }
    else if d == 2 { '2' }
    else if d == 3 { '3' }
    else if d == 4 { '4' }
    else if d == 5 { '5' }
    else if d == 6 { '6' }
    else if d == 7 { '7' }
    else if d == 8 { '8' }
    else { '9' }
}

/// Decimal text of `n`, without leading zeros.
pub open spec fn decimal_of(n: nat) -> Seq<char>
    decreases n,
{
    if n < 10 {
        seq![digit_char(n)]
    } else {
        decimal_of(n / 10) + seq![digit_char(n % 10)]
    }
}

fn digit_text(d: u64) -> (r: &'static str)
    requires
        d < 10,
    ensures
        r@ == seq![digit_char(d as nat)],
{
    proof {
        reveal_strlit("0");
        reveal_strlit("1");
        reveal_strlit("2");
        reveal_strlit("3");
        reveal_strlit("4");
        reveal_strlit("5");
        reveal_strlit("6");
        reveal_strlit("7");
        reveal_strlit("8");
        reveal_strlit("9");
    }
    if d == 0 {
        "0"
    } else if d == 1 {
        "1"
    } else if d == 2 {
        "2"
    } else if d == 3 {
        "3"
    } else if d == 4 {
        "4"
    } else if d == 5 {
        "5"
    } else if d == 6 {
        "6"
    } else if d == 7 {
        "7"
    } else if d == 8 {
        "8"
    } else {
        "9"
    }
}

/// Decimal text of `n`.
pub fn decimal(n: u64) -> (r: String)
    ensures
        r@ == decimal_of(n as nat),
    decreases n,
{
    if n < 10 {
        String::from_str(digit_text(n))
    } else {
        let mut s = decimal(n / 10);
        s.append(digit_text(n % 10));
        s
    }
}

/// Name of the temporary file holding slice `seq` of file `file_name`.
pub open spec fn part_name_of(file_name: Seq<char>, seq: nat) -> Seq<char> {
    file_name + seq!['_'] + decimal_of(seq) + seq!['.', 'p', 'a', 'r', 't']
}

/// Name of the temporary file holding slice `seq` of file `file_name`:
/// `<file_name>_<seq>.part`.
pub fn part_file_name(file_name: &str, seq: u64) -> (r: String)
    ensures
        r@ == part_name_of(file_name@, seq as nat),
{
    proof {
        reveal_strlit("_");
        reveal_strlit(".part");
    }
    let mut s = String::from_str(file_name);
    s.append("_");
    let d = decimal(seq);
    s.append(d.as_str());
    s.append(".part");
    s
}

/// Most bytes one read of a slice asks for (1 MiB).
pub const READ_CHUNK: u64 = 1048576;

/// The bytes of one slice, gathered read by read. A single read need not
/// return all it was asked for: reads go on until the slice is full or the
/// file ends.
#[derive(Debug)]
pub struct SliceRead {
    /// Slice being read, named in errors.
    pub seq: u64,
    /// Bytes in the slice.
    pub size: u64,
    /// Bytes read so far.
    pub data: Vec<u8>,
}

impl SliceRead {
    pub open spec fn wf(&self) -> bool {
        self.data@.len() <= self.size
    }

    /// How many bytes the next read should ask for: what the slice still
    /// lacks, at most one chunk.
    pub fn want(&self) -> (r: usize)
        requires
            self.wf(),
        ensures
            r as int == if self.size - self.data@.len() < READ_CHUNK {
                self.size - self.data@.len()
            } else {
                READ_CHUNK as int
            },
    {
        let left: u64 = self.size - self.data.len() as u64;
        if left < READ_CHUNK {
            left as usize
        } else {
            READ_CHUNK as usize
        }
    }

    /// Takes the bytes of one read. An empty read while bytes are missing is
    /// end of file: the slice cannot be completed. Bytes beyond the slice are
    /// dropped.
    pub fn feed(&mut self, chunk: &[u8]) -> (r: Result<(), YunPanError>)
        requires
            old(self).wf(),
        ensures
            final(self).wf(),
            final(self).seq == old(self).seq,
            final(self).size == old(self).size,
            chunk@.len() == 0 && old(self).data@.len() < old(self).size ==> r == Err::<
                (),
                YunPanError,
            >(
                YunPanError::TruncatedRead {
                    seq: old(self).seq,
                    read: old(self).data@.len() as u64,
                    expected: old(self).size,
                },
            ) && final(self).data@ == old(self).data@,
            !(chunk@.len() == 0 && old(self).data@.len() < old(self).size) ==> {
                let left = old(self).size - old(self).data@.len();
                let n = if chunk@.len() < left {
                    chunk@.len() as int
                } else {
                    left
                };
                &&& r is Ok
                &&& final(self).data@ == old(self).data@ + chunk@.subrange(0, n)
            },
    {
        let have = self.data.len() as u64;
        if chunk.len() == 0 && have < self.size {
            return Err(YunPanError::TruncatedRead { seq: self.seq, read: have, expected: self.size });
        }
        let left: u64 = self.size - have;
        let n: usize = if (chunk.len() as u64) < left {
            chunk.len()
        } else {
            left as usize
        };
        let part = slice_subrange(chunk, 0, n);
        let ghost before = self.data@;
        self.data.extend_from_slice(part);
        proof {
            assert(self.data@ =~= before + part@);
        }
        Ok(())
    }

    /// The slice's bytes once it is full; a truncated-read error naming the
    /// slice, the bytes read and the bytes expected otherwise.
    pub fn finish(self) -> (r: Result<Vec<u8>, YunPanError>)
        requires
            self.wf(),
        ensures
            self.data@.len() == self.size ==> r is Ok && r->Ok_0@ == self.data@,
            self.data@.len() < self.size ==> r == Err::<Vec<u8>, YunPanError>(
                YunPanError::TruncatedRead {
                    seq: self.seq,
                    read: self.data@.len() as u64,
                    expected: self.size,
                },
            ),
    {
        let have = self.data.len() as u64;
        if have < self.size {
            return Err(YunPanError::TruncatedRead { seq: self.seq, read: have, expected: self.size });
        }
        Ok(self.data)
    }
}

impl SliceFileInfo {
    /// Offset of the slice's first byte in the source file.
    pub fn offset(&self) -> (r: u64)
        requires
            self.seq * self.slice_size <= u64::MAX,
        ensures
            r == self.seq * self.slice_size,
    {
        self.seq * self.slice_size
    }

    /// Starts reading the slice's bytes: nothing read yet.
    pub fn read(&self) -> (r: SliceRead)
        ensures
            r.wf(),
            r.seq == self.seq,
            r.size == self.size,
            r.data@ == Seq::<u8>::empty(),
    {
        SliceRead { seq: self.seq, size: self.size, data: Vec::new() }
    }

    /// A copy of the slice.
    pub fn copy(&self) -> (r: SliceFileInfo)
        ensures
            r.file_path@ == self.file_path@,
            r.md5@ == self.md5@,
            r.size == self.size,
            r.slice_size == self.slice_size,
            r.seq == self.seq,
    {
        SliceFileInfo {
            file_path: self.file_path.clone(),
            size: self.size,
            slice_size: self.slice_size,
            seq: self.seq,
            md5: self.md5.clone(),
        }
    }
}

} // verus!
