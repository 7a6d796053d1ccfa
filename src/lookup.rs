use vstd::prelude::*;

use crate::bytes::{
    be_bytes, be_value, lemma_be_bytes_len, lemma_be_bytes_value, lemma_be_value_u64,
    lemma_pow256_values, read_be,
};
use crate::header::{header_valid, Header};
use crate::qcow2::{cluster_size_of, Qcow2};

verus! {

/// Clears the two flag bits of an L1 or L2 entry, 63 ("copied") and 56: what is
/// left is a byte offset in the image.
pub const OFFSET_MASK: u64 = 0x7eff_ffff_ffff_ffff;

/// The byte offset that a table entry points to.
pub open spec fn entry_offset(e: u64) -> u64 {
    e & OFFSET_MASK
}

/// Eight-byte entries in one table (an L1 or L2 table fills one cluster).
pub open spec fn entries_per_table(h: Header) -> nat {
    cluster_size_of(h) / 8
}

pub open spec fn l1_index(h: Header, n: u64) -> nat {
    n as nat / entries_per_table(h)
}

pub open spec fn l2_index(h: Header, n: u64) -> nat {
    n as nat % entries_per_table(h)
}

/// Where the L1 entry of guest cluster `n` lies.
pub open spec fn l1_entry_pos(h: Header, n: u64) -> int {
    h.l1_table_offset + l1_index(h, n) * 8
}

/// Where the L2 entry of guest cluster `n` lies, in the table that the L1
/// entry `e1` points to.
pub open spec fn l2_entry_pos(h: Header, n: u64, e1: u64) -> int {
    entry_offset(e1) + l2_index(h, n) * 8
}

/// The big-endian table entry at `pos` of the image.
pub open spec fn table_entry(img: Seq<u8>, pos: int) -> u64 {
    be_value(img, pos, 8) as u64
}

/// A cluster of zero bytes: what an unallocated cluster reads as.
pub open spec fn zero_cluster(h: Header) -> Seq<u8> {
    Seq::new(cluster_size_of(h), |i: int| 0u8)
}

/// The bytes of a data cluster at `d`, cut short where the image ends.
pub open spec fn data_cluster(h: Header, img: Seq<u8>, d: int) -> Seq<u8> {
    let len = img.len() as int;
    let start = if d < len {
        d
    } else {
        len
    };
    let end = if d + cluster_size_of(h) < len {
        d + cluster_size_of(h)
    } else {
        len
    };
    img.subrange(start, end)
}

/// Why a guest cluster could not be read.
#[derive(Debug, Copy, Clone, PartialEq, Eq, Structural)]
pub enum LookupError {
    /// The cluster lies past the end of the L1 table.
    ClusterOutOfRange,
    /// The image ends before a table entry that the lookup needs.
    Truncated,
}

/// What reading guest cluster `n` of the image `img` with header `h` gives.
pub open spec fn read_cluster_spec(h: Header, img: Seq<u8>, n: u64) -> Result<
    Seq<u8>,
    LookupError,
> {
    if l1_index(h, n) >= h.l1_size {
        Err(LookupError::ClusterOutOfRange)
    } else if l1_entry_pos(h, n) + 8 > img.len() {
        Err(LookupError::Truncated)
    } else {
        let e1 = table_entry(img, l1_entry_pos(h, n));
        if e1 == 0 {
            Ok(zero_cluster(h))
        } else if l2_entry_pos(h, n, e1) + 8 > img.len() {
            Err(LookupError::Truncated)
        } else {
            let e2 = table_entry(img, l2_entry_pos(h, n, e1));
            if e2 == 0 {
                Ok(zero_cluster(h))
            } else {
                Ok(data_cluster(h, img, entry_offset(e2) as int))
            }
        }
    }
}

/// The nonzero entries among the first `k` of an L1 table, each with its index.
pub open spec fn l1_entries_upto(table: Seq<u8>, k: nat) -> Seq<(usize, u64)>
    decreases k,
{
    if k == 0 {
        Seq::empty()
    } else {
        let prev = l1_entries_upto(table, (k - 1) as nat);
        let e = table_entry(table, (k - 1) * 8);
        if e != 0 {
            prev.push(((k - 1) as usize, e))
        } else {
            prev
        }
    }
}

/// Entries of an L1 table held in `len` bytes, for an image with header `h`:
/// no more than `l1_size`.
pub open spec fn l1_entry_count(h: Header, len: nat) -> nat {
    if h.l1_size < len / 8 {
        h.l1_size as nat
    } else {
        len / 8
    }
}

/// A masked entry is below `2^63`.
proof fn lemma_entry_offset_bound(e: u64)
    ensures
        entry_offset(e) < 0x8000_0000_0000_0000,
{
    assert(e & 0x7eff_ffff_ffff_ffffu64 < 0x8000_0000_0000_0000u64) by (bit_vector);
}

impl Qcow2 {
    /// Entries in one table: the cluster size over eight.
    pub fn entries_per_table(&self) -> (r: u64)
        ensures
            r == entries_per_table(self@),
            64 <= r <= 0x1000_0000,
    {
        (self.cluster_size() / 8) as u64
    }

    /// First step of reading guest cluster `n`: where its L1 entry lies.
    pub fn l1_entry_position(&self, n: u64) -> (r: Result<u64, LookupError>)
        ensures
            l1_index(self@, n) >= self@.l1_size ==> r == Err::<u64, LookupError>(
                LookupError::ClusterOutOfRange,
            ),
            l1_index(self@, n) < self@.l1_size && l1_entry_pos(self@, n) <= u64::MAX ==> r == Ok::<
                u64,
                LookupError,
            >(l1_entry_pos(self@, n) as u64),
            l1_index(self@, n) < self@.l1_size && l1_entry_pos(self@, n) > u64::MAX ==> r == Err::<
                u64,
                LookupError,
            >(LookupError::Truncated),
    {
        let eps = self.entries_per_table();
        let idx = n / eps;
        if idx >= self.l1_size() {
            return Err(LookupError::ClusterOutOfRange);
        }
        let off = self.l1_table_offset();
        if off > u64::MAX - idx * 8 {
            Err(LookupError::Truncated)
        } else {
            Ok(off + idx * 8)
        }
    }

    /// Second step: given the L1 entry of guest cluster `n`, where its L2 entry
    /// lies; `None` when the entry is zero (no L2 table: the cluster reads as
    /// zeros).
    pub fn l2_entry_position(&self, n: u64, l1_entry: u64) -> (r: Option<u64>)
        ensures
            l1_entry == 0 ==> r is None,
            l1_entry != 0 ==> r == Some(l2_entry_pos(self@, n, l1_entry) as u64),
            l1_entry != 0 ==> l2_entry_pos(self@, n, l1_entry) <= u64::MAX,
    {
        if l1_entry == 0 {
            return None;
        }
        let eps = self.entries_per_table();
        proof {
            lemma_entry_offset_bound(l1_entry);
        }
        Some((l1_entry & OFFSET_MASK) + (n % eps) * 8)
    }

    /// Last step: given the L2 entry, where the data cluster lies; `None` when
    /// the entry is zero (an unallocated cluster reads as zeros).
    pub fn data_position(l2_entry: u64) -> (r: Option<u64>)
        ensures
            l2_entry == 0 ==> r is None,
            l2_entry != 0 ==> r == Some(entry_offset(l2_entry)),
    {
        if l2_entry == 0 {
            None
        } else {
            Some(l2_entry & OFFSET_MASK)
        }
    }

    /// The allocated entries of the L1 table held in `table` (the bytes at
    /// `l1_table_offset`), each with its index; zero entries are left out.
    pub fn get_l1_entries(&self, table: &[u8]) -> (r: Vec<(usize, u64)>)
        ensures
            r@ == l1_entries_upto(table@, l1_entry_count(self@, table@.len())),
    {
        let l1_size = self.l1_size();
        let count: usize = if l1_size < (table.len() / 8) as u64 {
            l1_size as usize
        } else {
            table.len() / 8
        };
        let len = table.len();
        let mut entries: Vec<(usize, u64)> = Vec::new();
        let mut k: usize = 0;
        while k < count
            invariant
                k <= count,
                len == table@.len(),
                count == l1_entry_count(self@, table@.len()),
                count * 8 <= table@.len(),
                entries@ == l1_entries_upto(table@, k as nat),
            decreases count - k,
        {
            let e = read_be(table, k * 8, 8);
            proof {
                lemma_be_value_u64(table@, k * 8, 8);
            }
            if e != 0 {
                entries.push((k, e));
            }
            k = k + 1;
        }
        entries
    }

    /// A cluster of zero bytes, as an unallocated cluster reads.
    pub fn zero_cluster(&self) -> (r: Vec<u8>)
        ensures
            r@ == zero_cluster(self@),
    {
        let cs = self.cluster_size();
        let mut v: Vec<u8> = Vec::with_capacity(cs);
        let mut i: usize = 0;
        while i < cs
            invariant
                i <= cs,
                cs == cluster_size_of(self@),
                v@ == Seq::new(i as nat, |j: int| 0u8),
            decreases cs - i,
        {
            v.push(0u8);
            i = i + 1;
        }
        v
    }

    /// Reads guest cluster `n` out of an image held in memory: the L1 entry,
    /// then the L2 entry, then the data, which stops short where the image
    /// ends; a zero entry on the way gives a cluster of zeros.
    pub fn read_guest_cluster(&self, image: &[u8], n: u64) -> (r: Result<Vec<u8>, LookupError>)
        ensures
            r matches Ok(v) ==> read_cluster_spec(self@, image@, n) == Ok::<
                Seq<u8>,
                LookupError,
            >(v@),
            r matches Err(e) ==> read_cluster_spec(self@, image@, n) == Err::<
                Seq<u8>,
                LookupError,
            >(e),
    {
        let len = image.len();
        let len64 = len as u64;
        let l1_pos = match self.l1_entry_position(n) {
            Ok(p) => p,
            Err(e) => return Err(e),
        };
        if l1_pos > len64 || len64 - l1_pos < 8 {
            return Err(LookupError::Truncated);
        }
        let e1 = read_be(image, l1_pos as usize, 8);
        proof {
            lemma_be_value_u64(image@, l1_pos as int, 8);
        }
        let l2_pos = match self.l2_entry_position(n, e1) {
            Some(p) => p,
            None => return Ok(self.zero_cluster()),
        };
        if l2_pos > len64 || len64 - l2_pos < 8 {
            return Err(LookupError::Truncated);
        }
        let e2 = read_be(image, l2_pos as usize, 8);
        proof {
            lemma_be_value_u64(image@, l2_pos as int, 8);
        }
        let d = match Qcow2::data_position(e2) {
            Some(d) => d,
            None => return Ok(self.zero_cluster()),
        };
        let cs = self.cluster_size();
        let start: usize = if d < len64 {
            d as usize
        } else {
            len
        };
        let end: usize = if len - start > cs {
            start + cs
        } else {
            len
        };
        let mut data: Vec<u8> = Vec::with_capacity(end - start);
        let mut i: usize = start;
        while i < end
            invariant
                start <= i <= end <= len,
                len == image@.len(),
                data@ == image@.subrange(start as int, i as int),
            decreases end - i,
        {
            data.push(image[i]);
            i = i + 1;
        }
        Ok(data)
    }
}

} // verus!

verus! {

/// Bits 63 and 56 of an entry never reach the offset that it resolves to: the
/// offset has both clear, and is the entry with just those two bits cleared.
pub proof fn lemma_flag_bits_masked(e: u64)
    ensures
        entry_offset(e) & 0x8100_0000_0000_0000 == 0,
        entry_offset(e) | (e & 0x8100_0000_0000_0000) == e,
        e & 0x8100_0000_0000_0000 == 0 ==> entry_offset(e) == e,
{
    assert(e & 0x7eff_ffff_ffff_ffffu64 & 0x8100_0000_0000_0000u64 == 0) by (bit_vector);
    assert((e & 0x7eff_ffff_ffff_ffffu64) | (e & 0x8100_0000_0000_0000u64) == e) by (bit_vector);
    assert(e & 0x8100_0000_0000_0000u64 == 0 ==> e & 0x7eff_ffff_ffff_ffffu64 == e) by (bit_vector);
}

/// The image `img` with the bytes `b` written at `at` (its length unchanged).
pub open spec fn write_bytes(img: Seq<u8>, at: int, b: Seq<u8>) -> Seq<u8> {
    Seq::new(img.len(), |i: int| if at <= i < at + b.len() { b[i - at] } else { img[i] })
}

/// Two byte ranges `[a, a + m)` and `[b, b + n)` that do not meet.
pub open spec fn disjoint(a: int, m: int, b: int, n: int) -> bool {
    a + m <= b || b + n <= a
}

proof fn lemma_be_value_region(s: Seq<u8>, off: int, b: Seq<u8>, n: nat)
    requires
        0 <= off,
        off + n <= s.len(),
        n <= b.len(),
        forall|i: int| 0 <= i < n ==> s[off + i] == b[i],
    ensures
        be_value(s, off, n) == be_value(b, 0, n),
    decreases n,
{
    if n > 0 {
        lemma_be_value_region(s, off, b, (n - 1) as nat);
    }
}

/// The entry read at `pos` of an image where `e` was written there.
proof fn lemma_entry_written(s: Seq<u8>, pos: int, e: u64)
    requires
        0 <= pos,
        pos + 8 <= s.len(),
        forall|i: int| 0 <= i < 8 ==> s[pos + i] == be_bytes(e as nat, 8)[i],
    ensures
        table_entry(s, pos) == e,
{
    lemma_pow256_values();
    lemma_be_bytes_len(e as nat, 8);
    lemma_be_bytes_value(e as nat, 8);
    lemma_be_value_region(s, pos, be_bytes(e as nat, 8), 8);
}

/// Writing an L1 entry, the L2 entry it leads to and a data cluster into an
/// image, at places that do not overlap, and reading back the guest cluster
/// gives exactly the data written.
pub proof fn lemma_read_back_data(
    h: Header,
    img: Seq<u8>,
    n: u64,
    e1: u64,
    e2: u64,
    data: Seq<u8>,
)
    requires
        header_valid(h),
        l1_index(h, n) < h.l1_size,
        e1 != 0,
        e2 != 0,
        data.len() == cluster_size_of(h),
        l1_entry_pos(h, n) + 8 <= img.len(),
        l2_entry_pos(h, n, e1) + 8 <= img.len(),
        entry_offset(e2) + data.len() <= img.len(),
        disjoint(l1_entry_pos(h, n), 8, l2_entry_pos(h, n, e1), 8),
        disjoint(l1_entry_pos(h, n), 8, entry_offset(e2) as int, data.len() as int),
        disjoint(l2_entry_pos(h, n, e1), 8, entry_offset(e2) as int, data.len() as int),
    ensures
        read_cluster_spec(
            h,
            write_bytes(
                write_bytes(
                    write_bytes(img, l1_entry_pos(h, n), be_bytes(e1 as nat, 8)),
                    l2_entry_pos(h, n, e1),
                    be_bytes(e2 as nat, 8),
                ),
                entry_offset(e2) as int,
                data,
            ),
            n,
        ) == Ok::<Seq<u8>, LookupError>(data),
{
    let l1_pos = l1_entry_pos(h, n);
    let l2_pos = l2_entry_pos(h, n, e1);
    let d = entry_offset(e2) as int;
    lemma_be_bytes_len(e1 as nat, 8);
    lemma_be_bytes_len(e2 as nat, 8);
    let img3 = write_bytes(
        write_bytes(write_bytes(img, l1_pos, be_bytes(e1 as nat, 8)), l2_pos, be_bytes(e2 as nat, 8)),
        d,
        data,
    );
    lemma_entry_written(img3, l1_pos, e1);
    lemma_entry_written(img3, l2_pos, e2);
    assert(data_cluster(h, img3, d) =~= data);
}

/// Writing a zero L1 entry for a guest cluster makes it read as a cluster of
/// zeros, `cluster_size` bytes long.
pub proof fn lemma_read_back_zero_l1(h: Header, img: Seq<u8>, n: u64)
    requires
        header_valid(h),
        l1_index(h, n) < h.l1_size,
        l1_entry_pos(h, n) + 8 <= img.len(),
    ensures
        read_cluster_spec(h, write_bytes(img, l1_entry_pos(h, n), be_bytes(0, 8)), n) == Ok::<
            Seq<u8>,
            LookupError,
        >(zero_cluster(h)),
        zero_cluster(h).len() == cluster_size_of(h),
{
    let l1_pos = l1_entry_pos(h, n);
    lemma_be_bytes_len(0, 8);
    lemma_entry_written(write_bytes(img, l1_pos, be_bytes(0, 8)), l1_pos, 0);
}

/// Writing a nonzero L1 entry and a zero L2 entry for a guest cluster, at
/// places that do not overlap, makes it read as a cluster of zeros.
pub proof fn lemma_read_back_zero_l2(h: Header, img: Seq<u8>, n: u64, e1: u64)
    requires
        header_valid(h),
        l1_index(h, n) < h.l1_size,
        e1 != 0,
        l1_entry_pos(h, n) + 8 <= img.len(),
        l2_entry_pos(h, n, e1) + 8 <= img.len(),
        disjoint(l1_entry_pos(h, n), 8, l2_entry_pos(h, n, e1), 8),
    ensures
        read_cluster_spec(
            h,
            write_bytes(
                write_bytes(img, l1_entry_pos(h, n), be_bytes(e1 as nat, 8)),
                l2_entry_pos(h, n, e1),
                be_bytes(0, 8),
            ),
            n,
        ) == Ok::<Seq<u8>, LookupError>(zero_cluster(h)),
{
    let l1_pos = l1_entry_pos(h, n);
    let l2_pos = l2_entry_pos(h, n, e1);
    lemma_be_bytes_len(e1 as nat, 8);
    lemma_be_bytes_len(0, 8);
    let img2 = write_bytes(write_bytes(img, l1_pos, be_bytes(e1 as nat, 8)), l2_pos, be_bytes(0, 8));
    lemma_entry_written(img2, l1_pos, e1);
    lemma_entry_written(img2, l2_pos, 0);
}

} // verus!
