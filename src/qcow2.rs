use vstd::prelude::*;
use vstd::arithmetic::power2::{pow2, lemma2_to64};
use vstd::bits::lemma_u64_shl_is_mul;

use crate::bytes::{be_value, read_be, utf8_string, lemma_be_value_u64};
use crate::header::{header_valid, parse_header, parse_spec, DecodeError, Header};

verus! {

/// Bytes in a cluster of an image with header `h`.
pub open spec fn cluster_size_of(h: Header) -> nat {
    pow2(h.cluster_bits as nat)
}

proof fn lemma_pow2_le(a: nat, b: nat)
    requires
        a <= b,
    ensures
        pow2(a) <= pow2(b),
{
    if a < b {
        vstd::arithmetic::power2::lemma_pow2_strictly_increases(a, b);
    }
}

/// An open image: its decoded header, which is valid.
pub struct Qcow2 {
    header: Header,
}

impl View for Qcow2 {
    type V = Header;

    closed spec fn view(&self) -> Header {
        self.header
    }
}

impl Qcow2 {
    #[verifier::type_invariant]
    closed spec fn inv(self) -> bool {
        header_valid(self.header)
    }

    /// Opens an image from the bytes it starts with (at least the fixed header
    /// of its version); fails as the header decoding does.
    pub fn new(header: &[u8]) -> (r: Result<Qcow2, DecodeError>)
        ensures
            r matches Ok(q) ==> parse_spec(header@) == Ok::<Header, DecodeError>(q@),
            r matches Err(e) ==> parse_spec(header@) == Err::<Header, DecodeError>(e),
    {
        match parse_header(header) {
            Ok(h) => Ok(Qcow2 { header: h }),
            Err(e) => Err(e),
        }
    }

    /// The decoded header.
    pub fn header(&self) -> (r: Header)
        ensures
            r == self@,
            header_valid(r),
    {
        proof {
            use_type_invariant(self);
        }
        self.header
    }

    pub fn version(&self) -> (r: u64)
        ensures
            r == self@.version,
    {
        self.header.version as u64
    }

    /// Bytes in a cluster: `2` to the power `cluster_bits`.
    pub fn cluster_size(&self) -> (r: usize)
        ensures
            r == cluster_size_of(self@),
            512 <= r <= 0x8000_0000,
    {
        proof {
            use_type_invariant(self);
            lemma2_to64();
            lemma_pow2_le(9, self.header.cluster_bits as nat);
            lemma_pow2_le(self.header.cluster_bits as nat, 31);
            lemma_u64_shl_is_mul(1, self.header.cluster_bits as u64);
        }
        (1u64 << (self.header.cluster_bits as u64)) as usize
    }

    pub fn virtual_size(&self) -> (r: u64)
        ensures
            r == self@.size,
    {
        self.header.size
    }

    pub fn crypto_method(&self) -> (r: u64)
        ensures
            r == self@.crypt_method,
    {
        self.header.crypt_method as u64
    }

    pub fn l1_size(&self) -> (r: u64)
        ensures
            r == self@.l1_size,
    {
        self.header.l1_size as u64
    }

    pub fn l1_table_offset(&self) -> (r: u64)
        ensures
            r == self@.l1_table_offset,
    {
        self.header.l1_table_offset
    }

    pub fn refcount_table_offset(&self) -> (r: u64)
        ensures
            r == self@.refcount_table_offset,
    {
        self.header.refcount_table_offset
    }

    pub fn refcount_table_clusters(&self) -> (r: u64)
        ensures
            r == self@.refcount_table_clusters,
    {
        self.header.refcount_table_clusters as u64
    }

    pub fn nb_snapshots(&self) -> (r: u64)
        ensures
            r == self@.nb_snapshots,
    {
        self.header.nb_snapshots as u64
    }

    pub fn snapshots_offset(&self) -> (r: u64)
        ensures
            r == self@.snapshots_offset,
    {
        self.header.snapshots_offset
    }

    pub fn incompatible_features(&self) -> (r: u64)
        ensures
            r == self@.incompatible_features,
    {
        self.header.incompatible_features
    }

    pub fn compatible_features(&self) -> (r: u64)
        ensures
            r == self@.compatible_features,
    {
        self.header.compatible_features
    }

    pub fn autoclear_features(&self) -> (r: u64)
        ensures
            r == self@.autoclear_features,
    {
        self.header.autoclear_features
    }

    /// Bits in a refcount entry, `2` to the power `refcount_order`; `None`
    /// when that does not fit in 64 bits.
    pub fn refcount_width(&self) -> (r: Option<u64>)
        ensures
            self@.refcount_order < 64 ==> r == Some(pow2(self@.refcount_order as nat) as u64),
            self@.refcount_order >= 64 ==> r is None,
    {
        let order = self.header.refcount_order;
        if order >= 64 {
            None
        } else {
            proof {
                vstd::arithmetic::power2::lemma2_to64_rest();
                lemma_pow2_le(order as nat, 63);
                lemma_u64_shl_is_mul(1, order as u64);
            }
            Some(1u64 << (order as u64))
        }
    }

    /// Where the name of the backing file lies: its offset and its length in
    /// bytes; `None` when the image has no backing file.
    pub fn backing_file_extent(&self) -> (r: Option<(u64, u32)>)
        ensures
            self@.backing_file_size == 0 ==> r is None,
            self@.backing_file_size != 0 ==> r == Some(
                (self@.backing_file_offset, self@.backing_file_size),
            ),
    {
        if self.header.backing_file_size == 0 {
            None
        } else {
            Some((self.header.backing_file_offset, self.header.backing_file_size))
        }
    }

    /// The name of the backing file, from the bytes read where
    /// `backing_file_extent` points. `None` when there is no backing file, when
    /// fewer or more bytes than the name's length came, or when they are not
    /// UTF-8.
    pub fn backing_file(&self, name: Vec<u8>) -> (r: Option<String>)
        ensures
            self@.backing_file_size == 0 || name@.len() != self@.backing_file_size ==> r is None,
            self@.backing_file_size != 0 && name@.len() == self@.backing_file_size ==> {
                &&& r is Some <==> vstd::utf8::valid_utf8(name@)
                &&& r matches Some(s) ==> s@ == vstd::utf8::decode_utf8(name@)
            },
    {
        let size = self.header.backing_file_size;
        if size == 0 || name.len() as u64 != size as u64 {
            None
        } else {
            utf8_string(name)
        }
    }

    pub fn header_len(&self) -> (r: u64)
        ensures
            r == self@.header_length,
    {
        self.header.header_length as u64
    }
}

} // verus!
