use vstd::prelude::*;

use crate::bytes::{
    be_bytes, be_value, lemma_be_facts, lemma_be_value_u32, lemma_be_value_u64,
    lemma_pow256_values, read_be,
};

verus! {

/// The fields of the fixed part of a QCOW2 header.
#[derive(Debug, Copy, Clone, PartialEq, Eq, Structural)]
pub enum Qcow2Field {
    Magic,
    Version,
    BackingFileOffset,
    BackingFileSize,
    ClusterBits,
    Size,
    CryptMethod,
    L1Size,
    L1TableOffset,
    RefcountTableOffset,
    RefcountTableClusters,
    NbSnapshots,
    SnapshotsOffset,
    // Only for version >= 3:
    IncompatibleFeatures,
    CompatibleFeatures,
    AutoclearFeatures,
    RefcountOrder,
    HeaderLength,
}

/// Byte offset of a field in the header.
pub open spec fn field_offset(f: Qcow2Field) -> nat {
    match f {
        Qcow2Field::Magic => 0,
        Qcow2Field::Version => 4,
        Qcow2Field::BackingFileOffset => 8,
        Qcow2Field::BackingFileSize => 16,
        Qcow2Field::ClusterBits => 20,
        Qcow2Field::Size => 24,
        Qcow2Field::CryptMethod => 32,
        Qcow2Field::L1Size => 36,
        Qcow2Field::L1TableOffset => 40,
        Qcow2Field::RefcountTableOffset => 48,
        Qcow2Field::RefcountTableClusters => 56,
        Qcow2Field::NbSnapshots => 60,
        Qcow2Field::SnapshotsOffset => 64,
        Qcow2Field::IncompatibleFeatures => 72,
        Qcow2Field::CompatibleFeatures => 80,
        Qcow2Field::AutoclearFeatures => 88,
        Qcow2Field::RefcountOrder => 96,
        Qcow2Field::HeaderLength => 100,
    }
}

/// Width in bytes of a field in the header.
pub open spec fn field_size(f: Qcow2Field) -> nat {
    match f {
        Qcow2Field::BackingFileOffset
        | Qcow2Field::Size
        | Qcow2Field::L1TableOffset
        | Qcow2Field::RefcountTableOffset
        | Qcow2Field::SnapshotsOffset
        | Qcow2Field::IncompatibleFeatures
        | Qcow2Field::CompatibleFeatures
        | Qcow2Field::AutoclearFeatures => 8,
        _ => 4,
    }
}

/// The value of field `f` in the header bytes `b` (which must cover it).
pub open spec fn field_value(b: Seq<u8>, f: Qcow2Field) -> nat {
    be_value(b, field_offset(f) as int, field_size(f))
}

impl Qcow2Field {
    /// Byte offset of the field in the header.
    pub fn offset(&self) -> (r: usize)
        ensures
            r == field_offset(*self),
    {
        match self {
            Qcow2Field::Magic => 0,
            Qcow2Field::Version => 4,
            Qcow2Field::BackingFileOffset => 8,
            Qcow2Field::BackingFileSize => 16,
            Qcow2Field::ClusterBits => 20,
            Qcow2Field::Size => 24,
            Qcow2Field::CryptMethod => 32,
            Qcow2Field::L1Size => 36,
            Qcow2Field::L1TableOffset => 40,
            Qcow2Field::RefcountTableOffset => 48,
            Qcow2Field::RefcountTableClusters => 56,
            Qcow2Field::NbSnapshots => 60,
            Qcow2Field::SnapshotsOffset => 64,
            Qcow2Field::IncompatibleFeatures => 72,
            Qcow2Field::CompatibleFeatures => 80,
            Qcow2Field::AutoclearFeatures => 88,
            Qcow2Field::RefcountOrder => 96,
            Qcow2Field::HeaderLength => 100,
        }
    }

    /// Width of the field in bytes.
    pub fn size(&self) -> (r: usize)
        ensures
            r == field_size(*self),
            r == 4 || r == 8,
    {
        match self {
            Qcow2Field::Magic => 4,
            Qcow2Field::Version => 4,
            Qcow2Field::BackingFileOffset => 8,
            Qcow2Field::BackingFileSize => 4,
            Qcow2Field::ClusterBits => 4,
            Qcow2Field::Size => 8,
            Qcow2Field::CryptMethod => 4,
            Qcow2Field::L1Size => 4,
            Qcow2Field::L1TableOffset => 8,
            Qcow2Field::RefcountTableOffset => 8,
            Qcow2Field::RefcountTableClusters => 4,
            Qcow2Field::NbSnapshots => 4,
            Qcow2Field::SnapshotsOffset => 8,
            Qcow2Field::IncompatibleFeatures => 8,
            Qcow2Field::CompatibleFeatures => 8,
            Qcow2Field::AutoclearFeatures => 8,
            Qcow2Field::RefcountOrder => 4,
            Qcow2Field::HeaderLength => 4,
        }
    }

    /// Reads the field out of the first bytes of an image; `None` when they
    /// stop before the end of the field.
    pub fn read_header(&self, header: &[u8]) -> (r: Option<u64>)
        ensures
            field_offset(*self) + field_size(*self) <= header@.len() ==> r == Some(
                field_value(header@, *self) as u64,
            ),
            field_offset(*self) + field_size(*self) > header@.len() ==> r is None,
    {
        let off = self.offset();
        let n = self.size();
        if header.len() < off + n {
            None
        } else {
            Some(read_be(header, off, n))
        }
    }
}

} // verus!

verus! {

/// The magic number that opens every QCOW2 image ("QFI\xfb").
pub const QCOW2_MAGIC: u64 = 0x514649fb;

/// Why a header was refused.
#[derive(Debug, Copy, Clone, PartialEq, Eq, Structural)]
pub enum DecodeError {
    /// The bytes stop before the end of the header of their version.
    Truncated,
    /// The first four bytes are not `51 46 49 FB`.
    InvalidMagic,
    /// The version is neither 2 nor 3.
    UnsupportedVersion,
    /// A version 3 header sets a bit of `incompatible_features`.
    UnsupportedFeature,
    /// A version 3 header with `header_length` under 104 or not a multiple of 8.
    InvalidHeaderLength,
    /// `cluster_bits` outside `9..=31`.
    InvalidClusterBits,
}

/// The decoded fields of a QCOW2 header. A version 2 header has none of the
/// fields from `incompatible_features` on: they take the values that version 2
/// implies (no feature bits, 16-bit refcounts, a 72-byte header).
#[derive(Debug, Copy, Clone, PartialEq, Eq, Structural)]
pub struct Header {
    pub version: u32,
    pub backing_file_offset: u64,
    pub backing_file_size: u32,
    pub cluster_bits: u32,
    pub size: u64,
    pub crypt_method: u32,
    pub l1_size: u32,
    pub l1_table_offset: u64,
    pub refcount_table_offset: u64,
    pub refcount_table_clusters: u32,
    pub nb_snapshots: u32,
    pub snapshots_offset: u64,
    pub incompatible_features: u64,
    pub compatible_features: u64,
    pub autoclear_features: u64,
    pub refcount_order: u32,
    pub header_length: u32,
}

/// Number of bytes of the fixed header of a version.
pub open spec fn fixed_header_len(version: nat) -> nat {
    if version == 3 {
        104
    } else {
        72
    }
}

/// The fields as they stand in `b`; the fields of version 3 only when `v3`.
pub open spec fn decode_fields(b: Seq<u8>, v3: bool) -> Header {
    Header {
        version: field_value(b, Qcow2Field::Version) as u32,
        backing_file_offset: field_value(b, Qcow2Field::BackingFileOffset) as u64,
        backing_file_size: field_value(b, Qcow2Field::BackingFileSize) as u32,
        cluster_bits: field_value(b, Qcow2Field::ClusterBits) as u32,
        size: field_value(b, Qcow2Field::Size) as u64,
        crypt_method: field_value(b, Qcow2Field::CryptMethod) as u32,
        l1_size: field_value(b, Qcow2Field::L1Size) as u32,
        l1_table_offset: field_value(b, Qcow2Field::L1TableOffset) as u64,
        refcount_table_offset: field_value(b, Qcow2Field::RefcountTableOffset) as u64,
        refcount_table_clusters: field_value(b, Qcow2Field::RefcountTableClusters) as u32,
        nb_snapshots: field_value(b, Qcow2Field::NbSnapshots) as u32,
        snapshots_offset: field_value(b, Qcow2Field::SnapshotsOffset) as u64,
        incompatible_features: if v3 {
            field_value(b, Qcow2Field::IncompatibleFeatures) as u64
        } else {
            0
        },
        compatible_features: if v3 {
            field_value(b, Qcow2Field::CompatibleFeatures) as u64
        } else {
            0
        },
        autoclear_features: if v3 {
            field_value(b, Qcow2Field::AutoclearFeatures) as u64
        } else {
            0
        },
        refcount_order: if v3 {
            field_value(b, Qcow2Field::RefcountOrder) as u32
        } else {
            4
        },
        header_length: if v3 {
            field_value(b, Qcow2Field::HeaderLength) as u32
        } else {
            72
        },
    }
}

/// What decoding the first bytes `b` of an image gives: the checks in order,
/// then the fields.
pub open spec fn parse_spec(b: Seq<u8>) -> Result<Header, DecodeError> {
    let version = field_value(b, Qcow2Field::Version);
    if b.len() < 4 {
        Err(DecodeError::Truncated)
    } else if field_value(b, Qcow2Field::Magic) != QCOW2_MAGIC {
        Err(DecodeError::InvalidMagic)
    } else if b.len() < 8 {
        Err(DecodeError::Truncated)
    } else if version != 2 && version != 3 {
        Err(DecodeError::UnsupportedVersion)
    } else if b.len() < fixed_header_len(version) {
        Err(DecodeError::Truncated)
    } else if version == 3 && field_value(b, Qcow2Field::IncompatibleFeatures) != 0 {
        Err(DecodeError::UnsupportedFeature)
    } else if version == 3 && (field_value(b, Qcow2Field::HeaderLength) < 104 || field_value(
        b,
        Qcow2Field::HeaderLength,
    ) % 8 != 0) {
        Err(DecodeError::InvalidHeaderLength)
    } else if field_value(b, Qcow2Field::ClusterBits) < 9 || field_value(
        b,
        Qcow2Field::ClusterBits,
    ) > 31 {
        Err(DecodeError::InvalidClusterBits)
    } else {
        Ok(decode_fields(b, version == 3))
    }
}

/// A header that an image may have: the invariant of every decoded header.
pub open spec fn header_valid(h: Header) -> bool {
    &&& h.version == 2 || h.version == 3
    &&& 9 <= h.cluster_bits <= 31
    &&& h.version == 3 ==> {
        &&& h.incompatible_features == 0
        &&& h.header_length >= 104
        &&& h.header_length % 8 == 0
    }
    &&& h.version == 2 ==> {
        &&& h.incompatible_features == 0
        &&& h.compatible_features == 0
        &&& h.autoclear_features == 0
        &&& h.refcount_order == 4
        &&& h.header_length == 72
    }
}

/// Every header that decoding accepts is valid.
pub proof fn lemma_parsed_header_valid(b: Seq<u8>)
    ensures
        parse_spec(b) is Ok ==> header_valid(parse_spec(b)->Ok_0),
{
    if parse_spec(b) is Ok {
        let v3 = field_value(b, Qcow2Field::Version) == 3;
        lemma_be_value_u32(b, 4, 4);
        lemma_be_value_u32(b, 20, 4);
        lemma_be_value_u32(b, 100, 4);
        lemma_be_value_u64(b, 72, 8);
    }
}

fn field_u32(b: &[u8], f: Qcow2Field) -> (r: u32)
    requires
        field_size(f) == 4,
        field_offset(f) + 4 <= b@.len(),
    ensures
        r == field_value(b@, f),
{
    proof {
        lemma_be_value_u32(b@, field_offset(f) as int, 4);
    }
    read_be(b, f.offset(), 4) as u32
}

fn field_u64(b: &[u8], f: Qcow2Field) -> (r: u64)
    requires
        field_size(f) == 8,
        field_offset(f) + 8 <= b@.len(),
    ensures
        r == field_value(b@, f),
{
    read_be(b, f.offset(), 8)
}

/// Decodes and checks the header held by the first bytes of an image.
pub fn parse_header(b: &[u8]) -> (r: Result<Header, DecodeError>)
    ensures
        r == parse_spec(b@),
        r is Ok ==> header_valid(r->Ok_0),
{
    proof {
        lemma_parsed_header_valid(b@);
    }
    if b.len() < 4 {
        return Err(DecodeError::Truncated);
    }
    if field_u32(b, Qcow2Field::Magic) as u64 != QCOW2_MAGIC {
        return Err(DecodeError::InvalidMagic);
    }
    if b.len() < 8 {
        return Err(DecodeError::Truncated);
    }
    let version = field_u32(b, Qcow2Field::Version);
    if version != 2 && version != 3 {
        return Err(DecodeError::UnsupportedVersion);
    }
    let v3 = version == 3;
    if (v3 && b.len() < 104) || b.len() < 72 {
        return Err(DecodeError::Truncated);
    }
    let mut incompatible_features: u64 = 0;
    let mut compatible_features: u64 = 0;
    let mut autoclear_features: u64 = 0;
    let mut refcount_order: u32 = 4;
    let mut header_length: u32 = 72;
    if v3 {
        incompatible_features = field_u64(b, Qcow2Field::IncompatibleFeatures);
        if incompatible_features != 0 {
            return Err(DecodeError::UnsupportedFeature);
        }
        header_length = field_u32(b, Qcow2Field::HeaderLength);
        if header_length < 104 || header_length % 8 != 0 {
            return Err(DecodeError::InvalidHeaderLength);
        }
        compatible_features = field_u64(b, Qcow2Field::CompatibleFeatures);
        autoclear_features = field_u64(b, Qcow2Field::AutoclearFeatures);
        refcount_order = field_u32(b, Qcow2Field::RefcountOrder);
    }
    let cluster_bits = field_u32(b, Qcow2Field::ClusterBits);
    if cluster_bits < 9 || cluster_bits > 31 {
        return Err(DecodeError::InvalidClusterBits);
    }
    Ok(
        Header {
            version,
            backing_file_offset: field_u64(b, Qcow2Field::BackingFileOffset),
            backing_file_size: field_u32(b, Qcow2Field::BackingFileSize),
            cluster_bits,
            size: field_u64(b, Qcow2Field::Size),
            crypt_method: field_u32(b, Qcow2Field::CryptMethod),
            l1_size: field_u32(b, Qcow2Field::L1Size),
            l1_table_offset: field_u64(b, Qcow2Field::L1TableOffset),
            refcount_table_offset: field_u64(b, Qcow2Field::RefcountTableOffset),
            refcount_table_clusters: field_u32(b, Qcow2Field::RefcountTableClusters),
            nb_snapshots: field_u32(b, Qcow2Field::NbSnapshots),
            snapshots_offset: field_u64(b, Qcow2Field::SnapshotsOffset),
            incompatible_features,
            compatible_features,
            autoclear_features,
            refcount_order,
            header_length,
        },
    )
}

} // verus!

verus! {

/// The fields of a version 3 header from `incompatible_features` on.
pub open spec fn encode_v3_fields(h: Header) -> Seq<u8> {
    be_bytes(h.incompatible_features as nat, 8) + be_bytes(h.compatible_features as nat, 8)
        + be_bytes(h.autoclear_features as nat, 8) + be_bytes(h.refcount_order as nat, 4)
        + be_bytes(h.header_length as nat, 4)
}

/// The fixed header that an image of `h` starts with: each field big-endian at
/// its offset, the version 3 fields only for version 3.
pub open spec fn encode_header(h: Header) -> Seq<u8> {
    let v2 = be_bytes(QCOW2_MAGIC as nat, 4) + be_bytes(h.version as nat, 4) + be_bytes(
        h.backing_file_offset as nat,
        8,
    ) + be_bytes(h.backing_file_size as nat, 4) + be_bytes(h.cluster_bits as nat, 4) + be_bytes(
        h.size as nat,
        8,
    ) + be_bytes(h.crypt_method as nat, 4) + be_bytes(h.l1_size as nat, 4) + be_bytes(
        h.l1_table_offset as nat,
        8,
    ) + be_bytes(h.refcount_table_offset as nat, 8) + be_bytes(
        h.refcount_table_clusters as nat,
        4,
    ) + be_bytes(h.nb_snapshots as nat, 4) + be_bytes(h.snapshots_offset as nat, 8);
    if h.version == 3 {
        v2 + encode_v3_fields(h)
    } else {
        v2
    }
}

/// A valid version 2 or version 3 header, written out field by field and
/// followed by anything at all, decodes to exactly the header written.
pub proof fn lemma_parse_encoded_header(h: Header, rest: Seq<u8>)
    requires
        header_valid(h),
    ensures
        parse_spec(encode_header(h) + rest) == Ok::<Header, DecodeError>(h),
{
    lemma_be_facts();
    lemma_pow256_values();
    let b = encode_header(h) + rest;
    assert(field_value(b, Qcow2Field::Magic) == QCOW2_MAGIC);
    assert(field_value(b, Qcow2Field::Version) == h.version);
    assert(field_value(b, Qcow2Field::ClusterBits) == h.cluster_bits);
    if h.version == 3 {
        assert(field_value(b, Qcow2Field::IncompatibleFeatures) == h.incompatible_features);
        assert(field_value(b, Qcow2Field::HeaderLength) == h.header_length);
    }
    assert(decode_fields(b, h.version == 3) == h);
}

/// A version 3 header that sets any bit of `incompatible_features` is refused
/// with `UnsupportedFeature`, whatever its other fields hold.
pub proof fn lemma_incompatible_features_refused(b: Seq<u8>)
    requires
        b.len() >= 104,
        field_value(b, Qcow2Field::Magic) == QCOW2_MAGIC,
        field_value(b, Qcow2Field::Version) == 3,
        field_value(b, Qcow2Field::IncompatibleFeatures) != 0,
    ensures
        parse_spec(b) == Err::<Header, DecodeError>(DecodeError::UnsupportedFeature),
{
}

/// Bytes whose first four are not the magic number are refused with
/// `InvalidMagic`.
pub proof fn lemma_bad_magic_refused(b: Seq<u8>)
    requires
        b.len() >= 4,
        b.subrange(0, 4) != seq![0x51u8, 0x46u8, 0x49u8, 0xfbu8],
    ensures
        parse_spec(b) == Err::<Header, DecodeError>(DecodeError::InvalidMagic),
{
    if field_value(b, Qcow2Field::Magic) == QCOW2_MAGIC {
        let m = seq![0x51u8, 0x46u8, 0x49u8, 0xfbu8];
        let b0 = b[0];
        let b1 = b[1];
        let b2 = b[2];
        let b3 = b[3];
        reveal_with_fuel(be_value, 5);
        assert(((b0 as nat * 256 + b1 as nat) * 256 + b2 as nat) * 256 + b3 as nat == 0x514649fb);
        assert(b0 == 0x51 && b1 == 0x46 && b2 == 0x49 && b3 == 0xfb) by (nonlinear_arith)
            requires
                ((b0 as nat * 256 + b1 as nat) * 256 + b2 as nat) * 256 + b3 as nat == 0x514649fb,
                b0 < 256,
                b1 < 256,
                b2 < 256,
                b3 < 256,
        ;
        assert(b.subrange(0, 4) =~= m);
    }
}

} // verus!
