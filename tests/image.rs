use rblock::header::{parse_header, DecodeError, Qcow2Field};
use rblock::qcow2::Qcow2;
use rblock::lookup::LookupError;

fn put(b: &mut Vec<u8>, off: usize, v: u64, n: usize) {
    if b.len() < off + n {
        b.resize(off + n, 0);
    }
    for i in 0..n {
        b[off + i] = (v >> (8 * (n - 1 - i))) as u8;
    }
}

fn header(version: u64, cluster_bits: u64, l1_size: u64, l1_table_offset: u64) -> Vec<u8> {
    let mut b = vec![0u8; if version == 3 { 104 } else { 72 }];
    put(&mut b, 0, 0x514649fb, 4);
    put(&mut b, 4, version, 4);
    put(&mut b, 20, cluster_bits, 4);
    put(&mut b, 24, 1 << 30, 8);
    put(&mut b, 36, l1_size, 4);
    put(&mut b, 40, l1_table_offset, 8);
    if version == 3 {
        put(&mut b, 96, 4, 4);
        put(&mut b, 100, 104, 4);
    }
    b
}

fn full_v3_header() -> Vec<u8> {
    let mut b = vec![0u8; 104];
    put(&mut b, 0, 0x514649fb, 4);
    put(&mut b, 4, 3, 4);
    put(&mut b, 8, 0x1122_3344_5566_7788, 8);
    put(&mut b, 16, 0x0a0b0c0d, 4);
    put(&mut b, 20, 12, 4);
    put(&mut b, 24, 0x0000_0010_0000_0000, 8);
    put(&mut b, 32, 1, 4);
    put(&mut b, 36, 77, 4);
    put(&mut b, 40, 0x30000, 8);
    put(&mut b, 48, 0x10000, 8);
    put(&mut b, 56, 3, 4);
    put(&mut b, 60, 5, 4);
    put(&mut b, 64, 0xdead_beef_0000, 8);
    put(&mut b, 72, 0, 8);
    put(&mut b, 80, 0x8000_0000_0000_0001, 8);
    put(&mut b, 88, 0x2, 8);
    put(&mut b, 96, 5, 4);
    put(&mut b, 100, 112, 4);
    b
}

#[test]
fn field_layout() {
    assert_eq!(Qcow2Field::Magic.offset(), 0);
    assert_eq!(Qcow2Field::Magic.size(), 4);
    assert_eq!(Qcow2Field::BackingFileOffset.size(), 8);
    assert_eq!(Qcow2Field::SnapshotsOffset.offset(), 64);
    assert_eq!(Qcow2Field::HeaderLength.offset(), 100);
    assert_eq!(Qcow2Field::HeaderLength.size(), 4);
    assert_eq!(Qcow2Field::IncompatibleFeatures.size(), 8);
}

#[test]
fn read_header_field() {
    let b = full_v3_header();
    assert_eq!(Qcow2Field::Magic.read_header(&b), Some(0x514649fb));
    assert_eq!(Qcow2Field::BackingFileOffset.read_header(&b), Some(0x1122_3344_5566_7788));
    assert_eq!(Qcow2Field::HeaderLength.read_header(&b), Some(112));
    assert_eq!(Qcow2Field::HeaderLength.read_header(&b[..103]), None);
}

#[test]
fn every_field_of_v3_header_reads_back() {
    let q = Qcow2::new(&full_v3_header()).ok().unwrap();
    assert_eq!(q.version(), 3);
    assert_eq!(q.cluster_size(), 4096);
    assert_eq!(q.virtual_size(), 0x0000_0010_0000_0000);
    assert_eq!(q.crypto_method(), 1);
    assert_eq!(q.l1_size(), 77);
    assert_eq!(q.l1_table_offset(), 0x30000);
    assert_eq!(q.refcount_table_offset(), 0x10000);
    assert_eq!(q.refcount_table_clusters(), 3);
    assert_eq!(q.nb_snapshots(), 5);
    assert_eq!(q.snapshots_offset(), 0xdead_beef_0000);
    assert_eq!(q.incompatible_features(), 0);
    assert_eq!(q.compatible_features(), 0x8000_0000_0000_0001);
    assert_eq!(q.autoclear_features(), 2);
    assert_eq!(q.refcount_width(), Some(32));
    assert_eq!(q.header_len(), 112);
    assert_eq!(q.backing_file_extent(), Some((0x1122_3344_5566_7788, 0x0a0b0c0d)));
    let h = q.header();
    assert_eq!(h.backing_file_size, 0x0a0b0c0d);
}

#[test]
fn version2_header_has_defaults() {
    let mut b = header(2, 16, 8, 0x10000);
    // bytes past a version 2 header are not read as version 3 fields
    b.extend_from_slice(&[0xff; 40]);
    let q = Qcow2::new(&b).ok().unwrap();
    assert_eq!(q.version(), 2);
    assert_eq!(q.cluster_size(), 65536);
    assert_eq!(q.incompatible_features(), 0);
    assert_eq!(q.refcount_width(), Some(16));
    assert_eq!(q.header_len(), 72);
    assert_eq!(q.backing_file_extent(), None);
}

#[test]
fn incompatible_feature_refused() {
    for bit in [0u32, 1, 5, 63] {
        let mut b = header(3, 16, 8, 0x10000);
        put(&mut b, 72, 1u64 << bit, 8);
        assert_eq!(parse_header(&b), Err(DecodeError::UnsupportedFeature));
    }
}

#[test]
fn bad_magic_refused() {
    for magic in [0u64, 0x514649fa, 0x514649fc, 0xfb494651, 0xffff_ffff] {
        let mut b = header(3, 16, 8, 0x10000);
        put(&mut b, 0, magic, 4);
        assert_eq!(parse_header(&b), Err(DecodeError::InvalidMagic));
    }
}

#[test]
fn other_header_errors() {
    assert_eq!(parse_header(&[0x51, 0x46]), Err(DecodeError::Truncated));
    assert_eq!(parse_header(&header(3, 16, 8, 0)[..90]), Err(DecodeError::Truncated));
    assert_eq!(parse_header(&header(2, 16, 8, 0)[..71]), Err(DecodeError::Truncated));
    assert_eq!(parse_header(&header(4, 16, 8, 0)), Err(DecodeError::UnsupportedVersion));
    assert_eq!(parse_header(&header(1, 16, 8, 0)), Err(DecodeError::UnsupportedVersion));
    let mut b = header(3, 16, 8, 0);
    put(&mut b, 100, 100, 4);
    assert_eq!(parse_header(&b), Err(DecodeError::InvalidHeaderLength));
    put(&mut b, 100, 108, 4);
    assert_eq!(parse_header(&b), Err(DecodeError::InvalidHeaderLength));
    put(&mut b, 100, 104, 4);
    assert!(parse_header(&b).is_ok());
    assert_eq!(parse_header(&header(3, 8, 8, 0)), Err(DecodeError::InvalidClusterBits));
    assert_eq!(parse_header(&header(2, 32, 8, 0)), Err(DecodeError::InvalidClusterBits));
}

/// An image with 64 KiB clusters: L1 at 0x10000, an L2 table at 0x20000, and
/// cluster 0 at 0x30000, all 0xAB.
fn scenario_image() -> (Qcow2, Vec<u8>) {
    let mut img = header(3, 16, 1, 0x10000);
    img.resize(0x40000, 0);
    put(&mut img, 0x10000, 0x20000, 8);
    put(&mut img, 0x20000, 0x30000, 8);
    for i in 0..0x10000 {
        img[0x30000 + i] = 0xAB;
    }
    (Qcow2::new(&img).ok().unwrap(), img)
}

#[test]
fn scenario_cluster_zero_and_one() {
    let (q, img) = scenario_image();
    let c0 = q.read_guest_cluster(&img, 0).unwrap();
    assert_eq!(c0.len(), 65536);
    assert!(c0.iter().all(|&b| b == 0xAB));
    let c1 = q.read_guest_cluster(&img, 1).unwrap();
    assert_eq!(c1.len(), 65536);
    assert!(c1.iter().all(|&b| b == 0));
}

#[test]
fn steps_of_a_lookup() {
    let (q, _) = scenario_image();
    assert_eq!(q.entries_per_table(), 8192);
    assert_eq!(q.l1_entry_position(0), Ok(0x10000));
    assert_eq!(q.l1_entry_position(8192), Err(LookupError::ClusterOutOfRange));
    assert_eq!(q.l2_entry_position(3, 0x20000), Some(0x20018));
    assert_eq!(q.l2_entry_position(3, 0), None);
    assert_eq!(Qcow2::data_position(0), None);
    assert_eq!(Qcow2::data_position(0x30000), Some(0x30000));
}

#[test]
fn zero_l1_entry_reads_zeros() {
    let (q, mut img) = scenario_image();
    put(&mut img, 0x10000, 0, 8);
    let c0 = q.read_guest_cluster(&img, 0).unwrap();
    assert_eq!(c0, vec![0u8; 65536]);
}

#[test]
fn flag_bits_are_masked() {
    let (q, mut img) = scenario_image();
    put(&mut img, 0x10000, 0x8100_0000_0002_0000, 8);
    put(&mut img, 0x20000, 0x8100_0000_0003_0000, 8);
    assert_eq!(q.l2_entry_position(0, 0x8100_0000_0002_0000), Some(0x20000));
    assert_eq!(Qcow2::data_position(0x8100_0000_0003_0000), Some(0x30000));
    let c0 = q.read_guest_cluster(&img, 0).unwrap();
    assert_eq!(c0.len(), 65536);
    assert!(c0.iter().all(|&b| b == 0xAB));
}

#[test]
fn short_data_is_cut() {
    let (q, mut img) = scenario_image();
    img.truncate(0x30000 + 100);
    let c0 = q.read_guest_cluster(&img, 0).unwrap();
    assert_eq!(c0, vec![0xABu8; 100]);
}

#[test]
fn lookup_errors() {
    let (q, img) = scenario_image();
    assert_eq!(q.read_guest_cluster(&img, 8192), Err(LookupError::ClusterOutOfRange));
    assert_eq!(q.read_guest_cluster(&img[..0x10004], 0), Err(LookupError::Truncated));
    assert_eq!(q.read_guest_cluster(&img[..0x20004], 0), Err(LookupError::Truncated));
}

#[test]
fn l1_entries_listed() {
    let q = Qcow2::new(&header(2, 9, 3, 0)).ok().unwrap();
    let mut table = vec![0u8; 32];
    put(&mut table, 8, 0x8000_0000_0001_0000, 8);
    put(&mut table, 24, 0x5000, 8);
    // l1_size is 3: the fourth entry is not part of the table
    assert_eq!(q.get_l1_entries(&table), vec![(1, 0x8000_0000_0001_0000)]);
    put(&mut table, 0, 0x7000, 8);
    assert_eq!(q.get_l1_entries(&table), vec![(0, 0x7000), (1, 0x8000_0000_0001_0000)]);
}

#[test]
fn backing_file_name() {
    let mut b = header(2, 16, 1, 0x10000);
    put(&mut b, 8, 0x200, 8);
    put(&mut b, 16, 4, 4);
    let q = Qcow2::new(&b).ok().unwrap();
    assert_eq!(q.backing_file_extent(), Some((0x200, 4)));
    assert_eq!(q.backing_file(b"base".to_vec()), Some("base".to_string()));
    assert_eq!(q.backing_file(b"bas".to_vec()), None);
    assert_eq!(q.backing_file(vec![0x62, 0xff, 0xfe, 0x61]), None);
    let q2 = Qcow2::new(&header(2, 16, 1, 0)).ok().unwrap();
    assert_eq!(q2.backing_file(Vec::new()), None);
}
