use capfs::layout::{Ciovec, Iovec, Prestat, PrestatDir, PrestatU};

/// Position of `field` in the guest bytes `bytes`.
fn offset_in(bytes: &[u8], field: &[u8]) -> usize {
    let mut i = 0;
    while i + field.len() <= bytes.len() {
        if &bytes[i..i + field.len()] == field {
            return i;
        }
        i += 1;
    }
    panic!("field not found");
}

#[test]
fn bindgen_test_layout_wasi_ciovec_t() {
    assert_eq!(std::mem::size_of::<Ciovec>(), 8usize, "Size of: Ciovec");
    assert_eq!(std::mem::align_of::<Ciovec>(), 4usize, "Alignment of Ciovec");
    let c = Ciovec { buf: 0x0403_0201, buf_len: 0x0807_0605 };
    let bytes = c.to_guest();
    assert_eq!(bytes.len(), 8usize, "Size of: Ciovec");
    assert_eq!(offset_in(&bytes, &0x0403_0201u32.to_le_bytes()), 0usize, "Offset of field: Ciovec::buf");
    assert_eq!(offset_in(&bytes, &0x0807_0605u32.to_le_bytes()), 4usize, "Offset of field: Ciovec::buf_len");
}

#[test]
fn bindgen_test_layout_wasi_iovec_t() {
    assert_eq!(std::mem::size_of::<Iovec>(), 8usize, "Size of: Iovec");
    assert_eq!(std::mem::align_of::<Iovec>(), 4usize, "Alignment of Iovec");
    let c = Iovec { buf: 0x1413_1211, buf_len: 0x1817_1615 };
    let bytes = c.to_guest();
    assert_eq!(bytes.len(), 8usize, "Size of: Iovec");
    assert_eq!(offset_in(&bytes, &0x1413_1211u32.to_le_bytes()), 0usize, "Offset of field: Iovec::buf");
    assert_eq!(offset_in(&bytes, &0x1817_1615u32.to_le_bytes()), 4usize, "Offset of field: Iovec::buf_len");
}

#[test]
fn bindgen_test_layout___wasi_prestat_t___wasi_prestat_u___wasi_prestat_u_dir_t() {
    assert_eq!(std::mem::size_of::<PrestatDir>(), 4usize, "Size of: PrestatDir");
    assert_eq!(std::mem::align_of::<PrestatDir>(), 4usize, "Alignment of PrestatDir");
    let d = PrestatDir { pr_name_len: 0x2423_2221 };
    let bytes = d.to_guest();
    assert_eq!(
        offset_in(&bytes, &0x2423_2221u32.to_le_bytes()),
        0usize,
        "Offset of field: PrestatDir::pr_name_len"
    );
}

#[test]
fn bindgen_test_layout___wasi_prestat_t___wasi_prestat_u() {
    assert_eq!(std::mem::size_of::<PrestatU>(), 4usize, "Size of: PrestatU");
    assert_eq!(std::mem::align_of::<PrestatU>(), 4usize, "Alignment of PrestatU");
    let u = PrestatU { dir: PrestatDir { pr_name_len: 0x3433_3231 } };
    let bytes = u.to_guest();
    assert_eq!(offset_in(&bytes, &0x3433_3231u32.to_le_bytes()), 0usize, "Offset of field: PrestatU::dir");
}

#[test]
fn bindgen_test_layout___wasi_prestat_t() {
    assert_eq!(std::mem::size_of::<Prestat>(), 8usize, "Size of: Prestat");
    assert_eq!(std::mem::align_of::<Prestat>(), 4usize, "Alignment of Prestat");
    let p = Prestat { pr_type: 0x7f, u: PrestatU { dir: PrestatDir { pr_name_len: 0x4443_4241 } } };
    let bytes = p.to_guest();
    assert_eq!(bytes.len(), 8usize, "Size of: Prestat");
    assert_eq!(offset_in(&bytes, &[0x7f]), 0usize, "Offset of field: Prestat::pr_type");
    assert_eq!(offset_in(&bytes, &0x4443_4241u32.to_le_bytes()), 4usize, "Offset of field: Prestat::u");
}

#[test]
fn ciovec_read_back_from_guest_memory() {
    let c = Ciovec { buf: 0xdead_beef, buf_len: 17 };
    let mut mem = vec![0xaa, 0xbb];
    mem.extend_from_slice(&c.to_guest());
    assert_eq!(Ciovec::from_guest(&mem, 2), Some(c));
    assert_eq!(Ciovec::from_guest(&mem, 3), None);
    assert_eq!(Ciovec::from_guest(&mem, 100), None);
}
