use stun_client::wire::{
    copy_range, read_be16, same_bytes, write_be16, write_be32, write_bytes, write_zeros,
};

#[test]
fn integers_are_big_endian() {
    let mut out = vec![0xEE];
    write_be16(&mut out, 0x0102);
    write_be16(&mut out, 0xFFFE);
    write_be16(&mut out, 0);
    write_be32(&mut out, 0x2112A442);
    write_be32(&mut out, 1);
    assert_eq!(
        out,
        vec![0xEE, 0x01, 0x02, 0xFF, 0xFE, 0x00, 0x00, 0x21, 0x12, 0xA4, 0x42, 0, 0, 0, 1]
    );
    assert_eq!(read_be16(&out, 1), 0x0102);
    assert_eq!(read_be16(&out, 3), 0xFFFE);
    assert_eq!(read_be16(&out, 5), 0);
    assert_eq!(read_be16(&out, 13), 1);
    for value in [0u16, 1, 255, 256, 0x8000, 0xFFFF] {
        let mut bytes = Vec::new();
        write_be16(&mut bytes, value);
        assert_eq!(bytes, value.to_be_bytes().to_vec());
        assert_eq!(read_be16(&bytes, 0), value);
    }
    for value in [0u32, 1, 0xFF00, 0x0100_0000, 0xFFFF_FFFF] {
        let mut bytes = Vec::new();
        write_be32(&mut bytes, value);
        assert_eq!(bytes, value.to_be_bytes().to_vec());
    }
}

#[test]
fn bytes_are_appended_and_copied() {
    let mut out = vec![1u8];
    write_bytes(&mut out, &[2, 3]);
    write_bytes(&mut out, &[]);
    write_zeros(&mut out, 3);
    write_zeros(&mut out, 0);
    assert_eq!(out, vec![1, 2, 3, 0, 0, 0]);
    assert_eq!(copy_range(&out, 1, 4), vec![2, 3, 0]);
    assert_eq!(copy_range(&out, 2, 2), Vec::<u8>::new());
    assert_eq!(copy_range(&out, 0, 6), out);
}

#[test]
fn bytes_are_compared() {
    assert!(same_bytes(&[], &[]));
    assert!(same_bytes(&[1, 2, 3], &[1, 2, 3]));
    assert!(!same_bytes(&[1, 2, 3], &[1, 2, 4]));
    assert!(!same_bytes(&[1, 2, 3], &[1, 2]));
    assert!(!same_bytes(&[], &[0]));
}
