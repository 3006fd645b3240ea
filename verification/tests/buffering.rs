use android_bluetooth_serial::buffer::ReadBuffer;

#[test]
fn bytes_come_out_in_the_order_in_which_they_went_in() {
    let mut buffer = ReadBuffer::new();
    buffer.write(&[1, 2, 3]);
    buffer.write(&[4, 5]);
    assert_eq!(buffer.len(), 5);
    let mut out = [0u8; 4];
    assert_eq!(buffer.read(&mut out, 0), 4);
    assert_eq!(out, [1, 2, 3, 4]);
    assert_eq!(buffer.len(), 1);
    buffer.write(&[6]);
    let mut out = [9u8; 4];
    assert_eq!(buffer.read(&mut out, 1), 2);
    assert_eq!(out, [9, 5, 6, 9]);
    assert_eq!(buffer.len(), 0);
}

#[test]
fn two_reads_add_up_to_one() {
    let bytes: Vec<u8> = (0..10).collect();
    let mut once = ReadBuffer::new();
    once.write(&bytes);
    let mut all = [0u8; 7];
    assert_eq!(once.read(&mut all, 0), 7);
    let mut twice = ReadBuffer::new();
    twice.write(&bytes);
    let mut parts = [0u8; 7];
    let mut first = [0u8; 3];
    assert_eq!(twice.read(&mut first, 0), 3);
    parts[..3].copy_from_slice(&first);
    assert_eq!(twice.read(&mut parts, 3), 4);
    assert_eq!(parts, all);
    assert_eq!(twice.len(), once.len());
}

#[test]
fn all_bytes_are_handed_over_even_if_they_wrap_around() {
    let mut buffer = ReadBuffer::new();
    let mut expected: Vec<u8> = Vec::new();
    let mut got: Vec<u8> = Vec::new();
    for round in 0..50u8 {
        let bytes = [round, round.wrapping_mul(3), round.wrapping_add(7)];
        buffer.write(&bytes);
        expected.extend_from_slice(&bytes);
        let mut out = [0u8; 2];
        let count = buffer.read(&mut out, 0);
        assert_eq!(count, 2);
        got.extend_from_slice(&out);
    }
    let mut rest = vec![0u8; buffer.len()];
    assert_eq!(rest.len(), 50);
    assert_eq!(buffer.read(&mut rest, 0), 50);
    got.extend_from_slice(&rest);
    assert_eq!(got, expected);
}

#[test]
fn an_empty_buffer_hands_over_nothing() {
    let mut buffer = ReadBuffer::new();
    let mut out = [7u8; 2];
    assert_eq!(buffer.read(&mut out, 0), 0);
    assert_eq!(out, [7, 7]);
    buffer.write(&[1]);
    assert_eq!(buffer.read(&mut out, 2), 0);
    assert_eq!(buffer.len(), 1);
    buffer.clear();
    assert_eq!(buffer.len(), 0);
}
