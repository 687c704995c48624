use moq_radio::wire::{clock_frame, clock_value, frame, unframe, FrameError};

#[test]
fn frame_prefixes_big_endian_length() {
    assert_eq!(frame(&[1, 2, 3]), vec![0, 0, 0, 3, 1, 2, 3]);
    assert_eq!(frame(&[]), vec![0, 0, 0, 0]);
    let big = vec![7u8; 300];
    let f = frame(&big);
    assert_eq!(&f[..4], &[0, 0, 1, 44]);
}

#[test]
fn frame_round_trip() {
    for len in [0usize, 1, 2, 255, 256, 1000, 3999, 4000] {
        let payload: Vec<u8> = (0..len).map(|i| (i * 31 % 251) as u8).collect();
        assert_eq!(unframe(&frame(&payload)), Ok(payload));
    }
}

#[test]
fn frame_size_is_prefix_plus_four() {
    for len in [0usize, 1, 17, 4000] {
        let f = frame(&vec![9u8; len]);
        let declared = u32::from_be_bytes([f[0], f[1], f[2], f[3]]) as usize;
        assert_eq!(f.len(), 4 + declared);
        assert_eq!(declared, len);
    }
}

#[test]
fn unframe_rejects_missing_prefix() {
    assert_eq!(unframe(&[]), Err(FrameError::TooShort { available: 0 }));
    assert_eq!(unframe(&[0, 0, 1]), Err(FrameError::TooShort { available: 3 }));
}

#[test]
fn truncated_frame_is_skipped_and_next_is_read() {
    let mut bad = vec![0u8, 0, 0x0f, 0xa0];
    bad.extend_from_slice(&[5u8; 10]);
    let good = frame(&[1, 2, 3, 4]);
    let frames = vec![bad, good];
    let mut packets = Vec::new();
    let mut errors = Vec::new();
    for f in &frames {
        match unframe(f) {
            Ok(p) => packets.push(p),
            Err(e) => errors.push(e),
        }
    }
    assert_eq!(errors, vec![FrameError::Truncated { declared: 4000, available: 10 }]);
    assert_eq!(packets, vec![vec![1, 2, 3, 4]]);
}

#[test]
fn unframe_ignores_bytes_after_payload() {
    assert_eq!(unframe(&[0, 0, 0, 2, 8, 9, 10, 11]), Ok(vec![8, 9]));
}

#[test]
fn clock_frame_layout() {
    assert_eq!(clock_frame(500), vec![0, 0, 0, 8, 0, 0, 0, 0, 0, 0, 1, 0xf4]);
    assert_eq!(clock_frame(u64::MAX)[4..], [0xff; 8]);
}

#[test]
fn clock_value_reads_back() {
    for ms in [0u64, 20, 500, 1 << 40, u64::MAX] {
        assert_eq!(clock_value(&clock_frame(ms)), Some(ms));
    }
    assert_eq!(clock_value(&frame(&[0, 0, 0, 0, 0, 0, 1])), None);
    assert_eq!(clock_value(&[0, 0, 0, 8, 1]), None);
}

#[test]
fn largest_packet_frame_declares_4000() {
    let f = frame(&vec![3u8; 4000]);
    assert_eq!(&f[..4], &[0, 0, 0x0f, 0xa0]);
    assert_eq!(f.len(), 4004);
    assert_eq!(unframe(&f), Ok(vec![3u8; 4000]));
}
