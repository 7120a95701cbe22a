use lidar_sequence_viewer::codec::{
    decode_frame, decode_labels, decode_points, encode_labels, encode_points, Label, Point,
};

fn le(words: &[u32]) -> Vec<u8> {
    let mut v = Vec::new();
    for w in words {
        v.extend_from_slice(&w.to_le_bytes());
    }
    v
}

#[test]
fn decode_points_counts_whole_records() {
    // 32 bytes -> 2 points, exactly len / 16.
    let bytes = le(&[1, 2, 3, 4, 5, 6, 7, 8]);
    assert_eq!(bytes.len(), 32);
    assert_eq!(decode_points(&bytes).len(), 2);
}

#[test]
fn decode_points_drops_trailing_bytes() {
    // 17 bytes -> 1 point and no error.
    let mut bytes = le(&[10, 20, 30, 40]);
    bytes.push(0xAB);
    assert_eq!(bytes.len(), 17);
    let points = decode_points(&bytes);
    assert_eq!(points.len(), 1);
    assert_eq!(points[0], Point { x: 10, z: 20, y: 30, remission: 40 });
}

#[test]
fn decode_points_empty() {
    assert_eq!(decode_points(&Vec::new()).len(), 0);
    let short = vec![1u8, 2, 3];
    assert_eq!(decode_points(&short).len(), 0);
}

#[test]
fn decode_points_swaps_second_and_third_axis() {
    // On-disk order (a, c, b, remission) maps to x=a, y=b, z=c.
    let a = 0x3F800000u32; // 1.0f32 bit pattern
    let c = 0x40000000u32; // 2.0f32
    let b = 0x40400000u32; // 3.0f32
    let rem = 0x3F000000u32; // 0.5f32
    let points = decode_points(&le(&[a, c, b, rem]));
    assert_eq!(points[0].x, a);
    assert_eq!(points[0].y, b);
    assert_eq!(points[0].z, c);
    assert_eq!(points[0].remission, rem);
}

#[test]
fn decode_points_reads_little_endian() {
    let bytes: Vec<u8> = vec![
        0x01, 0x02, 0x03, 0x04, 0, 0, 0, 0, 0, 0, 0, 0, 0xFF, 0xFF, 0xFF, 0xFF,
    ];
    let points = decode_points(&bytes);
    assert_eq!(points[0].x, 0x04030201);
    assert_eq!(points[0].z, 0);
    assert_eq!(points[0].y, 0);
    assert_eq!(points[0].remission, 0xFFFFFFFF);
}

#[test]
fn decode_labels_counts_whole_records() {
    let bytes: Vec<u8> = vec![0x0A, 0x00, 0x01, 0x00, 0xFF, 0x00, 0x02, 0x01, 0x7F];
    // 9 bytes -> 2 labels, trailing byte dropped.
    let labels = decode_labels(&bytes);
    assert_eq!(labels.len(), 2);
    assert_eq!(labels[0], Label { label: 10, instance_id: 1 });
    assert_eq!(labels[1], Label { label: 0xFF, instance_id: 0x0102 });
}

#[test]
fn points_round_trip_bit_for_bit() {
    // Decode, re-encode, decode: the second decode sees the same values,
    // including patterns that are NaN or denormal as floats.
    let mut bytes = le(&[
        0x3F800000, 0x7FC00001, 0x00000001, 0xFFFFFFFF, 0x80000000, 0x7F800000, 0, 42,
    ]);
    bytes.push(0x55); // trailing byte, dropped by the first decode
    let once = decode_points(&bytes);
    let again = decode_points(&encode_points(&once));
    assert_eq!(once, again);
}

#[test]
fn labels_round_trip_bit_for_bit() {
    let bytes: Vec<u8> = vec![1, 2, 3, 4, 0xFF, 0xFE, 0xFD, 0xFC, 9];
    let once = decode_labels(&bytes);
    let again = decode_labels(&encode_labels(&once));
    assert_eq!(once, again);
}

#[test]
fn encode_points_is_inverse_on_disk_order() {
    let p = Point { x: 7, y: 9, z: 8, remission: 6 };
    let bytes = encode_points(&vec![p]);
    // Words go back out in on-disk order (x, z, y, remission).
    assert_eq!(bytes, le(&[7, 8, 9, 6]));
}

#[test]
fn decode_frame_without_labels() {
    let frame = decode_frame(&le(&[1, 2, 3, 4]), &None);
    assert_eq!(frame.points.len(), 1);
    assert!(frame.labels.is_none());
}

#[test]
fn decode_frame_with_labels_keeps_unequal_lengths() {
    // One point but two labels: the frame is still constructed, and no
    // truncation to the shorter side happens.
    let label_bytes: Vec<u8> = vec![1, 0, 2, 0, 3, 0, 4, 0];
    let frame = decode_frame(&le(&[1, 2, 3, 4]), &Some(label_bytes));
    assert_eq!(frame.points.len(), 1);
    assert_eq!(frame.labels.as_ref().unwrap().len(), 2);
}
