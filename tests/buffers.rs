use hornyloader::assemble::misaligned_objects;
use hornyloader::buffers::{copy_records, renumber_indices, split_records};
use hornyloader::model::ObjectBuffers;

fn record(stride: usize, seed: u8) -> Vec<u8> {
    (0..stride).map(|i| seed.wrapping_add(i as u8)).collect()
}

#[test]
fn split_then_join_gives_back_the_record() {
    let stride = 80;
    let mut buf = record(stride, 1);
    buf.extend(record(stride, 100));
    let (mut p, mut b, mut t) = (vec![], vec![], vec![]);
    split_records(&buf, stride, &mut p, &mut b, &mut t);
    assert_eq!(p.len(), 80);
    assert_eq!(b.len(), 64);
    assert_eq!(t.len(), 16);
    for r in 0..2 {
        let mut joined = p[40 * r..40 * r + 40].to_vec();
        joined.extend(&b[32 * r..32 * r + 32]);
        joined.extend(&t[8 * r..8 * r + 8]);
        assert_eq!(joined, buf[r * stride..(r + 1) * stride].to_vec());
    }
}

#[test]
fn split_with_exact_blend_stride_has_no_texcoord() {
    let buf = record(72, 3);
    let (mut p, mut b, mut t) = (vec![9], vec![], vec![]);
    split_records(&buf, 72, &mut p, &mut b, &mut t);
    assert_eq!(p.len(), 41);
    assert_eq!(p[0], 9);
    assert_eq!(b, buf[40..72].to_vec());
    assert!(t.is_empty());
}

#[test]
fn split_leaves_out_a_short_remainder() {
    let mut buf = record(76, 0);
    buf.extend([1, 2, 3]);
    let (mut p, mut b, mut t) = (vec![], vec![], vec![]);
    split_records(&buf, 76, &mut p, &mut b, &mut t);
    assert_eq!(p.len() + b.len() + t.len(), 76);
}

#[test]
fn copy_keeps_whole_records_only() {
    let buf: Vec<u8> = (0..100).collect();
    let mut out = vec![];
    copy_records(&buf, 44, &mut out);
    assert_eq!(out, buf[..88].to_vec());
}

#[test]
fn empty_buffer_adds_nothing() {
    let mut out = vec![7];
    copy_records(&vec![], 44, &mut out);
    assert_eq!(out, vec![7]);
}

fn encode(v: &[u32]) -> Vec<u8> {
    v.iter().flat_map(|x| x.to_le_bytes()).collect()
}

#[test]
fn renumber_adds_offset_to_each_index() {
    assert_eq!(renumber_indices(&encode(&[0, 1, 2]), 2), encode(&[2, 3, 4]));
    assert_eq!(renumber_indices(&encode(&[0, 300, 70000]), 0), encode(&[0, 300, 70000]));
}

#[test]
fn renumber_wraps_at_four_bytes() {
    assert_eq!(renumber_indices(&encode(&[u32::MAX]), 1), encode(&[0]));
}

#[test]
fn renumber_leaves_out_a_short_remainder() {
    let mut buf = encode(&[5]);
    buf.extend([1, 2]);
    assert_eq!(renumber_indices(&buf, 1), encode(&[6]));
}

#[test]
fn misaligned_objects_are_reported() {
    let objs = vec![
        ObjectBuffers { vb: vec![0; 88], ib: vec![0; 12] },
        ObjectBuffers { vb: vec![0; 90], ib: vec![0; 12] },
        ObjectBuffers { vb: vec![0; 44], ib: vec![0; 13] },
    ];
    assert_eq!(misaligned_objects(&objs, 44), vec![1, 2]);
}
