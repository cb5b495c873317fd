use std::io::Write;

use flate2::write::GzEncoder;
use flate2::Compression;
use rustml::{load_data, records_from, Error, MnistData};

fn gzip(bytes: &[u8]) -> Vec<u8> {
    let mut enc = GzEncoder::new(Vec::new(), Compression::default());
    enc.write_all(bytes).unwrap();
    enc.finish().unwrap()
}

fn label_stream(labels: &[u8]) -> Vec<u8> {
    let mut v = vec![0, 0, 8, 1];
    v.extend_from_slice(&(labels.len() as u32).to_be_bytes());
    v.extend_from_slice(labels);
    v
}

fn image_stream(count: u32, height: u32, width: u32, pixels: &[u8]) -> Vec<u8> {
    let mut v = vec![0, 0, 8, 3];
    v.extend_from_slice(&count.to_be_bytes());
    v.extend_from_slice(&height.to_be_bytes());
    v.extend_from_slice(&width.to_be_bytes());
    v.extend_from_slice(pixels);
    v
}

#[test]
fn label_stream_yields_its_labels() {
    let d = MnistData::new(&gzip(&label_stream(&[1, 2, 3]))).unwrap();
    assert_eq!(d.sizes, vec![3]);
    assert_eq!(d.data, vec![1, 2, 3]);
}

#[test]
fn image_stream_pairs_with_labels() {
    let labels = gzip(&label_stream(&[7, 4]));
    let images = gzip(&image_stream(2, 2, 2, &[0, 255, 0, 255, 0, 255, 0, 255]));
    let recs = load_data(&labels, &images).unwrap();
    assert_eq!(recs.len(), 2);
    for r in &recs {
        let norm: Vec<f64> = r.image.iter().map(|&p| p as f64 / 255.0).collect();
        assert_eq!(norm, vec![0.0, 1.0, 0.0, 1.0]);
    }
    assert_eq!(recs[0].classification, 7);
    assert_eq!(recs[1].classification, 4);
}

#[test]
fn images_are_split_in_order() {
    let labels = MnistData::parse(&label_stream(&[9, 8, 5])).unwrap();
    let pixels: Vec<u8> = (0u8..18).collect();
    let images = MnistData::parse(&image_stream(3, 3, 2, &pixels)).unwrap();
    let recs = records_from(&labels, &images).unwrap();
    assert_eq!(recs.len(), 3);
    assert_eq!(recs[0].image, vec![0, 1, 2, 3, 4, 5]);
    assert_eq!(recs[1].image, vec![6, 7, 8, 9, 10, 11]);
    assert_eq!(recs[2].image, vec![12, 13, 14, 15, 16, 17]);
    assert_eq!(recs[2].classification, 5);
}

#[test]
fn unknown_magic_is_a_format_error() {
    let mut raw = vec![0, 0, 0x27, 0x0f];
    raw.extend_from_slice(&[0, 0, 0, 1, 42]);
    assert!(matches!(MnistData::parse(&raw), Err(Error::Format)));
    assert!(matches!(MnistData::new(&gzip(&raw)), Err(Error::Format)));
}

#[test]
fn mismatched_counts_are_rejected() {
    let labels = gzip(&label_stream(&[1, 2, 3]));
    let images = gzip(&image_stream(2, 2, 2, &[0; 8]));
    assert!(matches!(load_data(&labels, &images), Err(Error::LengthMismatch)));
}

#[test]
fn short_payload_is_truncated() {
    let raw = image_stream(2, 2, 2, &[0; 7]);
    assert!(matches!(MnistData::parse(&raw), Err(Error::TruncatedData)));
    let mut labels = label_stream(&[1, 2, 3]);
    labels.push(4);
    assert!(matches!(MnistData::parse(&labels), Err(Error::TruncatedData)));
}

#[test]
fn short_header_is_truncated() {
    assert!(matches!(MnistData::parse(&vec![0, 0, 8]), Err(Error::TruncatedData)));
    assert!(matches!(MnistData::parse(&vec![0, 0, 8, 3, 0, 0, 0, 1]), Err(Error::TruncatedData)));
    assert!(matches!(MnistData::parse(&vec![0, 0, 8, 1, 0]), Err(Error::TruncatedData)));
}

#[test]
fn plain_bytes_are_a_decompression_error() {
    assert!(matches!(MnistData::new(&label_stream(&[1, 2])), Err(Error::Decompression)));
}

#[test]
fn swapped_streams_are_a_format_error() {
    let labels = MnistData::parse(&label_stream(&[1])).unwrap();
    let images = MnistData::parse(&image_stream(1, 1, 1, &[5])).unwrap();
    assert!(matches!(records_from(&images, &labels), Err(Error::Format)));
    assert_eq!(records_from(&labels, &images).unwrap()[0].image, vec![5]);
}

#[test]
fn empty_dataset_has_no_records() {
    let labels = MnistData::parse(&label_stream(&[])).unwrap();
    let images = MnistData::parse(&image_stream(0, 28, 28, &[])).unwrap();
    assert!(records_from(&labels, &images).unwrap().is_empty());
}
