use proof_gateway::archive::{decompress_zip_data, Corrupt};
use std::io::Write;

fn zip_of(entries: &[(&str, &[u8])], method: zip::CompressionMethod) -> Vec<u8> {
    let mut writer = zip::ZipWriter::new(std::io::Cursor::new(Vec::new()));
    let options = zip::write::FileOptions::default().compression_method(method);
    for (name, content) in entries {
        writer.start_file(*name, options).unwrap();
        writer.write_all(content).unwrap();
    }
    writer.finish().unwrap().into_inner()
}

#[test]
fn single_entry_is_returned() {
    let data = zip_of(&[("trace.bin", b"hello trace")], zip::CompressionMethod::Deflated);
    assert_ne!(data, b"hello trace".to_vec());
    assert_eq!(decompress_zip_data(data), Ok(b"hello trace".to_vec()));
}

#[test]
fn stored_entry_is_returned() {
    let data = zip_of(&[("a", &[1, 2, 3, 4])], zip::CompressionMethod::Stored);
    assert_eq!(decompress_zip_data(data), Ok(vec![1, 2, 3, 4]));
}

#[test]
fn entries_are_joined_in_order() {
    let data = zip_of(
        &[("b", b"first-"), ("a", b"second-"), ("c", b"third")],
        zip::CompressionMethod::Deflated,
    );
    assert_eq!(decompress_zip_data(data), Ok(b"first-second-third".to_vec()));
}

#[test]
fn archive_without_entries_is_empty() {
    let data = zip_of(&[], zip::CompressionMethod::Stored);
    assert_eq!(decompress_zip_data(data), Ok(vec![]));
}

#[test]
fn empty_upload_is_corrupt() {
    assert_eq!(decompress_zip_data(vec![]), Err(Corrupt));
}

#[test]
fn garbage_upload_is_corrupt() {
    assert_eq!(decompress_zip_data(b"this is no archive at all".to_vec()), Err(Corrupt));
}

#[test]
fn damaged_entry_is_corrupt() {
    let content = [0x5au8; 64];
    let mut data = zip_of(&[("a", &content)], zip::CompressionMethod::Stored);
    let at = data.windows(8).position(|w| w == [0x5a; 8]).unwrap();
    data[at] ^= 0xff;
    assert_eq!(decompress_zip_data(data), Err(Corrupt));
}
