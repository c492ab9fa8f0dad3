use std::io::Write;

use matterpackr::errors::ErrorKind;
use matterpackr::raw_stream::{
    bz2_compression_level, compress_raw, create_raw_compressed, decompress_raw,
    gz_compression_level, inspect_raw_compressed, raw_keeps_file, raw_output_name,
};

const CONTENT: &[u8] = b"Libarchive TAR backend test, repeated: aaaaaaaaaaaaaaaaaaaaaaaaaaaaaaaa";

#[test]
fn compression_levels() {
    assert_eq!(gz_compression_level("Fast"), 1);
    assert_eq!(gz_compression_level("Maximum"), 9);
    assert_eq!(gz_compression_level("Normal"), 6);
    assert_eq!(gz_compression_level(""), 6);
    assert_eq!(bz2_compression_level(), 9);
}

#[test]
fn gzip_round_trip() {
    for level in ["Fast", "Normal", "Maximum"] {
        let z = compress_raw("gz", level, CONTENT).unwrap();
        assert_eq!(&z[..2], &[0x1f, 0x8b]);
        assert_ne!(z.as_slice(), CONTENT);
        assert_eq!(decompress_raw("gz", &z).unwrap(), CONTENT);
    }
}

#[test]
fn bzip2_round_trip() {
    let z = compress_raw("bz2", "Normal", CONTENT).unwrap();
    assert_eq!(&z[..3], b"BZh");
    assert_eq!(decompress_raw("bz2", &z).unwrap(), CONTENT);
    let e = decompress_raw("bz2", b"definitely not bzip2").err().unwrap();
    assert_eq!(e.kind, ErrorKind::InvalidData);
}

#[test]
fn streams_written_elsewhere_decode() {
    let mut enc = flate2::write::GzEncoder::new(Vec::new(), flate2::Compression::best());
    enc.write_all(CONTENT).unwrap();
    let z = enc.finish().unwrap();
    assert_eq!(decompress_raw("gz", &z).unwrap(), CONTENT);
    let e = decompress_raw("gz", b"not gzip").err().unwrap();
    assert_eq!(e.kind, ErrorKind::InvalidData);
}

#[test]
fn unsupported_stream_formats() {
    let e = compress_raw("xz", "Normal", CONTENT).err().unwrap();
    assert_eq!(e.kind, ErrorKind::InvalidInput);
    assert_eq!(e.message, "Unsupported format: xz");
    let e = decompress_raw("zip", CONTENT).err().unwrap();
    assert_eq!(e.message, "Unsupported format: zip");
    let e = inspect_raw_compressed("a.xz", "xz", CONTENT).err().unwrap();
    assert_eq!(e.kind, ErrorKind::InvalidInput);
    assert_eq!(e.message, "Unsupported format: xz");
}

#[test]
fn stream_listings() {
    let z = compress_raw("gz", "Normal", CONTENT).unwrap();
    let v = inspect_raw_compressed("dir/notes.txt.gz", "gz", &z).unwrap();
    assert_eq!(v.len(), 1);
    assert_eq!(v[0].name, "notes.txt");
    assert_eq!(v[0].kind, "File");
    assert_eq!(v[0].size, CONTENT.len() as u64);
    assert_eq!(v[0].compressed_size, z.len() as u64);
    assert!(!v[0].is_dir && v[0].modified.is_none());
    // The gzip trailer's ISIZE, little-endian.
    let trailer = [0u8, 9, 9, 9, 0x10, 0x27, 0, 1];
    assert_eq!(inspect_raw_compressed("t.gz", "gz", &trailer).unwrap()[0].size, 0x0100_2710);
    assert_eq!(inspect_raw_compressed("t.gz", "gz", b"ab").unwrap()[0].size, 2);
    let b = compress_raw("bz2", "Normal", CONTENT).unwrap();
    let v = inspect_raw_compressed("data.bz2", "bz2", &b).unwrap();
    assert_eq!(v[0].name, "data");
    assert_eq!(v[0].size, CONTENT.len() as u64);
    assert_eq!(inspect_raw_compressed("/", "gz", b"ab").unwrap()[0].name, "compressed-file");
    let e = inspect_raw_compressed("x.bz2", "bz2", b"junk").err().unwrap();
    assert_eq!(e.kind, ErrorKind::InvalidData);
}

#[test]
fn stream_output_names_and_inputs() {
    assert_eq!(raw_output_name("x/data.csv.bz2"), "data.csv");
    assert_eq!(raw_output_name("/"), "output");
    let e = create_raw_compressed(&Vec::new(), "gz", true).err().unwrap();
    assert_eq!(e.kind, ErrorKind::InvalidInput);
    assert_eq!(e.message, ".gz archives contain one compressed file; select exactly one input");
    let two = vec!["a".to_string(), "b".to_string()];
    let e = create_raw_compressed(&two, "bz2", true).err().unwrap();
    assert_eq!(e.message, ".bz2 archives contain one compressed file; select exactly one input");
    let one = vec!["in/file.txt".to_string()];
    let e = create_raw_compressed(&one, "gz", false).err().unwrap();
    assert_eq!(e.message, "GZ/BZ2 creation requires a file");
    assert_eq!(create_raw_compressed(&one, "gz", true).unwrap(), "in/file.txt");
}

#[test]
fn removing_the_file_of_a_stream() {
    let names = vec!["notes.txt".to_string()];
    assert!(!raw_keeps_file("dir/notes.txt.gz", &names));
    assert!(raw_keeps_file("dir/other.txt.gz", &names));
    assert!(raw_keeps_file("dir/notes.txt.gz", &Vec::new()));
    assert!(!raw_keeps_file("/", &vec!["compressed-file".to_string()]));
}
