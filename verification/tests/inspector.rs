use std::io::Write;

use vaultfetch::inspect::{
    archive_kind, crc_from_sevenz_entries, crc_hex, get_crc_from_archive, ArchiveKind,
    InspectError,
};

fn zip_with(entries: &[(&str, &[u8])]) -> Vec<u8> {
    let mut cursor = std::io::Cursor::new(Vec::new());
    {
        let mut writer = zip::ZipWriter::new(&mut cursor);
        let options = zip::write::SimpleFileOptions::default();
        for (name, data) in entries {
            writer.start_file(*name, options).unwrap();
            writer.write_all(data).unwrap();
        }
        writer.finish().unwrap();
    }
    cursor.into_inner()
}

fn sevenz_with(entries: &[(&str, &[u8])]) -> Vec<u8> {
    let cursor = std::io::Cursor::new(Vec::new());
    let mut writer = sevenz_rust::SevenZWriter::new(cursor).unwrap();
    for (name, data) in entries {
        let mut entry = sevenz_rust::SevenZArchiveEntry::new();
        entry.name = (*name).to_string();
        writer
            .push_archive_entry(entry, Some(std::io::Cursor::new(data.to_vec())))
            .unwrap();
    }
    writer.finish().unwrap().into_inner()
}

// The 7z header parse happens outside the library, as it does in the
// binary: the listing is handed to the inspector as plain values.
fn sevenz_header(bytes: &[u8]) -> Option<Vec<(bool, bool, u32)>> {
    let len = bytes.len() as u64;
    let cursor = std::io::Cursor::new(bytes.to_vec());
    let reader =
        sevenz_rust::SevenZReader::new(cursor, len, sevenz_rust::Password::empty()).ok()?;
    let mut out: Vec<(bool, bool, u32)> = Vec::new();
    for entry in reader.archive().files.iter() {
        out.push((entry.has_stream(), entry.is_directory(), entry.crc as u32));
    }
    Some(out)
}

// The CRC32 of the bytes b"123456789" is the standard check value.
const CHECK_CRC: &str = "cbf43926";

#[test]
fn zip_first_entry_crc() {
    let bytes = zip_with(&[("a.bin", b"123456789")]);
    assert_eq!(get_crc_from_archive("x.zip", &bytes, None).unwrap(), CHECK_CRC);
}

#[test]
fn zip_extension_is_case_insensitive() {
    let bytes = zip_with(&[("a.bin", b"123456789")]);
    assert_eq!(get_crc_from_archive("x.ZIP", &bytes, None).unwrap(), CHECK_CRC);
}

#[test]
fn zip_skips_empty_entry() {
    // The first entry records checksum zero (it has no data), so the
    // second entry's checksum is reported.
    let bytes = zip_with(&[("empty.bin", b""), ("a.bin", b"123456789")]);
    assert_eq!(get_crc_from_archive("x.zip", &bytes, None).unwrap(), CHECK_CRC);
}

#[test]
fn zip_without_qualifying_entry_is_not_found() {
    let bytes = zip_with(&[("empty.bin", b"")]);
    assert_eq!(get_crc_from_archive("x.zip", &bytes, None), Err(InspectError::NotFound));
}

#[test]
fn zip_garbage_is_corrupt() {
    assert_eq!(
        get_crc_from_archive("x.zip", b"this is not an archive", None),
        Err(InspectError::CorruptArchive)
    );
}

#[test]
fn sevenz_first_entry_crc() {
    let bytes = sevenz_with(&[("a.bin", b"123456789")]);
    let header = sevenz_header(&bytes);
    assert!(header.is_some());
    assert_eq!(
        get_crc_from_archive("x.7z", &bytes, header.as_ref()).unwrap(),
        CHECK_CRC
    );
}

#[test]
fn sevenz_unreadable_header_is_corrupt() {
    let bytes = b"this is not an archive";
    let header = sevenz_header(bytes);
    assert_eq!(header, None);
    assert_eq!(
        get_crc_from_archive("x.7z", bytes, header.as_ref()),
        Err(InspectError::CorruptArchive)
    );
}

#[test]
fn sevenz_listing_selection() {
    // Entries without a stream, directories and zero checksums are all
    // passed over; the first qualifying entry's checksum is reported.
    let listing: Vec<(bool, bool, u32)> = vec![
        (false, false, 5),
        (true, true, 7),
        (true, false, 0),
        (true, false, 0xcbf43926),
        (true, false, 0x11111111),
    ];
    assert_eq!(crc_from_sevenz_entries(&listing).unwrap(), CHECK_CRC);
}

#[test]
fn sevenz_listing_without_qualifying_entry_is_not_found() {
    let listing: Vec<(bool, bool, u32)> = vec![(false, false, 5), (true, true, 7)];
    assert_eq!(crc_from_sevenz_entries(&listing), Err(InspectError::NotFound));
}

#[test]
fn unsupported_extension_is_fatal() {
    let bytes = zip_with(&[("a.bin", b"123456789")]);
    assert_eq!(
        get_crc_from_archive("x.rar", &bytes, None),
        Err(InspectError::UnsupportedFormat)
    );
    assert_eq!(
        get_crc_from_archive("noext", &bytes, None),
        Err(InspectError::UnsupportedFormat)
    );
}

#[test]
fn pending_staging_file_is_never_an_archive() {
    // Even bytes that form a valid archive are refused under the staging
    // name: only the post-rename path name counts as an archive artifact.
    let bytes = zip_with(&[("a.bin", b"123456789")]);
    assert_eq!(
        get_crc_from_archive("Game (USA).zip.pending", &bytes, None),
        Err(InspectError::UnsupportedFormat)
    );
    let bytes7 = sevenz_with(&[("a.bin", b"123456789")]);
    let header = sevenz_header(&bytes7);
    assert_eq!(
        get_crc_from_archive("Game (USA).7z.pending", &bytes7, header.as_ref()),
        Err(InspectError::UnsupportedFormat)
    );
}

#[test]
fn archive_kind_dispatch() {
    assert_eq!(archive_kind("a.7z"), Some(ArchiveKind::SevenZ));
    assert_eq!(archive_kind("a.zip"), Some(ArchiveKind::Zip));
    assert_eq!(archive_kind("dir.zip/inner"), None);
    assert_eq!(archive_kind(".zip"), None);
    assert_eq!(archive_kind("a.tar"), None);
}

#[test]
fn crc_hex_pads_to_eight_digits() {
    assert_eq!(crc_hex(0xcbf43926), "cbf43926");
    assert_eq!(crc_hex(0x1a2b), "00001a2b");
    assert_eq!(crc_hex(0), "00000000");
    assert_eq!(crc_hex(0x1_0000_0000), "100000000");
}
