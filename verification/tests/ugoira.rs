use ugoira_dl::pixiv::types::{IllustId, UgoiraDelay, UgoiraMeta, UgoiraMetaFrame};
use ugoira_dl::ugoira::{
    extract_frames, frames_from_archive, AcquireError, ExtractError, FrameSetError,
    UgoiraDataProvider,
};

fn archive(entries: &[(&str, &[u8])], method: zip::CompressionMethod) -> Vec<u8> {
    let mut writer = zip::ZipWriter::new(std::io::Cursor::new(Vec::new()));
    for (name, content) in entries {
        let options = zip::write::FileOptions::default().compression_method(method);
        writer.start_file(*name, options).unwrap();
        std::io::Write::write_all(&mut writer, content).unwrap();
    }
    writer.finish().unwrap().into_inner()
}

fn meta_frame(name: &str, delay: u32) -> UgoiraMetaFrame {
    UgoiraMetaFrame { file: String::from(name), delay: UgoiraDelay(delay) }
}

#[test]
fn frames_come_out_in_metadata_order() {
    let data = archive(
        &[("000000.jpg", b"first"), ("000001.jpg", b"second"), ("000002.jpg", b"third")],
        zip::CompressionMethod::Stored,
    );
    let meta = vec![
        meta_frame("000002.jpg", 30),
        meta_frame("000000.jpg", 10),
        meta_frame("000001.jpg", 20),
    ];
    let frames = extract_frames(&meta, data).unwrap();
    assert_eq!(frames.len(), 3);
    assert_eq!(frames[0].file, "000002.jpg");
    assert_eq!(frames[0].data, b"third".to_vec());
    assert_eq!(frames[0].delay, UgoiraDelay(30));
    assert_eq!(frames[1].file, "000000.jpg");
    assert_eq!(frames[1].data, b"first".to_vec());
    assert_eq!(frames[1].delay, UgoiraDelay(10));
    assert_eq!(frames[2].file, "000001.jpg");
    assert_eq!(frames[2].data, b"second".to_vec());
    assert_eq!(frames[2].delay, UgoiraDelay(20));
}

#[test]
fn deflated_entries_are_unpacked() {
    let content = vec![7u8; 4000];
    let data = archive(&[("a.png", &content)], zip::CompressionMethod::Deflated);
    assert!(data.len() < content.len());
    let frames = extract_frames(&vec![meta_frame("a.png", 100)], data).unwrap();
    assert_eq!(frames[0].data, content);
}

#[test]
fn entries_that_no_frame_names_are_left_alone() {
    let data = archive(&[("a", b"1"), ("b", b"2")], zip::CompressionMethod::Stored);
    let frames = extract_frames(&vec![meta_frame("b", 5)], data).unwrap();
    assert_eq!(frames.len(), 1);
    assert_eq!(frames[0].data, b"2".to_vec());
}

#[test]
fn a_frame_may_be_listed_twice() {
    let data = archive(&[("a", b"1")], zip::CompressionMethod::Stored);
    let frames = extract_frames(&vec![meta_frame("a", 5), meta_frame("a", 6)], data).unwrap();
    assert_eq!(frames.len(), 2);
    assert_eq!(frames[0].data, frames[1].data);
    assert_eq!(frames[1].delay, UgoiraDelay(6));
}

#[test]
fn no_frames_from_a_valid_archive_is_an_empty_set() {
    let data = archive(&[("a", b"1")], zip::CompressionMethod::Stored);
    assert!(extract_frames(&Vec::new(), data).unwrap().is_empty());
}

#[test]
fn first_missing_entry_is_named() {
    let data = archive(&[("a", b"1"), ("c", b"3")], zip::CompressionMethod::Stored);
    let meta = vec![meta_frame("a", 1), meta_frame("b", 1), meta_frame("d", 1)];
    match extract_frames(&meta, data) {
        Err(ExtractError::Entry { index, reason }) => {
            assert_eq!(index, 1);
            assert!(!reason.is_empty());
        }
        other => panic!("unexpected: {:?}", other),
    }
}

#[test]
fn data_that_is_no_archive_is_refused() {
    let meta = vec![meta_frame("a", 1)];
    assert!(matches!(
        extract_frames(&meta, b"this is no archive".to_vec()),
        Err(ExtractError::InvalidArchive { .. })
    ));
    assert!(matches!(
        extract_frames(&Vec::new(), Vec::new()),
        Err(ExtractError::InvalidArchive { .. })
    ));
}

#[test]
fn an_opened_archive_can_be_read_again() {
    let data = archive(&[("a", b"1"), ("b", b"2")], zip::CompressionMethod::Stored);
    let mut opened = zip::ZipArchive::new(std::io::Cursor::new(data)).unwrap();
    let meta = vec![meta_frame("b", 1), meta_frame("a", 2)];
    let first = frames_from_archive(&meta, &mut opened).unwrap();
    let second = frames_from_archive(&meta, &mut opened).unwrap();
    assert_eq!(first[0].data, b"2".to_vec());
    assert_eq!(first[1].data, b"1".to_vec());
    assert_eq!(second[0].data, first[0].data);
    assert_eq!(second[1].data, first[1].data);
    assert!(matches!(
        frames_from_archive(&vec![meta_frame("zz", 1)], &mut opened),
        Err(ExtractError::Entry { index: 0, .. })
    ));
}

#[test]
fn metadata_is_asked_for_under_the_identifier() {
    let provider = UgoiraDataProvider::new(IllustId(44));
    assert_eq!(provider.request(), "https://www.pixiv.net/ajax/illust/44/ugoira_meta");
}

#[test]
fn metadata_names_the_download() {
    let provider = UgoiraDataProvider::new(IllustId(44));
    let meta = UgoiraMeta {
        original_src: String::from("https://example.org/44.zip"),
        frames: vec![meta_frame("a", 1), meta_frame("b", 2)],
    };
    let download = provider.download(Ok(meta)).unwrap();
    assert_eq!(download.source, "https://example.org/44.zip");
    assert_eq!(download.frames.len(), 2);
    assert_eq!(download.frames[1].file, "b");
    assert_eq!(download.frames[1].delay, UgoiraDelay(2));
}

#[test]
fn failed_metadata_ends_the_attempt() {
    let provider = UgoiraDataProvider::new(IllustId(44));
    match provider.download(Err(String::from("not found"))) {
        Err(AcquireError::Metadata(reason)) => assert_eq!(reason, "not found"),
        other => panic!("unexpected: {:?}", other),
    }
}

#[test]
fn failed_download_ends_the_attempt() {
    let provider = UgoiraDataProvider::new(IllustId(44));
    match provider.into(&vec![meta_frame("a", 1)], Err(String::from("timeout"))) {
        Err(AcquireError::Download(reason)) => assert_eq!(reason, "timeout"),
        other => panic!("unexpected: {:?}", other),
    }
}

#[test]
fn download_becomes_frames() {
    let provider = UgoiraDataProvider::new(IllustId(44));
    let data = archive(&[("a", b"image")], zip::CompressionMethod::Stored);
    let frames = provider.into(&vec![meta_frame("a", 70)], Ok(data)).unwrap();
    assert_eq!(frames.len(), 1);
    assert_eq!(frames[0].file, "a");
    assert_eq!(frames[0].data, b"image".to_vec());
    assert_eq!(frames[0].delay, UgoiraDelay(70));
}

#[test]
fn bad_archive_is_an_extraction_failure() {
    let provider = UgoiraDataProvider::new(IllustId(44));
    assert!(matches!(
        provider.into(&vec![meta_frame("a", 1)], Ok(vec![1, 2, 3])),
        Err(AcquireError::FrameExtraction(ExtractError::InvalidArchive { .. }))
    ));
    let data = archive(&[("a", b"image")], zip::CompressionMethod::Stored);
    assert!(matches!(
        provider.into(&vec![meta_frame("b", 1)], Ok(data)),
        Err(AcquireError::FrameExtraction(ExtractError::Entry { index: 0, .. }))
    ));
}

/// An archive with one stored, empty entry whose directory record carries
/// the extra field `extra`.
fn archive_with_extra_field(name: &str, extra: &[u8]) -> Vec<u8> {
    let mut bytes: Vec<u8> = Vec::new();
    // the entry's own header, then no data
    bytes.extend([0x50, 0x4b, 0x03, 0x04]);
    bytes.extend([20, 0, 0, 0, 0, 0, 0, 0, 0, 0]);
    bytes.extend([0; 12]);
    bytes.extend((name.len() as u16).to_le_bytes());
    bytes.extend([0, 0]);
    bytes.extend(name.as_bytes());
    let directory_start = bytes.len() as u32;
    // the directory record
    bytes.extend([0x50, 0x4b, 0x01, 0x02]);
    bytes.extend([20, 0, 20, 0, 0, 0, 0, 0, 0, 0, 0, 0]);
    bytes.extend([0; 12]);
    bytes.extend((name.len() as u16).to_le_bytes());
    bytes.extend((extra.len() as u16).to_le_bytes());
    bytes.extend([0; 10]);
    bytes.extend([0, 0, 0, 0]);
    bytes.extend(name.as_bytes());
    bytes.extend(extra);
    let directory_len = bytes.len() as u32 - directory_start;
    // the end of the directory
    bytes.extend([0x50, 0x4b, 0x05, 0x06, 0, 0, 0, 0, 1, 0, 1, 0]);
    bytes.extend(directory_len.to_le_bytes());
    bytes.extend(directory_start.to_le_bytes());
    bytes.extend([0, 0]);
    bytes
}

#[test]
fn hand_made_archive_is_read_like_any_other() {
    let data = archive_with_extra_field("a", &[]);
    let frames = extract_frames(&vec![meta_frame("a", 9)], data).unwrap();
    assert_eq!(frames.len(), 1);
    assert!(frames[0].data.is_empty());
}

#[test]
fn entry_marked_for_a_cipher_without_the_encryption_flag_is_refused() {
    let cipher_field = [0x01, 0x99, 7, 0, 2, 0, 0x41, 0x45, 3, 0, 0];
    let data = archive_with_extra_field("a", &cipher_field);
    match extract_frames(&vec![meta_frame("a", 9)], data.clone()) {
        Err(ExtractError::Entry { index, reason }) => {
            assert_eq!(index, 0);
            assert!(!reason.is_empty());
        }
        other => panic!("unexpected: {:?}", other),
    }
    assert!(extract_frames(&Vec::new(), data).unwrap().is_empty());
}

#[test]
fn acquisition_without_frames_is_no_animation() {
    let provider = UgoiraDataProvider::new(IllustId(44));
    let data = archive(&[("a", b"image")], zip::CompressionMethod::Stored);
    assert!(matches!(
        provider.into(&Vec::new(), Ok(data)),
        Err(AcquireError::FrameSet(FrameSetError::Empty))
    ));
}

#[test]
fn acquisition_with_a_frame_without_delay_is_no_animation() {
    let provider = UgoiraDataProvider::new(IllustId(44));
    let data = archive(&[("a", b"1"), ("b", b"2")], zip::CompressionMethod::Stored);
    assert!(matches!(
        provider.into(&vec![meta_frame("a", 10), meta_frame("b", 0)], Ok(data)),
        Err(AcquireError::FrameSet(FrameSetError::ZeroDelay { index: 1 }))
    ));
}

#[test]
fn acquisition_with_a_repeated_name_is_no_animation() {
    let provider = UgoiraDataProvider::new(IllustId(44));
    let data = archive(&[("a", b"1"), ("b", b"2")], zip::CompressionMethod::Stored);
    assert!(matches!(
        provider.into(&vec![meta_frame("a", 10), meta_frame("b", 10), meta_frame("a", 10)], Ok(data)),
        Err(AcquireError::FrameSet(FrameSetError::DuplicateName { index: 2 }))
    ));
}

#[test]
fn acquisition_that_lasts_too_long_is_no_animation() {
    let provider = UgoiraDataProvider::new(IllustId(44));
    let data = archive(&[("a", b"1"), ("b", b"2")], zip::CompressionMethod::Stored);
    assert!(matches!(
        provider.into(&vec![meta_frame("a", u32::MAX), meta_frame("b", 1)], Ok(data)),
        Err(AcquireError::FrameSet(FrameSetError::TooLong))
    ));
}

#[test]
fn missing_entry_is_found_before_a_defect_of_the_frames() {
    let provider = UgoiraDataProvider::new(IllustId(44));
    let data = archive(&[("a", b"1")], zip::CompressionMethod::Stored);
    assert!(matches!(
        provider.into(&vec![meta_frame("a", 0), meta_frame("b", 0)], Ok(data)),
        Err(AcquireError::FrameExtraction(ExtractError::Entry { index: 1, .. }))
    ));
}

#[test]
fn acquired_frames_are_an_animation() {
    let provider = UgoiraDataProvider::new(IllustId(44));
    let data = archive(&[("a", b"1"), ("b", b"2")], zip::CompressionMethod::Stored);
    let frames = provider.into(&vec![meta_frame("b", 20), meta_frame("a", 10)], Ok(data)).unwrap();
    assert_eq!(ugoira_dl::ugoira::check_frame_set(&frames), Ok(()));
    assert_eq!(frames[0].file, "b");
    assert_eq!(frames[1].file, "a");
}
