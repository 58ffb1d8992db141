use awsbck::aws::{
    archive_key, default_archive_name, plan_chunks, str_ends_with, with_archive_extension,
    MultipartUpload, UploadError, UploadStep, CHUNK_SIZE, MAX_CHUNKS, MAX_KEY_BYTES,
};

#[test]
fn extension_is_appended_once() {
    assert_eq!(with_archive_extension("test/test".to_string()), "test/test.tar.gz");
    assert_eq!(with_archive_extension("cron_archive".to_string()), "cron_archive.tar.gz");
    assert_eq!(with_archive_extension("a.tar.gz".to_string()), "a.tar.gz");
    assert_eq!(with_archive_extension("a.tar".to_string()), "a.tar.tar.gz");
    assert_eq!(with_archive_extension(String::new()), ".tar.gz");
    let once = with_archive_extension("x".to_string());
    assert_eq!(with_archive_extension(once.clone()), once);
}

#[test]
fn ends_with_cases() {
    assert!(str_ends_with("abc", "bc"));
    assert!(str_ends_with("abc", ""));
    assert!(!str_ends_with("bc", "abc"));
    assert!(!str_ends_with("abd", "bc"));
    assert!(str_ends_with("ü.tar.gz", ".tar.gz"));
}

#[test]
fn default_names() {
    assert_eq!(default_archive_name(Some("src".to_string())), "awsbck_src.tar.gz");
    assert_eq!(default_archive_name(None), "awsbck_backup.tar.gz");
    assert_eq!(default_archive_name(Some("my data".to_string())), "awsbck_mydata.tar.gz");
    assert_eq!(default_archive_name(Some("🦀".to_string())), "awsbck_.tar.gz");
}

#[test]
fn archive_keys() {
    assert_eq!(archive_key(None, Some("src".to_string())), "awsbck_src.tar.gz");
    assert_eq!(archive_key(Some("test/test".to_string()), Some("src".to_string())), "test/test.tar.gz");
    assert_eq!(archive_key(Some("b.tar.gz".to_string()), None), "b.tar.gz");
}

#[test]
fn plan_errors() {
    assert_eq!(plan_chunks(0).err(), Some(UploadError::EmptyFile));
    assert_eq!(plan_chunks(MAX_CHUNKS * CHUNK_SIZE + 1).err(), Some(UploadError::TooManyChunks));
    assert_eq!(plan_chunks(u64::MAX).err(), Some(UploadError::TooManyChunks));
    assert_eq!(UploadError::EmptyFile.message(), "file size is 0");
    assert_eq!(
        UploadError::TooManyChunks.message(),
        "too many chunks, try increasing the chunk size"
    );
}

#[test]
fn plan_small_file() {
    let p = plan_chunks(1).ok().unwrap();
    assert_eq!(p.file_size(), 1);
    assert_eq!(p.chunk_count(), 1);
    assert_eq!(p.last_chunk_size(), 1);
    let c = p.chunk(0);
    assert_eq!((c.index, c.offset, c.length, c.part_number), (0, 0, 1, 1));
}

#[test]
fn plan_exact_multiple() {
    let p = plan_chunks(2 * CHUNK_SIZE).ok().unwrap();
    assert_eq!(p.chunk_count(), 2);
    assert_eq!(p.last_chunk_size(), CHUNK_SIZE);
    let cs = p.chunks();
    assert_eq!(cs.len(), 2);
    assert_eq!((cs[1].offset, cs[1].length, cs[1].part_number), (CHUNK_SIZE, CHUNK_SIZE, 2));
}

#[test]
fn plan_with_remainder() {
    let size = 3 * CHUNK_SIZE + 17;
    let p = plan_chunks(size).ok().unwrap();
    assert_eq!(p.chunk_count(), 4);
    assert_eq!(p.last_chunk_size(), 17);
    let cs = p.chunks();
    let mut end = 0;
    for (i, c) in cs.iter().enumerate() {
        assert_eq!(c.index, i as u64);
        assert_eq!(c.offset, end);
        assert_eq!(c.part_number, i as i32 + 1);
        end += c.length;
    }
    assert_eq!(end, size);
}

#[test]
fn plan_largest_file() {
    let size = MAX_CHUNKS * CHUNK_SIZE;
    let p = plan_chunks(size).ok().unwrap();
    assert_eq!(p.chunk_count(), MAX_CHUNKS);
    let last = p.chunk(MAX_CHUNKS - 1);
    assert_eq!(last.part_number, 10000);
    assert_eq!(last.offset + last.length, size);
    let total: u64 = p.chunks().iter().map(|c| c.length).sum();
    assert_eq!(total, size);
}

#[test]
fn upload_sends_every_chunk_then_completes() {
    let size = 2 * CHUNK_SIZE + 5;
    let mut upload = MultipartUpload::start(plan_chunks(size).ok().unwrap());
    let mut sent = Vec::new();
    while let UploadStep::Send(chunk) = upload.next_step() {
        sent.push(chunk);
        let tag = if chunk.index == 1 { None } else { Some(format!("tag{}", chunk.index)) };
        upload.record_sent(tag);
    }
    assert!(upload.is_complete());
    assert_eq!(upload.next_step(), UploadStep::Complete);
    assert_eq!(sent.len(), 3);
    assert_eq!(sent[2].length, 5);
    assert_eq!(upload.e_tags(), &vec!["tag0".to_string(), String::new(), "tag2".to_string()]);
    let completion = upload.completion();
    let parts = completion.parts();
    assert_eq!(parts.len(), 3);
    for (i, p) in parts.iter().enumerate() {
        assert_eq!(p.part_number(), Some(i as i32 + 1));
    }
    assert_eq!(parts[0].e_tag(), Some("tag0"));
    assert_eq!(parts[1].e_tag(), Some(""));
    assert_eq!(parts[2].e_tag(), Some("tag2"));
}

#[test]
fn object_keys_fit_s3_limit() {
    let key = archive_key(None, Some("x".repeat(2000)));
    assert_eq!(key.len(), 7 + 1000 + 7);
    assert!(key.len() <= MAX_KEY_BYTES);
}
