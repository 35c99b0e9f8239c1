use yunpan_upload::coordinator::{
    cleanup_paths, order_by_seq, CliUploadRequest, Phase, Step, UploadFile, UploadSession,
};
use yunpan_upload::digest::{md5_hex, RangeDigest};
use yunpan_upload::error::YunPanError;
use yunpan_upload::protocol::{
    block_list_json, check_create, check_precreate, check_upload, XPanCreateResponse,
    XPanFileCreateRequest, XPanFilePreCreateRequest, XPanPrecreateResponse, XPanUploadResponse,
};
use yunpan_upload::slice::{
    copy_buffer_size, copy_step, decimal, part_file_name, split_file2, SliceFileInfo,
};

const MIB: u64 = 1024 * 1024;

fn slice(path: &str, seq: u64, size: u64, md5: &str) -> SliceFileInfo {
    SliceFileInfo {
        file_path: path.to_string(),
        size,
        slice_size: size,
        seq,
        md5: md5.to_string(),
    }
}

fn precreate_ok(upload_id: &str) -> XPanPrecreateResponse {
    XPanPrecreateResponse {
        errno: Some(0),
        request_id: 1,
        upload_id: upload_id.to_string(),
        return_type: 1,
        block_list: vec![0, 1],
    }
}

fn create_reply(errno: Option<i64>) -> XPanCreateResponse {
    XPanCreateResponse {
        errno,
        fs_id: 42,
        md5: "abc".to_string(),
        category: 6,
        server_filename: None,
        path: "/apps/asitanokibou/data.bin".to_string(),
        size: 9 * MIB,
        ctime: 1,
        mtime: 2,
        isdir: 0,
    }
}

fn upload_reply(md5: &str, error_code: Option<i64>) -> XPanUploadResponse {
    XPanUploadResponse { md5: md5.to_string(), error_code, error_msg: None }
}

/// A session over two slices with digests "d0" and "d1", already precreated.
fn precreated_session() -> UploadSession {
    let file = UploadFile::new("/data/data.bin", "data.bin", 9 * MIB);
    let slices = vec![slice("/data/data.bin", 1, 5 * MIB, "d1"), slice("/data/data.bin", 0, 4 * MIB, "d0")];
    let (mut session, _) = UploadSession::begin(&file, slices).unwrap();
    let step = session.on_precreate("{\"errno\":0}", Some(precreate_ok("U1")));
    assert!(matches!(step, Step::UploadSlice(0)));
    session
}

#[test]
fn plan_ten_mib_with_four_mib_slices() {
    let plan = split_file2("f.bin", 10 * MIB, 4 * MIB).unwrap();
    let sizes: Vec<u64> = plan.iter().map(|s| s.size).collect();
    let seqs: Vec<u64> = plan.iter().map(|s| s.seq).collect();
    assert_eq!(sizes, vec![4 * MIB, 4 * MIB, 2 * MIB]);
    assert_eq!(seqs, vec![0, 1, 2]);
    assert_eq!(plan[2].offset(), 8 * MIB);
}

#[test]
fn plan_three_mib_is_one_slice_for_any_nominal_size() {
    for nominal in [0, 1, 4 * MIB, 10 * MIB, u64::MAX] {
        let plan = split_file2("f.bin", 3 * MIB, nominal).unwrap();
        assert_eq!(plan.len(), 1);
        assert_eq!(plan[0].size, 3 * MIB);
        assert_eq!(plan[0].seq, 0);
        assert_eq!(plan[0].file_path, "f.bin");
    }
}

#[test]
fn plan_small_and_empty_files_are_one_slice() {
    for total in [0, 1, 4 * MIB] {
        let plan = split_file2("f.bin", total, 5 * MIB).unwrap();
        assert_eq!(plan.len(), 1);
        assert_eq!(plan[0].size, total);
    }
}

#[test]
fn plan_partitions_the_file() {
    for (total, nominal) in [(4 * MIB + 1, 4 * MIB), (12 * MIB, 4 * MIB), (100 * MIB + 7, 6 * MIB)] {
        let plan = split_file2("f.bin", total, nominal).unwrap();
        let mut next = 0u64;
        for (i, s) in plan.iter().enumerate() {
            assert_eq!(s.seq, i as u64);
            assert_eq!(s.offset(), next);
            assert!(s.size > 0);
            next += s.size;
        }
        assert_eq!(next, total);
        assert_eq!(plan.len() as u64, (total + nominal - 1) / nominal);
    }
}

#[test]
fn plan_rejects_nominal_size_below_floor() {
    let r = split_file2("f.bin", 5 * MIB, MIB);
    assert!(matches!(r, Err(YunPanError::Configuration { slice_size }) if slice_size == MIB));
}

#[test]
fn upload_file_split2_and_destination() {
    let file = UploadFile::new("/data/x.bin", "x.bin", 10 * MIB);
    assert_eq!(file.destination(), "/apps/asitanokibou/x.bin");
    let plan = file.split2(4 * MIB).unwrap();
    assert_eq!(plan.len(), 3);
    assert_eq!(plan[0].file_path, "/data/x.bin");
}

#[test]
fn cli_request_rejects_small_chunk_size() {
    assert!(matches!(
        CliUploadRequest::new("a", 4 * MIB - 1),
        Err(YunPanError::Configuration { slice_size }) if slice_size == 4 * MIB - 1
    ));
    let r = CliUploadRequest::new("a", 4 * MIB).unwrap();
    assert_eq!(r.file_path, "a");
    assert_eq!(r.chunk_size, 4 * MIB);
}

#[test]
fn md5_hex_known_values() {
    assert_eq!(md5_hex(b""), "d41d8cd98f00b204e9800998ecf8427e");
    assert_eq!(md5_hex(b"abc"), "900150983cd24fb0d6963f7d28e17f72");
}

fn range_digest(data: &[u8], seq: u64, chunk: usize) -> Result<String, YunPanError> {
    let mut d = RangeDigest::new(seq, data.len() as u64);
    let mut pos = 0usize;
    while d.remaining > 0 {
        let want = d.want().min(chunk);
        let end = (pos + want).min(data.len());
        d.feed(&data[pos..end])?;
        pos = end;
    }
    d.finish()
}

#[test]
fn whole_file_digest_equals_digest_of_joined_slices() {
    let file: Vec<u8> = (0..10_000u32).map(|i| (i * 7 % 251) as u8).collect();
    let whole = range_digest(&file, 0, 333).unwrap();
    assert_eq!(whole, md5_hex(&file));
    let plan = split_file2("f", file.len() as u64, 4 * MIB).unwrap();
    let mut joined = Vec::new();
    for s in &plan {
        let start = s.offset() as usize;
        joined.extend_from_slice(&file[start..start + s.size as usize]);
    }
    assert_eq!(md5_hex(&joined), whole);
}

#[test]
fn range_digest_stops_at_range_end() {
    let mut d = RangeDigest::new(3, 3);
    assert_eq!(d.want(), 3);
    d.feed(b"abcdef").unwrap();
    assert_eq!(d.remaining, 0);
    assert_eq!(d.finish().unwrap(), "900150983cd24fb0d6963f7d28e17f72");
}

#[test]
fn range_digest_reports_truncated_read() {
    let mut d = RangeDigest::new(2, 5);
    d.feed(b"abc").unwrap();
    let e = d.feed(b"").unwrap_err();
    assert!(matches!(e, YunPanError::TruncatedRead { seq: 2, read: 3, expected: 5 }));
    assert!(matches!(d.finish(), Err(YunPanError::TruncatedRead { seq: 2, read: 3, expected: 5 })));
}

#[test]
fn range_digest_buffer_is_one_mib() {
    let d = RangeDigest::new(0, 3 * MIB);
    assert_eq!(d.want(), MIB as usize);
}

#[test]
fn slicing_and_digesting_twice_gives_the_same_plan() {
    let file: Vec<u8> = (0..9_000_000u32).map(|i| (i % 253) as u8).collect();
    let run = || {
        let mut plan = split_file2("f", file.len() as u64, 4 * MIB).unwrap();
        for s in plan.iter_mut() {
            let start = s.offset() as usize;
            s.md5 = md5_hex(&file[start..start + s.size as usize]);
        }
        plan
    };
    let a = run();
    let b = run();
    assert_eq!(a.len(), 3);
    assert_eq!(a.len(), b.len());
    for (x, y) in a.iter().zip(b.iter()) {
        assert_eq!((x.seq, x.size, x.slice_size, &x.md5, &x.file_path), (y.seq, y.size, y.slice_size, &y.md5, &y.file_path));
    }
}

#[test]
fn slice_read_gathers_short_reads() {
    let s = slice("f", 4, 10, "");
    let mut r = s.read();
    assert_eq!(r.want(), 10);
    r.feed(&[1, 2, 3]).unwrap();
    assert_eq!(r.want(), 7);
    r.feed(&[4, 5, 6, 7, 8, 9, 10, 11, 12]).unwrap();
    assert_eq!(r.finish().unwrap(), vec![1, 2, 3, 4, 5, 6, 7, 8, 9, 10]);
}

#[test]
fn slice_read_reports_end_of_file() {
    let s = slice("f", 4, 10, "");
    let mut r = s.read();
    r.feed(&[0; 7]).unwrap();
    assert!(matches!(r.feed(&[]), Err(YunPanError::TruncatedRead { seq: 4, read: 7, expected: 10 })));
    assert!(matches!(r.finish(), Err(YunPanError::TruncatedRead { seq: 4, read: 7, expected: 10 })));
    let big = slice("f", 0, 3 * MIB, "");
    assert_eq!(big.read().want(), MIB as usize);
}

#[test]
fn physical_split_only_above_threshold() {
    assert!(!UploadFile::new("a", "a", 4 * MIB).is_split());
    assert!(UploadFile::new("a", "a", 4 * MIB + 1).is_split());
}

#[test]
fn digest_text_is_32_lower_hex_digits() {
    for data in [&b""[..], &b"abc"[..], &[255u8; 1000][..]] {
        let d = md5_hex(data);
        assert_eq!(d.len(), 32);
        assert!(d.chars().all(|c| c.is_ascii_digit() || ('a'..='f').contains(&c)));
    }
}

#[test]
fn rejected_slice_is_named() {
    let mut session = precreated_session();
    let step = session.on_slice_uploaded("{\"error_code\":31064}", Some(upload_reply("", Some(31064))));
    assert!(matches!(step, Step::Fail(YunPanError::SliceRejected { seq: 0, .. })));
    assert_eq!(session.phase, Phase::Failed);
}

#[test]
fn block_list_is_a_json_array() {
    let v = vec!["a1".to_string(), "b2".to_string()];
    assert_eq!(block_list_json(&v), "[\"a1\",\"b2\"]");
    assert_eq!(block_list_json(&vec![]), "[]");
    let q = XPanFilePreCreateRequest::new("/apps/x", 7, &v);
    assert_eq!(q.path, "/apps/x");
    assert_eq!(q.block_list, "[\"a1\",\"b2\"]");
    assert_eq!((q.isdir, q.rtype, q.autoinit, q.size), (0, 3, 1, 7));
    assert!(q.uploadid.is_none());
    let c = XPanFileCreateRequest::new("/apps/x", 7, &v, "U9");
    assert_eq!((c.path.as_str(), c.size, c.isdir), ("/apps/x", 7, 0));
    assert_eq!(c.block_list, "[\"a1\",\"b2\"]");
    assert_eq!(c.uploadid, "U9");
    assert_eq!(c.rtype, 3);
}

#[test]
fn precreate_reply_checks() {
    assert!(check_precreate("{}", Some(precreate_ok("U"))).is_ok());
    let mut bad = precreate_ok("U");
    bad.errno = Some(-7);
    assert!(matches!(check_precreate("raw", Some(bad)), Err(YunPanError::Protocol(ref s)) if s == "raw"));
    let mut absent = precreate_ok("U");
    absent.errno = None;
    assert!(matches!(check_precreate("raw", Some(absent)), Err(YunPanError::Protocol(_))));
    assert!(matches!(check_precreate("not json", None), Err(YunPanError::Protocol(ref s)) if s == "not json"));
}

#[test]
fn upload_reply_checks() {
    assert!(check_upload(0, "d0", "r", Some(upload_reply("d0", None))).is_ok());
    assert!(check_upload(0, "d0", "r", Some(upload_reply("d0", Some(0)))).is_ok());
    assert!(matches!(
        check_upload(3, "d0", "r", Some(upload_reply("d0", Some(31024)))),
        Err(YunPanError::SliceRejected { seq: 3, ref raw }) if raw == "r"
    ));
    assert!(matches!(
        check_upload(4, "d0", "bad", None),
        Err(YunPanError::SliceRejected { seq: 4, ref raw }) if raw == "bad"
    ));
    match check_upload(5, "d0", "r", Some(upload_reply("zz", None))) {
        Err(YunPanError::IntegrityMismatch { seq, expected, received }) => {
            assert_eq!((seq, expected.as_str(), received.as_str()), (5, "d0", "zz"));
        }
        _ => panic!("expected an integrity mismatch"),
    }
}

#[test]
fn create_reply_checks() {
    assert_eq!(check_create("r", Some(create_reply(Some(0)))).unwrap().fs_id, 42);
    assert!(matches!(check_create("r", Some(create_reply(Some(2)))), Err(YunPanError::Protocol(_))));
    assert!(matches!(check_create("r", Some(create_reply(None))), Err(YunPanError::Protocol(_))));
}

#[test]
fn precreate_failure_ends_attempt_before_any_slice() {
    let file = UploadFile::new("/data/data.bin", "data.bin", 3 * MIB);
    let (mut session, request) = UploadSession::begin(&file, vec![slice("/data/data.bin", 0, 3 * MIB, "d0")]).unwrap();
    assert_eq!(request.path, "/apps/asitanokibou/data.bin");
    assert_eq!(request.block_list, "[\"d0\"]");
    let mut reply = precreate_ok("U1");
    reply.errno = Some(-7);
    let raw = "{\"errno\":-7}";
    let step = session.on_precreate(raw, Some(reply));
    assert!(matches!(step, Step::Fail(YunPanError::Protocol(ref s)) if s == raw));
    assert_eq!(session.phase, Phase::Failed);
    assert_eq!(session.uploaded, 0);
}

#[test]
fn corrupted_slice_fails_with_integrity_mismatch() {
    let mut session = precreated_session();
    let step = session.on_slice_uploaded("{}", Some(upload_reply("d0", None)));
    assert!(matches!(step, Step::UploadSlice(1)));
    let step = session.on_slice_uploaded("{}", Some(upload_reply("corrupted", None)));
    match step {
        Step::Fail(YunPanError::IntegrityMismatch { seq, expected, received }) => {
            assert_eq!(seq, 1);
            assert_eq!(expected, "d1");
            assert_eq!(received, "corrupted");
        }
        _ => panic!("expected an integrity mismatch"),
    }
    assert_eq!(session.phase, Phase::Failed);
}

#[test]
fn full_upload_reaches_finalize() {
    let mut session = precreated_session();
    assert_eq!(session.upload_id, "U1");
    assert_eq!(session.block_list, vec!["d0".to_string(), "d1".to_string()]);
    assert!(matches!(session.on_slice_uploaded("{}", Some(upload_reply("d0", None))), Step::UploadSlice(1)));
    match session.on_slice_uploaded("{}", Some(upload_reply("d1", Some(0)))) {
        Step::Create(q) => {
            assert_eq!(q.path, "/apps/asitanokibou/data.bin");
            assert_eq!(q.size, 9 * MIB);
            assert_eq!(q.uploadid, "U1");
            assert_eq!(q.block_list, "[\"d0\",\"d1\"]");
        }
        _ => panic!("expected the finalize request"),
    }
    assert_eq!(session.phase, Phase::SlicesUploaded);
    match session.on_created("{}", Some(create_reply(Some(0)))) {
        Step::Finish(meta, remove) => {
            assert_eq!(meta.fs_id, 42);
            assert!(remove.is_empty());
        }
        _ => panic!("expected the end of the attempt"),
    }
    assert_eq!(session.phase, Phase::Finalized);
}

#[test]
fn finalize_failure_is_protocol_error() {
    let mut session = precreated_session();
    session.on_slice_uploaded("{}", Some(upload_reply("d0", None)));
    session.on_slice_uploaded("{}", Some(upload_reply("d1", None)));
    let step = session.on_created("bad", Some(create_reply(Some(-8))));
    assert!(matches!(step, Step::Fail(YunPanError::Protocol(ref s)) if s == "bad"));
    assert_eq!(session.phase, Phase::Failed);
}

#[test]
fn transport_failure_ends_attempt() {
    let mut session = precreated_session();
    let step = session.on_failure(YunPanError::Network("timeout".to_string()));
    assert!(matches!(step, Step::Fail(YunPanError::Network(_))));
    assert_eq!(session.phase, Phase::Failed);
}

#[test]
fn begin_orders_slices_and_reports_gaps() {
    let slices = vec![slice("p", 2, 1, "c"), slice("p", 0, 1, "a"), slice("p", 1, 1, "b")];
    let ordered = order_by_seq(&slices).unwrap();
    let md5s: Vec<&str> = ordered.iter().map(|s| s.md5.as_str()).collect();
    assert_eq!(md5s, vec!["a", "b", "c"]);
    let gap = vec![slice("p", 0, 1, "a"), slice("p", 2, 1, "c")];
    assert_eq!(order_by_seq(&gap).unwrap_err(), 1);
    let file = UploadFile::new("p", "p", 2);
    assert!(matches!(UploadSession::begin(&file, gap), Err(YunPanError::MissingSlice { seq: 1 })));
    assert!(matches!(UploadSession::begin(&file, vec![]), Err(YunPanError::MissingSlice { seq: 0 })));
}

#[test]
fn cleanup_removes_every_part_file() {
    let parts = vec![slice("/tmp/a_0.part", 0, 1, ""), slice("/tmp/a_1.part", 1, 1, ""), slice("/tmp/a_2.part", 2, 1, "")];
    let mut removed = cleanup_paths(&parts);
    removed.sort();
    assert_eq!(removed, vec!["/tmp/a_0.part", "/tmp/a_1.part", "/tmp/a_2.part"]);
}

#[test]
fn cleanup_keeps_a_single_source_file() {
    assert!(cleanup_paths(&vec![slice("/data/a", 0, 1, "")]).is_empty());
    let logical = vec![slice("/data/a", 0, 1, ""), slice("/data/a", 1, 1, "")];
    assert!(cleanup_paths(&logical).is_empty());
}

#[test]
fn part_names_and_copy_buffer() {
    assert_eq!(decimal(0), "0");
    assert_eq!(decimal(1234567890), "1234567890");
    assert_eq!(decimal(u64::MAX), u64::MAX.to_string());
    assert_eq!(part_file_name("a.bin", 12), "a.bin_12.part");
    assert_eq!(copy_buffer_size(4 * MIB), 102400);
    assert_eq!(copy_buffer_size(1000), 1000);
    assert_eq!(copy_step(50, 100), 50);
    assert_eq!(copy_step(500, 100), 100);
}
