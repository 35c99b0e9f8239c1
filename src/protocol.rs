use crate::error::YunPanError;
use vstd::prelude::*;

verus! {

/// Declares serde_json's error type, which the encoder's signature names.
#[verifier::external_type_specification]
#[verifier::external_body]
pub struct ExJsonError(serde_json::Error);

/// Text of the JSON array of the given strings, in order.
pub uninterp spec fn json_string_array(items: Seq<Seq<char>>) -> Seq<char>;

/// The texts of a list of strings.
pub open spec fn texts(v: Seq<String>) -> Seq<Seq<char>> {
    v.map_values(|s: String| s@)
}

/// Relies on serde_json::to_string: the JSON array of the strings. It fails
/// only when a `Serialize` impl fails or a map has a non-string key, neither
/// of which a list of strings has, so it always succeeds here.
#[verifier::external_body]
fn to_json_array(items: &Vec<String>) -> (r: Result<String, serde_json::Error>)
    ensures
        r is Ok,
        r is Ok ==> r->Ok_0@ == json_string_array(texts(items@)),
{
    serde_json::to_string(items)
}

/// `rtype` value that makes the remote service overwrite an existing file.
pub const RTYPE_OVERWRITE: u32 = 3;

/// The block list as the JSON text the remote service expects.
pub fn block_list_json(block_list: &Vec<String>) -> (r: String)
    ensures
        r@ == json_string_array(texts(block_list@)),
{
    match to_json_array(block_list) {
        Ok(s) => s,
        Err(_) => {
            proof {
                assert(false);
            }
            String::new()
        },
    }
}

/// Announces an upload: destination, size and block list.
#[derive(Debug)]
pub struct XPanFilePreCreateRequest {
    pub path: String,
    pub size: u64,
    /// `0`: a file.
    pub isdir: u8,
    pub rtype: u32,
    /// Always `1`.
    pub autoinit: u32,
    pub uploadid: Option<String>,
    /// JSON array of the slice digests.
    pub block_list: String,
}

impl XPanFilePreCreateRequest {
    pub fn new(path: &str, size: u64, block_list: &Vec<String>) -> (q: XPanFilePreCreateRequest)
        ensures
            q.path@ == path@,
            q.size == size,
            q.isdir == 0,
            q.rtype == RTYPE_OVERWRITE,
            q.autoinit == 1,
            q.uploadid is None,
            q.block_list@ == json_string_array(texts(block_list@)),
    {
        XPanFilePreCreateRequest {
            path: path.to_owned(),
            size,
            isdir: 0,
            rtype: RTYPE_OVERWRITE,
            autoinit: 1,
            uploadid: None,
            block_list: block_list_json(block_list),
        }
    }
}

/// Commits the uploaded slices into a file.
#[derive(Debug)]
pub struct XPanFileCreateRequest {
    pub path: String,
    pub size: u64,
    pub isdir: u8,
    pub rtype: u32,
    /// JSON array of the slice digests, as sent at precreate.
    pub block_list: String,
    pub uploadid: String,
}

impl XPanFileCreateRequest {
    pub fn new(path: &str, size: u64, block_list: &Vec<String>, upload_id: &str) -> (q:
        XPanFileCreateRequest)
        ensures
            q.path@ == path@,
            q.size == size,
            q.isdir == 0,
            q.rtype == RTYPE_OVERWRITE,
            q.block_list@ == json_string_array(texts(block_list@)),
            q.uploadid@ == upload_id@,
    {
        XPanFileCreateRequest {
            path: path.to_owned(),
            size,
            isdir: 0,
            rtype: RTYPE_OVERWRITE,
            block_list: block_list_json(block_list),
            uploadid: upload_id.to_owned(),
        }
    }
}

/// Reply to a precreate request.
#[derive(Debug)]
pub struct XPanPrecreateResponse {
    /// `0` on success; absent or any other value is a failure.
    pub errno: Option<i64>,
    pub request_id: u64,
    pub upload_id: String,
    pub return_type: u32,
    /// Indices of the slices the service still needs.
    pub block_list: Vec<u32>,
}

/// Reply to a slice upload.
#[derive(Debug)]
pub struct XPanUploadResponse {
    /// Digest of the bytes the service received.
    pub md5: String,
    /// Absent or `0` on success.
    pub error_code: Option<i64>,
    pub error_msg: Option<String>,
}

/// Reply to a finalize (create) request: the new file's metadata.
#[derive(Debug)]
pub struct XPanCreateResponse {
    /// `0` on success; absent or any other value is a failure.
    pub errno: Option<i64>,
    pub fs_id: u64,
    pub md5: String,
    pub category: u32,
    pub server_filename: Option<String>,
    pub path: String,
    pub size: u64,
    pub ctime: u64,
    pub mtime: u64,
    pub isdir: u8,
}

/// `e` is a protocol error carrying `raw`.
pub open spec fn is_protocol_error(e: YunPanError, raw: Seq<char>) -> bool {
    e is Protocol && e->Protocol_0@ == raw
}

/// Judges a precreate reply: `parsed` is the reply read from `raw`, `None`
/// when `raw` could not be read. Success needs `errno == 0`.
pub fn check_precreate(raw: &str, parsed: Option<XPanPrecreateResponse>) -> (r: Result<
    XPanPrecreateResponse,
    YunPanError,
>)
    ensures
        parsed is Some && parsed->0.errno == Some(0i64) ==> r == Ok::<
            XPanPrecreateResponse,
            YunPanError,
        >(parsed->0),
        !(parsed is Some && parsed->0.errno == Some(0i64)) ==> r is Err && is_protocol_error(
            r->Err_0,
            raw@,
        ),
{
    match parsed {
        Some(p) => {
            if p.errno == Some(0i64) {
                Ok(p)
            } else {
                Err(YunPanError::Protocol(raw.to_owned()))
            }
        },
        None => Err(YunPanError::Protocol(raw.to_owned())),
    }
}

/// `e` is a rejection of slice `seq` carrying `raw`.
pub open spec fn is_slice_rejected(e: YunPanError, seq: u64, raw: Seq<char>) -> bool {
    e is SliceRejected && e->SliceRejected_seq == seq && e->SliceRejected_raw@ == raw
}

/// Judges the reply to the upload of slice `seq`, whose local digest is
/// `expected`: an unreadable reply or a non-zero error code rejects the slice
/// (a protocol error naming it); a digest other than `expected` is an
/// integrity mismatch.
pub fn check_upload(seq: u64, expected: &str, raw: &str, parsed: Option<XPanUploadResponse>) -> (r:
    Result<(), YunPanError>)
    ensures
        parsed is None ==> r is Err && is_slice_rejected(r->Err_0, seq, raw@),
        parsed is Some ==> {
            let p = parsed->0;
            let code_ok = p.error_code is None || p.error_code == Some(0i64);
            &&& !code_ok ==> r is Err && is_slice_rejected(r->Err_0, seq, raw@)
            &&& code_ok && p.md5@ != expected@ ==> r is Err && r->Err_0 is IntegrityMismatch
                && r->Err_0->IntegrityMismatch_seq == seq && r->Err_0->IntegrityMismatch_expected@ == expected@
                && r->Err_0->IntegrityMismatch_received@ == p.md5@
            &&& code_ok && p.md5@ == expected@ ==> r is Ok
        },
{
    match parsed {
        None => Err(YunPanError::SliceRejected { seq, raw: raw.to_owned() }),
        Some(p) => {
            let code_ok = match p.error_code {
                None => true,
                Some(c) => c == 0,
            };
            if !code_ok {
                return Err(YunPanError::SliceRejected { seq, raw: raw.to_owned() });
            }
            let exp = expected.to_owned();
            if p.md5 == exp {
                Ok(())
            } else {
                Err(YunPanError::IntegrityMismatch { seq, expected: exp, received: p.md5 })
            }
        },
    }
}

/// Judges a finalize reply: success needs `errno == 0`.
pub fn check_create(raw: &str, parsed: Option<XPanCreateResponse>) -> (r: Result<
    XPanCreateResponse,
    YunPanError,
>)
    ensures
        parsed is Some && parsed->0.errno == Some(0i64) ==> r == Ok::<
            XPanCreateResponse,
            YunPanError,
        >(parsed->0),
        !(parsed is Some && parsed->0.errno == Some(0i64)) ==> r is Err && is_protocol_error(
            r->Err_0,
            raw@,
        ),
{
    match parsed {
        Some(p) => {
            if p.errno == Some(0i64) {
                Ok(p)
            } else {
                Err(YunPanError::Protocol(raw.to_owned()))
            }
        },
        None => Err(YunPanError::Protocol(raw.to_owned())),
    }
}

} // verus!
