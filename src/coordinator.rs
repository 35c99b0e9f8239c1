use crate::error::YunPanError;
use crate::protocol::{
    check_create, check_precreate, check_upload, is_protocol_error, is_slice_rejected, json_string_array, texts,
    XPanCreateResponse, XPanFileCreateRequest, XPanFilePreCreateRequest, XPanPrecreateResponse,
    XPanUploadResponse, RTYPE_OVERWRITE,
};
use crate::slice::{
    plan_accepted, plan_matches, same_slice, split_file2, SliceFileInfo, MIN_SLICE_SIZE,
    SPLIT_THRESHOLD,
};
use vstd::prelude::*;

verus! {

/// Remote directory every file is uploaded into.
pub const REMOTE_DIR: &'static str = "/apps/asitanokibou/";

/// What the caller asks for: a file and a nominal slice size in bytes.
#[derive(Debug)]
pub struct CliUploadRequest {
    pub file_path: String,
    pub chunk_size: u64,
}

impl CliUploadRequest {
    /// Rejects a nominal slice size below 4 MiB before any I/O.
    pub fn new(file_path: &str, chunk_size: u64) -> (r: Result<CliUploadRequest, YunPanError>)
        ensures
            chunk_size >= MIN_SLICE_SIZE ==> r is Ok && r->Ok_0.file_path@ == file_path@
                && r->Ok_0.chunk_size == chunk_size,
            chunk_size < MIN_SLICE_SIZE ==> r == Err::<CliUploadRequest, YunPanError>(
                YunPanError::Configuration { slice_size: chunk_size },
            ),
    {
        if chunk_size < MIN_SLICE_SIZE {
            return Err(YunPanError::Configuration { slice_size: chunk_size });
        }
        Ok(CliUploadRequest { file_path: file_path.to_owned(), chunk_size })
    }
}

/// The file being uploaded: where it is read from, its base name and size.
#[derive(Debug)]
pub struct UploadFile {
    pub file_path: String,
    pub file_name: String,
    pub file_size: u64,
}

/// Remote path of a file with base name `name`.
pub open spec fn destination_of(name: Seq<char>) -> Seq<char> {
    REMOTE_DIR@ + name
}

impl UploadFile {
    pub fn new(file_path: &str, file_name: &str, file_size: u64) -> (r: UploadFile)
        ensures
            r.file_path@ == file_path@,
            r.file_name@ == file_name@,
            r.file_size == file_size,
    {
        UploadFile { file_path: file_path.to_owned(), file_name: file_name.to_owned(), file_size }
    }

    /// The logical slice plan of the file (see `split_file2`).
    pub fn split2(&self, slice_size: u64) -> (r: Result<Vec<SliceFileInfo>, YunPanError>)
        ensures
            r is Ok <==> plan_accepted(self.file_size as int, slice_size as int),
            r is Err ==> r->Err_0 == (YunPanError::Configuration { slice_size }),
            r is Ok ==> plan_matches(
                r->Ok_0@,
                self.file_path@,
                self.file_size as int,
                slice_size as int,
            ),
    {
        split_file2(self.file_path.as_str(), self.file_size, slice_size)
    }

    /// Whether physical slicing copies the file out to part files: only a
    /// file above 4 MiB is split; a smaller one is sent from the source
    /// itself, which is never deleted.
    pub fn is_split(&self) -> (r: bool)
        ensures
            r == (self.file_size > SPLIT_THRESHOLD),
    {
        self.file_size > SPLIT_THRESHOLD
    }

    /// Remote path the file is uploaded to.
    pub fn destination(&self) -> (r: String)
        ensures
            r@ == destination_of(self.file_name@),
    {
        let mut s = String::from_str(REMOTE_DIR);
        s.append(self.file_name.as_str());
        s
    }
}

/// `x` is one of `slices`, field for field.
pub open spec fn is_input_slice(slices: Seq<SliceFileInfo>, x: SliceFileInfo) -> bool {
    exists|j: int| 0 <= j < slices.len() && #[trigger] same_slice(x, slices[j])
}

/// No slice carries sequence number `k`.
pub open spec fn seq_missing(slices: Seq<SliceFileInfo>, k: int) -> bool {
    forall|j: int| 0 <= j < slices.len() ==> (#[trigger] slices[j]).seq != k
}

/// Puts the slices in sequence order: entry `i` of the result is the slice
/// with sequence `i`. Fails with the first sequence number in
/// `0..slices.len()` that no slice carries.
pub fn order_by_seq(slices: &Vec<SliceFileInfo>) -> (r: Result<Vec<SliceFileInfo>, u64>)
    ensures
        r is Ok ==> r->Ok_0@.len() == slices@.len() && forall|i: int|
            0 <= i < slices@.len() ==> (#[trigger] r->Ok_0@[i]).seq == i && is_input_slice(
                slices@,
                r->Ok_0@[i],
            ),
        r is Err ==> r->Err_0 < slices@.len() && seq_missing(slices@, r->Err_0 as int),
        r is Err ==> forall|k: int| 0 <= k < r->Err_0 ==> !#[trigger] seq_missing(slices@, k),
        r is Err <==> exists|k: int| 0 <= k < slices@.len() && #[trigger] seq_missing(slices@, k),
{
    let n = slices.len();
    let mut out: Vec<SliceFileInfo> = Vec::new();
    let mut i: usize = 0;
    while i < n
        invariant
            n == slices@.len(),
            i <= n,
            out@.len() == i,
            forall|k: int|
                0 <= k < i ==> (#[trigger] out@[k]).seq == k && is_input_slice(slices@, out@[k]),
            forall|k: int| 0 <= k < i ==> !#[trigger] seq_missing(slices@, k),
        decreases n - i,
    {
        let mut j: usize = 0;
        let mut found: bool = false;
        while j < n
            invariant
                n == slices@.len(),
                i < n,
                j <= n,
                !found ==> forall|m: int| 0 <= m < j ==> (#[trigger] slices@[m]).seq != i,
                found ==> j < n && slices@[j as int].seq == i,
            ensures
                !found ==> forall|m: int| 0 <= m < n ==> (#[trigger] slices@[m]).seq != i,
                found ==> j < n && slices@[j as int].seq == i,
            decreases n - j,
        {
            if slices[j].seq == i as u64 {
                found = true;
                break;
            }
            j = j + 1;
        }
        if !found {
            proof {
                assert(seq_missing(slices@, i as int));
                assert forall|k: int|
                    0 <= k < slices@.len() && #[trigger] seq_missing(slices@, k) implies k >= i by {
                }
            }
            return Err(i as u64);
        }
        let c = slices[j].copy();
        out.push(c);
        proof {
            assert(same_slice(out@[i as int], slices@[j as int]));
            assert(is_input_slice(slices@, out@[i as int]));
            assert(!seq_missing(slices@, i as int));
        }
        i = i + 1;
    }
    proof {
        assert(forall|k: int| 0 <= k < slices@.len() ==> !#[trigger] seq_missing(slices@, k));
    }
    Ok(out)
}

/// Every path that some slice reads from.
pub open spec fn is_slice_path(slices: Seq<SliceFileInfo>, p: Seq<char>) -> bool {
    exists|j: int| 0 <= j < slices.len() && (#[trigger] slices[j]).file_path@ == p
}

/// All slices read from one file.
pub open spec fn one_path(slices: Seq<SliceFileInfo>) -> bool {
    forall|i: int, j: int|
        0 <= i < slices.len() && 0 <= j < slices.len() ==> (#[trigger] slices[i]).file_path@ == (
        #[trigger] slices[j]).file_path@
}

/// `r` names every slice path once, and nothing else.
pub open spec fn lists_all_paths(r: Seq<String>, slices: Seq<SliceFileInfo>) -> bool {
    &&& forall|i: int|
        0 <= i < slices.len() ==> exists|k: int|
            0 <= k < r.len() && (#[trigger] r[k])@ == (#[trigger] slices[i]).file_path@
    &&& forall|k: int| 0 <= k < r.len() ==> is_slice_path(slices, (#[trigger] r[k])@)
    &&& forall|a: int, b: int| 0 <= a < b < r.len() ==> (#[trigger] r[a])@ != (#[trigger] r[b])@
}

/// The temporary slice files to delete once the upload is done: every
/// distinct slice path, each once, when the slices were written to separate
/// files; none when they all read one file, which is then the source itself.
pub fn cleanup_paths(slices: &Vec<SliceFileInfo>) -> (r: Vec<String>)
    ensures
        one_path(slices@) ==> r@.len() == 0,
        !one_path(slices@) ==> lists_all_paths(r@, slices@),
{
    let n = slices.len();
    let mut distinct: Vec<String> = Vec::new();
    let mut i: usize = 0;
    while i < n
        invariant
            n == slices@.len(),
            i <= n,
            forall|m: int|
                0 <= m < i ==> exists|k: int|
                    0 <= k < distinct@.len() && (#[trigger] distinct@[k])@ == (
                    #[trigger] slices@[m]).file_path@,
            forall|k: int|
                0 <= k < distinct@.len() ==> is_slice_path(slices@, (#[trigger] distinct@[k])@),
            forall|a: int, b: int|
                0 <= a < b < distinct@.len() ==> (#[trigger] distinct@[a])@ != (
                #[trigger] distinct@[b])@,
        decreases n - i,
    {
        let p = &slices[i].file_path;
        let mut k: usize = 0;
        let mut seen: bool = false;
        while k < distinct.len()
            invariant
                k <= distinct@.len(),
                !seen ==> forall|m: int| 0 <= m < k ==> (#[trigger] distinct@[m])@ != p@,
                seen ==> k < distinct@.len() && distinct@[k as int]@ == p@,
            ensures
                !seen ==> forall|m: int| 0 <= m < distinct@.len() ==> (#[trigger] distinct@[m])@ != p@,
                seen ==> k < distinct@.len() && distinct@[k as int]@ == p@,
            decreases distinct@.len() - k,
        {
            if distinct[k] == *p {
                seen = true;
                break;
            }
            k = k + 1;
        }
        let ghost before = distinct@;
        if !seen {
            proof {
                assert(is_slice_path(slices@, p@));
            }
            distinct.push(p.clone());
        }
        proof {
            assert forall|m: int|
                0 <= m < i + 1 implies exists|kk: int|
                    0 <= kk < distinct@.len() && (#[trigger] distinct@[kk])@ == (
                    #[trigger] slices@[m]).file_path@ by {
                if m == i {
                    if seen {
                        assert(distinct@[k as int]@ == slices@[m].file_path@);
                    } else {
                        assert(distinct@[distinct@.len() - 1]@ == slices@[m].file_path@);
                    }
                } else {
                    let kk = choose|kk: int|
                        0 <= kk < before.len() && (#[trigger] before[kk])@ == (
                        #[trigger] slices@[m]).file_path@;
                    assert(distinct@[kk] == before[kk]);
                }
            }
        }
        i = i + 1;
    }
    if distinct.len() > 1 {
        proof {
            let p0 = distinct@[0]@;
            let p1 = distinct@[1]@;
            let j0 = choose|j: int| 0 <= j < n && (#[trigger] slices@[j]).file_path@ == p0;
            let j1 = choose|j: int| 0 <= j < n && (#[trigger] slices@[j]).file_path@ == p1;
            assert(slices@[j0].file_path@ != slices@[j1].file_path@);
        }
        distinct
    } else {
        proof {
            if !one_path(slices@) {
                let (a, b) = choose|a: int, b: int|
                    0 <= a < n && 0 <= b < n && (#[trigger] slices@[a]).file_path@ != (
                    #[trigger] slices@[b]).file_path@;
                let ka = choose|k: int|
                    0 <= k < distinct@.len() && (#[trigger] distinct@[k])@
                        == slices@[a].file_path@;
                let kb = choose|k: int|
                    0 <= k < distinct@.len() && (#[trigger] distinct@[k])@
                        == slices@[b].file_path@;
                assert(ka == kb);
            }
        }
        Vec::new()
    }
}

/// Where an upload attempt stands.
#[derive(PartialEq, Eq, Structural, Clone, Copy, Debug)]
pub enum Phase {
    Init,
    Precreated,
    SlicesUploaded,
    Finalized,
    Failed,
}

/// What the caller must do next.
#[derive(Debug)]
pub enum Step {
    /// Upload the bytes of the slice with this sequence number.
    UploadSlice(u64),
    /// Send this finalize request.
    Create(XPanFileCreateRequest),
    /// Done: delete these temporary files and report this metadata.
    Finish(XPanCreateResponse, Vec<String>),
    /// The attempt is over and failed.
    Fail(YunPanError),
}

/// The mutable state of one upload attempt.
#[derive(Debug)]
pub struct UploadSession {
    /// Remote path of the file.
    pub target_path: String,
    pub file_size: u64,
    /// The slices in sequence order, digests filled in.
    pub slices: Vec<SliceFileInfo>,
    /// The slice digests in sequence order.
    pub block_list: Vec<String>,
    /// Token issued by precreate; empty before.
    pub upload_id: String,
    /// Number of slices the service has accepted, which is also the
    /// sequence number of the next slice to send.
    pub uploaded: u64,
    pub phase: Phase,
}

impl UploadSession {
    pub open spec fn wf(&self) -> bool {
        &&& self.slices@.len() >= 1
        &&& self.slices@.len() == self.block_list@.len()
        &&& forall|i: int|
            0 <= i < self.slices@.len() ==> (#[trigger] self.slices@[i]).seq == i
                && self.block_list@[i]@ == self.slices@[i].md5@
        &&& self.uploaded <= self.slices@.len()
        &&& self.phase == Phase::Init ==> self.uploaded == 0
        &&& self.phase == Phase::Precreated ==> self.uploaded < self.slices@.len()
        &&& (self.phase == Phase::SlicesUploaded || self.phase == Phase::Finalized)
            ==> self.uploaded == self.slices@.len()
    }

    /// Starts an attempt from the file and its slices (in any order, with
    /// digests): puts the slices in sequence order, builds the block list and
    /// the precreate request. Fails when a sequence number in
    /// `0..slices.len()` is missing or there is no slice at all.
    pub fn begin(file: &UploadFile, slices: Vec<SliceFileInfo>) -> (r: Result<
        (UploadSession, XPanFilePreCreateRequest),
        YunPanError,
    >)
        ensures
            slices@.len() == 0 ==> r == Err::<(UploadSession, XPanFilePreCreateRequest), YunPanError>(
                YunPanError::MissingSlice { seq: 0 },
            ),
            r is Ok ==> {
                let (s, q) = r->Ok_0;
                &&& s.wf()
                &&& s.phase == Phase::Init
                &&& s.target_path@ == destination_of(file.file_name@)
                &&& s.file_size == file.file_size
                &&& s.slices@.len() == slices@.len()
                &&& forall|i: int|
                    0 <= i < s.slices@.len() ==> is_input_slice(slices@, #[trigger] s.slices@[i])
                &&& q.path@ == s.target_path@
                &&& q.size == file.file_size
                &&& q.isdir == 0
                &&& q.rtype == RTYPE_OVERWRITE
                &&& q.autoinit == 1
                &&& q.block_list@ == json_string_array(texts(s.block_list@))
            },
            r is Err ==> r->Err_0 is MissingSlice && seq_missing(
                slices@,
                r->Err_0->MissingSlice_seq as int,
            ),
            slices@.len() > 0 && (forall|k: int|
                0 <= k < slices@.len() ==> !#[trigger] seq_missing(slices@, k)) ==> r is Ok,
    {
        if slices.len() == 0 {
            return Err(YunPanError::MissingSlice { seq: 0 });
        }
        let ordered = match order_by_seq(&slices) {
            Ok(v) => v,
            Err(k) => {
                return Err(YunPanError::MissingSlice { seq: k });
            },
        };
        let n = ordered.len();
        let mut block_list: Vec<String> = Vec::new();
        let mut i: usize = 0;
        while i < n
            invariant
                n == ordered@.len(),
                i <= n,
                block_list@.len() == i,
                forall|k: int| 0 <= k < i ==> (#[trigger] block_list@[k])@ == ordered@[k].md5@,
            decreases n - i,
        {
            block_list.push(ordered[i].md5.clone());
            i = i + 1;
        }
        let target_path = file.destination();
        let request = XPanFilePreCreateRequest::new(
            target_path.as_str(),
            file.file_size,
            &block_list,
        );
        let session = UploadSession {
            target_path,
            file_size: file.file_size,
            slices: ordered,
            block_list,
            upload_id: String::new(),
            uploaded: 0,
            phase: Phase::Init,
        };
        Ok((session, request))
    }

    /// Takes the precreate reply (`parsed`: the reply read from `raw`, `None`
    /// when unreadable). On `errno == 0` the upload id is kept and the first
    /// slice is asked for; otherwise the attempt fails with a protocol error
    /// and no slice is sent.
    pub fn on_precreate(&mut self, raw: &str, parsed: Option<XPanPrecreateResponse>) -> (r: Step)
        requires
            old(self).wf(),
            old(self).phase == Phase::Init,
        ensures
            final(self).wf(),
            final(self).slices == old(self).slices,
            final(self).block_list == old(self).block_list,
            final(self).target_path == old(self).target_path,
            final(self).file_size == old(self).file_size,
            parsed is Some && parsed->0.errno == Some(0i64) ==> final(self).phase
                == Phase::Precreated && final(self).upload_id@ == parsed->0.upload_id@ && r
                == Step::UploadSlice(0),
            !(parsed is Some && parsed->0.errno == Some(0i64)) ==> final(self).phase
                == Phase::Failed && r is Fail && is_protocol_error(r->Fail_0, raw@),
    {
        match check_precreate(raw, parsed) {
            Ok(p) => {
                self.upload_id = p.upload_id;
                self.phase = Phase::Precreated;
                Step::UploadSlice(0)
            },
            Err(e) => {
                self.phase = Phase::Failed;
                Step::Fail(e)
            },
        }
    }

    /// Takes the reply to the upload of slice `uploaded`. An unreadable reply
    /// or a non-zero error code fails the attempt with a rejection naming the
    /// slice; an
    /// echoed digest other than the local one fails it with an integrity
    /// mismatch naming the slice, and finalize is never asked for. Otherwise
    /// the next slice is asked for, or, after the last one, the finalize
    /// request.
    pub fn on_slice_uploaded(&mut self, raw: &str, parsed: Option<XPanUploadResponse>) -> (r: Step)
        requires
            old(self).wf(),
            old(self).phase == Phase::Precreated,
        ensures
            final(self).wf(),
            final(self).slices == old(self).slices,
            final(self).block_list == old(self).block_list,
            final(self).target_path == old(self).target_path,
            final(self).upload_id == old(self).upload_id,
            ({
                let s = old(self).uploaded as int;
                let expected = old(self).slices@[s].md5@;
                let n = old(self).slices@.len();
                let code_ok = parsed is Some && (parsed->0.error_code is None
                    || parsed->0.error_code == Some(0i64));
                &&& !code_ok ==> final(self).phase == Phase::Failed && r is Fail
                    && is_slice_rejected(r->Fail_0, s as u64, raw@)
                &&& code_ok && parsed->0.md5@ != expected ==> final(self).phase == Phase::Failed
                    && r is Fail && r->Fail_0 is IntegrityMismatch
                    && r->Fail_0->IntegrityMismatch_seq == s
                    && r->Fail_0->IntegrityMismatch_expected@ == expected
                    && r->Fail_0->IntegrityMismatch_received@ == parsed->0.md5@
                &&& code_ok && parsed->0.md5@ == expected && s + 1 < n ==> final(self).phase
                    == Phase::Precreated && final(self).uploaded == s + 1 && r == Step::UploadSlice(
                    (s + 1) as u64,
                )
                &&& code_ok && parsed->0.md5@ == expected && s + 1 == n ==> final(self).uploaded
                    == n && final(self).phase == Phase::SlicesUploaded && r is Create && {
                    let q = r->Create_0;
                    &&& q.path@ == old(self).target_path@
                    &&& q.size == old(self).file_size
                    &&& q.isdir == 0
                    &&& q.rtype == RTYPE_OVERWRITE
                    &&& q.block_list@ == json_string_array(texts(old(self).block_list@))
                    &&& q.uploadid@ == old(self).upload_id@
                }
            }),
    {
        let s = self.uploaded;
        let len = self.slices.len();
        let checked = check_upload(s, self.slices[s as usize].md5.as_str(), raw, parsed);
        match checked {
            Err(e) => {
                self.phase = Phase::Failed;
                Step::Fail(e)
            },
            Ok(()) => {
                let next: usize = s as usize + 1;
                self.uploaded = next as u64;
                if next < len {
                    Step::UploadSlice(self.uploaded)
                } else {
                    self.phase = Phase::SlicesUploaded;
                    Step::Create(
                        XPanFileCreateRequest::new(
                            self.target_path.as_str(),
                            self.file_size,
                            &self.block_list,
                            self.upload_id.as_str(),
                        ),
                    )
                }
            },
        }
    }

    /// Takes the finalize reply. On `errno == 0` the attempt is done: the
    /// metadata is handed back with the temporary slice files to delete
    /// (see `cleanup_paths`). Otherwise it fails with a protocol error.
    pub fn on_created(&mut self, raw: &str, parsed: Option<XPanCreateResponse>) -> (r: Step)
        requires
            old(self).wf(),
            old(self).phase == Phase::SlicesUploaded,
        ensures
            final(self).wf(),
            final(self).slices == old(self).slices,
            parsed is Some && parsed->0.errno == Some(0i64) ==> final(self).phase
                == Phase::Finalized && r is Finish && r->Finish_0 == parsed->0 && (one_path(
                old(self).slices@,
            ) ==> r->Finish_1@.len() == 0) && (!one_path(old(self).slices@) ==> lists_all_paths(
                r->Finish_1@,
                old(self).slices@,
            )),
            !(parsed is Some && parsed->0.errno == Some(0i64)) ==> final(self).phase
                == Phase::Failed && r is Fail && is_protocol_error(r->Fail_0, raw@),
    {
        match check_create(raw, parsed) {
            Ok(p) => {
                self.phase = Phase::Finalized;
                let remove = cleanup_paths(&self.slices);
                Step::Finish(p, remove)
            },
            Err(e) => {
                self.phase = Phase::Failed;
                Step::Fail(e)
            },
        }
    }

    /// A transport or local I/O failure ends the attempt with that error.
    pub fn on_failure(&mut self, e: YunPanError) -> (r: Step)
        requires
            old(self).wf(),
        ensures
            final(self).wf(),
            final(self).phase == Phase::Failed,
            final(self).slices == old(self).slices,
            final(self).uploaded == old(self).uploaded,
            r == Step::Fail(e),
    {
        self.phase = Phase::Failed;
        Step::Fail(e)
    }
}

} // verus!
