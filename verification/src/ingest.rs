//! The ingestion service's rules: which files an upload writes and where,
//! which requests it refuses, and the status it answers with.

use crate::multipart::{decode, decoded, parts_view, DecodeError, Part, PartModel};
use vstd::prelude::*;

verus! {

/// Status of a request that was carried out.
pub const STATUS_OK: u16 = 200;

/// Status of a request that the service cannot read or will not carry out.
pub const STATUS_BAD_REQUEST: u16 = 400;

/// Status of a request that failed in the service's storage.
pub const STATUS_STORAGE_FAILURE: u16 = 500;

/// Why a request was not carried out. The fault is that of one request: the
/// service goes on, and what earlier requests stored stays as it is.
#[derive(Clone, Copy, Debug, PartialEq, Eq, Structural)]
pub enum IngestError {
    /// The upload's body is no well-formed multipart body.
    Multipart(DecodeError),
    /// The health report's body is not the expected JSON.
    MalformedJson,
    /// A file name would leave the storage directory or names no file.
    InvalidFilename,
    /// The storage refused a write.
    Storage,
}

impl IngestError {
    /// The status that answers a request with this fault: 400 for what the
    /// client sent, 500 for what the storage did.
    pub open spec fn spec_status(self) -> u16 {
        match self {
            IngestError::Storage => 500,
            _ => 400,
        }
    }

    /// The status that answers a request with this fault.
    pub fn status(&self) -> (code: u16)
        ensures
            code == self.spec_status(),
    {
        match self {
            IngestError::Storage => STATUS_STORAGE_FAILURE,
            _ => STATUS_BAD_REQUEST,
        }
    }
}

/// The status that answers a request, given how carrying it out ended.
pub fn response_status(outcome: Result<(), IngestError>) -> (code: u16)
    ensures
        code == match outcome {
            Ok(_) => 200u16,
            Err(e) => e.spec_status(),
        },
{
    match outcome {
        Ok(_) => STATUS_OK,
        Err(e) => e.status(),
    }
}

/// A file name that stays inside the storage directory: not empty, neither
/// `.` nor `..`, and without a slash, a backslash or a zero byte.
pub open spec fn safe_filename(name: Seq<u8>) -> bool {
    &&& name.len() > 0
    &&& name != seq![46u8]
    &&& name != seq![46u8, 46u8]
    &&& forall|i: int| 0 <= i < name.len() ==> name[i] != 47 && name[i] != 92 && name[i] != 0
}

/// Tells whether a file name stays inside the storage directory.
pub fn is_safe_filename(name: &[u8]) -> (safe: bool)
    ensures
        safe == safe_filename(name@),
{
    let n: usize = name.len();
    if n == 0 {
        return false;
    }
    if n == 1 && name[0] == 46 {
        assert(name@ =~= seq![46u8]);
        return false;
    }
    if n == 2 && name[0] == 46 && name[1] == 46 {
        assert(name@ =~= seq![46u8, 46u8]);
        return false;
    }
    let mut i: usize = 0;
    while i < n
        invariant
            i <= n == name.len(),
            forall|k: int| 0 <= k < i ==> name@[k] != 47 && name@[k] != 92 && name@[k] != 0,
        decreases n - i,
    {
        let b: u8 = name[i];
        if b == 47 || b == 92 || b == 0 {
            return false;
        }
        i = i + 1;
    }
    assert(name@ != seq![46u8]) by {
        if n == 1 {
            assert(seq![46u8][0] == 46u8);
        } else {
            assert(seq![46u8].len() == 1);
        }
    }
    assert(name@ != seq![46u8, 46u8]) by {
        if n == 2 {
            assert(seq![46u8, 46u8][0] == 46u8);
            assert(seq![46u8, 46u8][1] == 46u8);
        } else {
            assert(seq![46u8, 46u8].len() == 2);
        }
    }
    true
}

/// One file to write: the whole content replaces what the path held.
#[derive(Clone, Debug, PartialEq, Eq)]
pub struct FileWrite {
    pub path: Vec<u8>,
    pub data: Vec<u8>,
}

/// What a `FileWrite` holds, as sequences.
pub struct FileWriteModel {
    pub path: Seq<u8>,
    pub data: Seq<u8>,
}

impl View for FileWrite {
    type V = FileWriteModel;

    open spec fn view(&self) -> FileWriteModel {
        FileWriteModel { path: self.path@, data: self.data@ }
    }
}

/// The models of a sequence of writes, in order.
pub open spec fn writes_view(writes: Seq<FileWrite>) -> Seq<FileWriteModel> {
    Seq::new(writes.len(), |i: int| writes[i]@)
}

/// Where a file of the given name is stored: the directory, a slash, the
/// name.
pub open spec fn storage_path(dir: Seq<u8>, name: Seq<u8>) -> Seq<u8> {
    dir + seq![47u8] + name
}

/// The storage directory, as a map from path to content, after the writes
/// were carried out in order, each replacing what its path held.
pub open spec fn store_after(store: Map<Seq<u8>, Seq<u8>>, writes: Seq<FileWriteModel>) -> Map<
    Seq<u8>,
    Seq<u8>,
>
    decreases writes.len(),
{
    if writes.len() == 0 {
        store
    } else {
        store_after(store, writes.drop_last()).insert(writes.last().path, writes.last().data)
    }
}

/// Every part's file name stays inside the storage directory.
pub open spec fn all_safe(parts: Seq<PartModel>) -> bool {
    forall|i: int| 0 <= i < parts.len() ==> safe_filename(#[trigger] parts[i].filename)
}

/// The writes that store the given parts: one per part, in order, the
/// part's bytes as they came.
pub open spec fn writes_for(dir: Seq<u8>, parts: Seq<PartModel>) -> Seq<FileWriteModel> {
    Seq::new(
        parts.len(),
        |i: int| FileWriteModel { path: storage_path(dir, parts[i].filename), data: parts[i].data },
    )
}

/// What an upload does: it is refused as a whole where its body is
/// malformed or a file name is unsafe, and otherwise writes each part.
pub open spec fn spec_plan_upload(body: Seq<u8>, boundary: Seq<u8>, dir: Seq<u8>) -> Result<
    Seq<FileWriteModel>,
    IngestError,
> {
    match decoded(body, boundary) {
        Err(e) => Err(IngestError::Multipart(e)),
        Ok(parts) => if all_safe(parts) {
            Ok(writes_for(dir, parts))
        } else {
            Err(IngestError::InvalidFilename)
        },
    }
}

/// Reads an upload and lists the files to write, or refuses it. Nothing is
/// to be written for a refused upload.
pub fn plan_upload(body: &[u8], boundary: &[u8], storage_dir: &[u8]) -> (plan: Result<
    Vec<FileWrite>,
    IngestError,
>)
    ensures
        match plan {
            Ok(writes) => spec_plan_upload(body@, boundary@, storage_dir@) == Ok::<
                Seq<FileWriteModel>,
                IngestError,
            >(writes_view(writes@)),
            Err(e) => spec_plan_upload(body@, boundary@, storage_dir@) == Err::<
                Seq<FileWriteModel>,
                IngestError,
            >(e),
        },
{
    let parts: Vec<Part> = match decode(body, boundary) {
        Err(e) => {
            return Err(IngestError::Multipart(e));
        },
        Ok(parts) => parts,
    };
    let ghost models = parts_view(parts@);
    let mut writes: Vec<FileWrite> = Vec::new();
    let mut i: usize = 0;
    while i < parts.len()
        invariant
            i <= parts.len(),
            models == parts_view(parts@),
            decoded(body@, boundary@) == Ok::<Seq<PartModel>, DecodeError>(models),
            writes.len() == i,
            forall|k: int| 0 <= k < i ==> safe_filename(#[trigger] models[k].filename),
            forall|k: int|
                0 <= k < i ==> (#[trigger] writes[k])@ == writes_for(storage_dir@, models)[k],
        decreases parts.len() - i,
    {
        let part: &Part = &parts[i];
        assert(models[i as int] == part@);
        if !is_safe_filename(part.filename.as_slice()) {
            assert(!safe_filename(models[i as int].filename));
            return Err(IngestError::InvalidFilename);
        }
        let mut path: Vec<u8> = Vec::new();
        path.extend_from_slice(storage_dir);
        path.push(47u8);
        path.extend_from_slice(part.filename.as_slice());
        assert(path@ =~= storage_path(storage_dir@, part.filename@));
        let mut data: Vec<u8> = Vec::new();
        data.extend_from_slice(part.data.as_slice());
        assert(data@ =~= part.data@);
        writes.push(FileWrite { path, data });
        i = i + 1;
    }
    assert(writes_view(writes@) =~= writes_for(storage_dir@, models));
    Ok(writes)
}

} // verus!
