//! Laws of the ingestion service: an upload repeated changes nothing, and
//! what the capture node frames is what the service stores.

use crate::ingest::{all_safe, safe_filename, spec_plan_upload, storage_path, store_after};
use crate::ingest::{writes_for, FileWriteModel, IngestError};
use crate::multipart::{encoded, ends_cleanly, quotable, PartModel};
use crate::multipart_laws::lemma_round_trip;
use vstd::prelude::*;

verus! {

/// A write that is carried out last hides an equal write carried out first.
proof fn lemma_last_write_wins(
    store: Map<Seq<u8>, Seq<u8>>,
    writes: Seq<FileWriteModel>,
    path: Seq<u8>,
    data: Seq<u8>,
)
    ensures
        store_after(store.insert(path, data), writes).insert(path, data) == store_after(
            store,
            writes,
        ).insert(path, data),
    decreases writes.len(),
{
    if writes.len() > 0 {
        let earlier = writes.drop_last();
        let last = writes.last();
        lemma_last_write_wins(store, earlier, path, data);
        let with = store_after(store.insert(path, data), earlier);
        let without = store_after(store, earlier);
        assert(with.insert(last.path, last.data).insert(path, data) =~= with.insert(
            path,
            data,
        ).insert(last.path, last.data).insert(path, data));
        assert(without.insert(last.path, last.data).insert(path, data) =~= without.insert(
            path,
            data,
        ).insert(last.path, last.data).insert(path, data));
    }
}

/// Idempotence: carrying out the same writes a second time leaves the
/// storage as the first time left it.
pub proof fn lemma_store_idempotent(store: Map<Seq<u8>, Seq<u8>>, writes: Seq<FileWriteModel>)
    ensures
        store_after(store_after(store, writes), writes) == store_after(store, writes),
    decreases writes.len(),
{
    if writes.len() > 0 {
        let earlier = writes.drop_last();
        let last = writes.last();
        let once = store_after(store, earlier);
        lemma_store_idempotent(store, earlier);
        lemma_last_write_wins(once, earlier, last.path, last.data);
        assert(store_after(once, earlier).insert(last.path, last.data).insert(
            last.path,
            last.data,
        ) =~= store_after(once, earlier).insert(last.path, last.data));
    }
}

/// The service plans, for the body that the capture node frames around one
/// file, exactly one write: the file's bytes, empty or not, under its name
/// in the storage directory. This is stated for names that are safe and
/// survive quoting, and content that ends cleanly.
pub proof fn lemma_plan_of_encoded(
    boundary: Seq<u8>,
    dir: Seq<u8>,
    filename: Seq<u8>,
    data: Seq<u8>,
)
    requires
        quotable(filename),
        safe_filename(filename),
        ends_cleanly(boundary, data),
    ensures
        spec_plan_upload(encoded(boundary, filename, data), boundary, dir) == Ok::<
            Seq<FileWriteModel>,
            IngestError,
        >(seq![FileWriteModel { path: storage_path(dir, filename), data }]),
{
    lemma_round_trip(boundary, filename, data);
    let parts = seq![PartModel { filename, data }];
    assert(all_safe(parts));
    assert(writes_for(dir, parts) =~= seq![
        FileWriteModel { path: storage_path(dir, filename), data },
    ]);
}

/// Posting the same file twice leaves what posting it once leaves: one file
/// at its path, holding the bytes posted, and no other path touched.
pub proof fn lemma_upload_twice(
    store: Map<Seq<u8>, Seq<u8>>,
    boundary: Seq<u8>,
    dir: Seq<u8>,
    filename: Seq<u8>,
    data: Seq<u8>,
)
    requires
        quotable(filename),
        safe_filename(filename),
        ends_cleanly(boundary, data),
    ensures
        ({
            let writes = spec_plan_upload(encoded(boundary, filename, data), boundary, dir)->Ok_0;
            let once = store_after(store, writes);
            let twice = store_after(once, writes);
            let path = storage_path(dir, filename);
            &&& twice == once
            &&& twice.dom() == store.dom().insert(path)
            &&& twice[path] == data
            &&& forall|other: Seq<u8>|
                other != path && store.dom().contains(other) ==> twice[other] == store[other]
        }),
{
    lemma_plan_of_encoded(boundary, dir, filename, data);
    let path = storage_path(dir, filename);
    let writes = seq![FileWriteModel { path, data }];
    lemma_store_idempotent(store, writes);
    assert(writes.drop_last() =~= Seq::<FileWriteModel>::empty());
    assert(store_after(store, writes.drop_last()) == store);
    assert(store_after(store, writes) == store.insert(path, data));
    assert(store.insert(path, data).dom() =~= store.dom().insert(path));
}

} // verus!
