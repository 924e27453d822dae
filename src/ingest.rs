//! The ingestion service: full-resolution uploads, deduplicated by content hash,
//! and thumbnail batches, which refresh the display metadata of their records.
//!
//! Writing files is the caller's part. An upload is planned, the caller creates
//! the directory and writes the file, and only then is the record stored; the
//! returned event is broadcast after the store is released.
use vstd::prelude::*;
use crate::digest::{compute_hash, sha256_hex};
use crate::events::{copied_event, copied_event_text};
use crate::ids::{now_rfc3339, random_uuid};
use crate::paths::{get_output_path, join, modified_month, output_dir, parse_modified_at, OutputPath, YearMonth};
use crate::store::{insert_new_upload, opt_text, upload_keys, MetadataStore, UploadRecord, UploadView};

verus! {

/// The user that a raw upload is filed under when it names none.
pub const RAW_DEFAULT_USER: &'static str = "default";

/// The user that a form upload is filed under when it names none.
pub const FORM_DEFAULT_USER: &'static str = "bruno";

/// Why an upload request was refused before anything was stored.
#[derive(Clone, Copy, Debug, PartialEq, Eq, Structural)]
pub enum UploadError {
    /// A modification time was given that is not an RFC 3339 timestamp.
    InvalidTimestamp,
}

/// Who uploads, under which name, and the month the file was last modified.
#[derive(Clone, Debug)]
pub struct UploadMeta {
    pub username: String,
    pub filename: String,
    pub modified_at: Option<YearMonth>,
}

/// The name given to a file that arrives without one.
pub open spec fn default_filename(id: Seq<char>) -> Seq<char> {
    id + "_upload"@
}

/// The metadata of an upload, from the fields the client supplied: missing
/// fields take their defaults, and a modification time that cannot be read
/// refuses the request.
pub open spec fn upload_meta_result(
    username: Option<Seq<char>>,
    filename: Option<Seq<char>>,
    modified_at: Option<Seq<char>>,
    default_user: Seq<char>,
    id: Seq<char>,
) -> Result<(Seq<char>, Seq<char>, Option<YearMonth>), UploadError> {
    let month = match modified_at {
        Some(t) => modified_month(t),
        None => None,
    };
    if modified_at is Some && month is None {
        Err(UploadError::InvalidTimestamp)
    } else {
        Ok(
            (
                match username {
                    Some(u) => u,
                    None => default_user,
                },
                match filename {
                    Some(f) => f,
                    None => default_filename(id),
                },
                month,
            ),
        )
    }
}

pub open spec fn meta_view(r: Result<UploadMeta, UploadError>) -> Result<
    (Seq<char>, Seq<char>, Option<YearMonth>),
    UploadError,
> {
    match r {
        Ok(m) => Ok((m.username@, m.filename@, m.modified_at)),
        Err(e) => Err(e),
    }
}

/// Builds the metadata of an upload; `id` names a file that arrives without a name.
pub fn upload_meta(
    username: Option<String>,
    filename: Option<String>,
    modified_at: Option<String>,
    default_user: &str,
    id: &str,
) -> (r: Result<UploadMeta, UploadError>)
    ensures
        meta_view(r) == upload_meta_result(
            opt_text(username),
            opt_text(filename),
            opt_text(modified_at),
            default_user@,
            id@,
        ),
        r matches Ok(m) ==> (m.modified_at matches Some(ym) ==> ym.wf()),
{
    let month = match &modified_at {
        Some(t) => {
            let m = parse_modified_at(t.as_str());
            if m.is_none() {
                return Err(UploadError::InvalidTimestamp);
            }
            m
        },
        None => None,
    };
    let username = match username {
        Some(u) => u,
        None => String::from_str(default_user),
    };
    let filename = match filename {
        Some(f) => f,
        None => {
            let mut f = String::from_str(id);
            f.append("_upload");
            f
        },
    };
    Ok(UploadMeta { username, filename, modified_at: month })
}

/// The metadata of a raw upload, read from its headers; a file without a name
/// is named after a fresh UUID.
pub fn raw_upload_meta(username: Option<String>, filename: Option<String>, modified_at: Option<String>) -> (r:
    Result<UploadMeta, UploadError>)
    ensures
        exists|id: Seq<char>|
            meta_view(r) == upload_meta_result(
                opt_text(username),
                opt_text(filename),
                opt_text(modified_at),
                RAW_DEFAULT_USER@,
                id,
            ),
{
    let id = random_uuid();
    upload_meta(username, filename, modified_at, RAW_DEFAULT_USER, id.as_str())
}

/// The metadata of a form upload, read from its fields; a file without a name
/// is named after a fresh UUID.
pub fn form_upload_meta(username: Option<String>, filename: Option<String>, modified_at: Option<String>) -> (r:
    Result<UploadMeta, UploadError>)
    ensures
        exists|id: Seq<char>|
            meta_view(r) == upload_meta_result(
                opt_text(username),
                opt_text(filename),
                opt_text(modified_at),
                FORM_DEFAULT_USER@,
                id,
            ),
{
    let id = random_uuid();
    upload_meta(username, filename, modified_at, FORM_DEFAULT_USER, id.as_str())
}

/// What to do with an upload.
#[derive(Debug)]
pub enum UploadPlan {
    /// Content with this hash is already stored: nothing is written.
    Duplicate { hash: String },
    /// New content: create `target.dir`, write `target.file`, then record it.
    Store { hash: String, target: OutputPath },
}

/// Whether a plan answers an upload of content `hash` by `meta` into
/// `upload_dir`, given the stored records.
pub open spec fn plans(
    plan: UploadPlan,
    stored: Seq<UploadView>,
    hash: Seq<char>,
    upload_dir: Seq<char>,
    meta: UploadMeta,
) -> bool {
    match plan {
        UploadPlan::Duplicate { hash: h } => h@ == hash && upload_keys(stored).contains(hash),
        UploadPlan::Store { hash: h, target } => {
            &&& h@ == hash
            &&& !upload_keys(stored).contains(hash)
            &&& target.dir@ == output_dir(upload_dir, meta.username@, meta.modified_at)
            &&& target.file@ == join(target.dir@, meta.filename@)
        },
    }
}

/// Plans the upload of content whose hash is `hash`.
pub fn plan_upload_for_hash(store: &MetadataStore, hash: String, upload_dir: &str, meta: &UploadMeta) -> (r:
    UploadPlan)
    requires
        store.wf(),
    ensures
        plans(r, store.uploads(), hash@, upload_dir@, *meta),
{
    if store.has_upload(&hash) {
        UploadPlan::Duplicate { hash }
    } else {
        let target = get_output_path(
            upload_dir,
            meta.username.as_str(),
            meta.filename.as_str(),
            meta.modified_at,
        );
        UploadPlan::Store { hash, target }
    }
}

/// Plans the upload of `data`: a duplicate when content with the same hash is
/// stored, else the place to write it under `upload_dir`.
pub fn plan_upload(store: &MetadataStore, data: &[u8], upload_dir: &str, meta: &UploadMeta) -> (r:
    UploadPlan)
    requires
        store.wf(),
    ensures
        plans(r, store.uploads(), sha256_hex(data@), upload_dir@, *meta),
{
    let hash = compute_hash(data);
    plan_upload_for_hash(store, hash, upload_dir, meta)
}

/// The record of a file stored by an upload; an upload declares no size.
pub open spec fn stored_record(hash: Seq<char>, filename: Seq<char>, created_at: Seq<char>) -> UploadView {
    UploadView { hash, filename, size: None, created_at }
}

/// Records a file that was written to `target` and answers the event that
/// announces it, or `None` when a record for the hash exists, in which case
/// nothing changes.
pub fn record_stored_file(
    store: &mut MetadataStore,
    hash: &String,
    filename: &String,
    target: &OutputPath,
    created_at: String,
) -> (event: Option<String>)
    requires
        old(store).wf(),
    ensures
        final(store).wf(),
        final(store).uploads() == insert_new_upload(
            old(store).uploads(),
            stored_record(hash@, filename@, created_at@),
        ),
        event is Some <==> !upload_keys(old(store).uploads()).contains(hash@),
        event matches Some(e) ==> e@ == copied_event_text(hash@, target.file@),
        final(store).tokens() == old(store).tokens(),
        final(store).codes() == old(store).codes(),
{
    let record = UploadRecord {
        hash: hash.clone(),
        filename: filename.clone(),
        size: None,
        created_at,
    };
    if store.record_upload(record) {
        Some(copied_event(hash.as_str(), target.file.as_str()))
    } else {
        None
    }
}

/// Records a written file, stamped with the current time; see `record_stored_file`.
pub fn complete_upload(store: &mut MetadataStore, hash: &String, meta: &UploadMeta, target: &OutputPath) -> (event:
    Option<String>)
    requires
        old(store).wf(),
    ensures
        final(store).wf(),
        exists|t: Seq<char>|
            final(store).uploads() == insert_new_upload(
                old(store).uploads(),
                stored_record(hash@, meta.filename@, t),
            ),
        event is Some <==> !upload_keys(old(store).uploads()).contains(hash@),
        event matches Some(e) ==> e@ == copied_event_text(hash@, target.file@),
        final(store).tokens() == old(store).tokens(),
        final(store).codes() == old(store).codes(),
{
    let now = now_rfc3339();
    let ghost t = now@;
    let event = record_stored_file(store, hash, &meta.filename, target, now);
    assert(store.uploads() == insert_new_upload(
        old(store).uploads(),
        stored_record(hash@, meta.filename@, t),
    ));
    event
}

/// Whether an upload of `data` is a duplicate: content with its hash is stored.
pub open spec fn is_duplicate(stored: Seq<UploadView>, data: Seq<u8>) -> bool {
    upload_keys(stored).contains(sha256_hex(data))
}

/// Uploading the same bytes twice stores them once: once the first upload is
/// recorded, the second is planned as a duplicate, so it writes nothing, and
/// recording it anyway leaves the records unchanged.
pub proof fn lemma_dedup_idempotent(
    stored: Seq<UploadView>,
    data: Seq<u8>,
    first_name: Seq<char>,
    first_time: Seq<char>,
    second_name: Seq<char>,
    second_time: Seq<char>,
)
    requires
        upload_keys(stored).no_duplicates(),
    ensures
        ({
            let once = insert_new_upload(stored, stored_record(sha256_hex(data), first_name, first_time));
            &&& is_duplicate(once, data)
            &&& upload_keys(once).no_duplicates()
            &&& insert_new_upload(once, stored_record(sha256_hex(data), second_name, second_time))
                == once
        }),
{
    let h = sha256_hex(data);
    let once = insert_new_upload(stored, stored_record(h, first_name, first_time));
    if !upload_keys(stored).contains(h) {
        assert(upload_keys(once) =~= upload_keys(stored).push(h));
        assert(upload_keys(once)[stored.len() as int] == h);
    }
    assert(upload_keys(once).contains(h));
}

} // verus!
