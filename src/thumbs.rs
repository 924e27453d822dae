//! Thumbnail batches and the listing of thumbnails.
//!
//! A batch is decoded item by item; the caller writes each decoded thumbnail to
//! the thumbnail directory and hands back those it wrote, whose records are then
//! upserted in one step. The listing keeps only records whose thumbnail file is
//! present.
use vstd::prelude::*;
use base64::Engine;
use crate::ids::now_rfc3339;
use crate::store::{upload_for, upload_keys, upsert_upload, MetadataStore, UploadView};
use crate::text::push_str;

verus! {

/// One thumbnail of a batch, as the client sent it.
#[derive(Clone, Debug)]
pub struct ThumbPayload {
    pub id: String,
    pub name: String,
    pub size: String,
    pub hash: String,
    pub status: String,
    pub thumb_base64: String,
    pub modified_at: Option<String>,
}

pub struct ThumbView {
    pub hash: Seq<char>,
    pub name: Seq<char>,
    pub size: Seq<char>,
    pub thumb_base64: Seq<char>,
}

impl View for ThumbPayload {
    type V = ThumbView;

    open spec fn view(&self) -> ThumbView {
        ThumbView {
            hash: self.hash@,
            name: self.name@,
            size: self.size@,
            thumb_base64: self.thumb_base64@,
        }
    }
}

/// A decoded thumbnail, to be written at `path`.
#[derive(Clone, Debug)]
pub struct ThumbnailFile {
    pub hash: String,
    pub name: String,
    pub size: String,
    pub path: String,
    pub bytes: Vec<u8>,
}

pub struct ThumbnailFileView {
    pub hash: Seq<char>,
    pub name: Seq<char>,
    pub size: Seq<char>,
    pub path: Seq<char>,
    pub bytes: Seq<u8>,
}

impl View for ThumbnailFile {
    type V = ThumbnailFileView;

    open spec fn view(&self) -> ThumbnailFileView {
        ThumbnailFileView {
            hash: self.hash@,
            name: self.name@,
            size: self.size@,
            path: self.path@,
            bytes: self.bytes@,
        }
    }
}

/// The bytes that standard, padded base64 text stands for, or `None` when the
/// text is not such base64.
pub uninterp spec fn base64_decoded(s: Seq<char>) -> Option<Seq<u8>>;

/// Relies on base64's `general_purpose::STANDARD` engine and `Engine::decode`:
/// the decoded bytes, which depend on the text alone, or an error.
#[verifier::external_body]
fn decode_base64(s: &str) -> (r: Option<Vec<u8>>)
    ensures
        match r {
            Some(v) => base64_decoded(s@) == Some(v@),
            None => base64_decoded(s@) is None,
        },
{
    match base64::engine::general_purpose::STANDARD.decode(s) {
        Ok(v) => Some(v),
        Err(_) => None,
    }
}

/// Where the thumbnail of content `hash` is kept.
pub open spec fn thumbnail_path_text(hash: Seq<char>) -> Seq<char> {
    ".thumbs/"@ + hash + ".jpg"@
}

/// The URL under which the thumbnail of content `hash` is served.
pub open spec fn thumbnail_url_text(hash: Seq<char>) -> Seq<char> {
    "/thumbs/"@ + hash + ".jpg"@
}

pub fn thumbnail_path(hash: &str) -> (r: String)
    ensures
        r@ == thumbnail_path_text(hash@),
{
    let mut p = String::from_str(".thumbs/");
    push_str(&mut p, hash);
    push_str(&mut p, ".jpg");
    p
}

pub fn thumbnail_url(hash: &str) -> (r: String)
    ensures
        r@ == thumbnail_url_text(hash@),
{
    let mut p = String::from_str("/thumbs/");
    push_str(&mut p, hash);
    push_str(&mut p, ".jpg");
    p
}

/// The file to write for one item, or `None` when its payload is not base64.
pub open spec fn thumbnail_file_for(item: ThumbView) -> Option<ThumbnailFileView> {
    match base64_decoded(item.thumb_base64) {
        Some(bytes) => Some(
            ThumbnailFileView {
                hash: item.hash,
                name: item.name,
                size: item.size,
                path: thumbnail_path_text(item.hash),
                bytes,
            },
        ),
        None => None,
    }
}

pub open spec fn item_views(items: Seq<ThumbPayload>) -> Seq<ThumbView> {
    items.map_values(|t: ThumbPayload| t@)
}

pub open spec fn file_views(files: Seq<ThumbnailFile>) -> Seq<ThumbnailFileView> {
    files.map_values(|f: ThumbnailFile| f@)
}

/// Decodes a batch: one file per item whose payload decodes, in order; an item
/// whose payload does not decode is skipped.
pub fn prepare_thumbnails(items: &Vec<ThumbPayload>) -> (r: Vec<ThumbnailFile>)
    ensures
        file_views(r@) == item_views(items@).filter_map(|t: ThumbView| thumbnail_file_for(t)),
{
    let ghost iv = item_views(items@);
    let ghost f = |t: ThumbView| thumbnail_file_for(t);
    let mut out: Vec<ThumbnailFile> = Vec::new();
    let mut i: usize = 0;
    while i < items.len()
        invariant
            i <= items@.len(),
            iv == item_views(items@),
            f == (|t: ThumbView| thumbnail_file_for(t)),
            file_views(out@) == iv.take(i as int).filter_map(f),
        decreases items@.len() - i,
    {
        proof {
            assert(iv.take(i + 1).drop_last() =~= iv.take(i as int));
            assert(iv.take(i + 1).last() == iv[i as int]);
        }
        let item = &items[i];
        let ghost before = out@;
        match decode_base64(item.thumb_base64.as_str()) {
            Some(bytes) => {
                let file = ThumbnailFile {
                    hash: item.hash.clone(),
                    name: item.name.clone(),
                    size: item.size.clone(),
                    path: thumbnail_path(item.hash.as_str()),
                    bytes,
                };
                let ghost fv = file@;
                out.push(file);
                assert(file_views(out@) =~= file_views(before).push(fv));
            },
            None => {},
        }
        i += 1;
    }
    assert(iv.take(items@.len() as int) =~= iv);
    out
}

/// The records after upserting the written thumbnails of a batch, in order.
pub open spec fn apply_thumbnails(
    stored: Seq<UploadView>,
    files: Seq<ThumbnailFileView>,
    created_at: Seq<char>,
) -> Seq<UploadView>
    decreases files.len(),
{
    if files.len() == 0 {
        stored
    } else {
        let last = files.last();
        upsert_upload(
            apply_thumbnails(stored, files.drop_last(), created_at),
            last.hash,
            last.name,
            last.size,
            created_at,
        )
    }
}

/// Upserts the record of every thumbnail that was written, in order: a record
/// that exists takes the thumbnail's name and size.
pub fn commit_thumbnails_at(store: &mut MetadataStore, written: &Vec<ThumbnailFile>, created_at: &String)
    requires
        old(store).wf(),
    ensures
        final(store).wf(),
        final(store).uploads() == apply_thumbnails(
            old(store).uploads(),
            file_views(written@),
            created_at@,
        ),
        final(store).tokens() == old(store).tokens(),
        final(store).codes() == old(store).codes(),
{
    let ghost fv = file_views(written@);
    let mut i: usize = 0;
    while i < written.len()
        invariant
            i <= written@.len(),
            fv == file_views(written@),
            store.wf(),
            store.uploads() == apply_thumbnails(old(store).uploads(), fv.take(i as int), created_at@),
            store.tokens() == old(store).tokens(),
            store.codes() == old(store).codes(),
        decreases written@.len() - i,
    {
        proof {
            assert(fv.take(i + 1).drop_last() =~= fv.take(i as int));
            assert(fv.take(i + 1).last() == fv[i as int]);
        }
        let file = &written[i];
        store.upsert_upload(
            file.hash.clone(),
            file.name.clone(),
            file.size.clone(),
            created_at.clone(),
        );
        i += 1;
    }
    assert(fv.take(written@.len() as int) =~= fv);
}

/// Upserts the records of the written thumbnails, stamping new records with the
/// current time; see `commit_thumbnails_at`.
pub fn commit_thumbnails(store: &mut MetadataStore, written: &Vec<ThumbnailFile>)
    requires
        old(store).wf(),
    ensures
        final(store).wf(),
        exists|t: Seq<char>|
            final(store).uploads() == apply_thumbnails(old(store).uploads(), file_views(written@), t),
        final(store).tokens() == old(store).tokens(),
        final(store).codes() == old(store).codes(),
{
    let now = now_rfc3339();
    commit_thumbnails_at(store, written, &now);
}

/// Upserting keeps hashes unique and leaves the record of `hash` with the new
/// name and size.
pub proof fn lemma_upsert_sets(
    stored: Seq<UploadView>,
    hash: Seq<char>,
    filename: Seq<char>,
    size: Seq<char>,
    created_at: Seq<char>,
)
    requires
        upload_keys(stored).no_duplicates(),
    ensures
        ({
            let after = upsert_upload(stored, hash, filename, size, created_at);
            &&& upload_keys(after).no_duplicates()
            &&& upload_keys(after).contains(hash)
            &&& upload_for(after, hash).filename == filename
            &&& upload_for(after, hash).size == Some(size)
        }),
{
    let keys = upload_keys(stored);
    let after = upsert_upload(stored, hash, filename, size, created_at);
    if keys.contains(hash) {
        let i = keys.index_of(hash);
        assert(upload_keys(after) =~= keys);
        assert(upload_keys(after)[i] == hash);
    } else {
        assert(upload_keys(after) =~= keys.push(hash));
        assert(upload_keys(after)[stored.len() as int] == hash);
    }
    let j = upload_keys(after).index_of(hash);
    assert(upload_keys(after)[j] == hash);
}

/// Ingesting a thumbnail for a hash and later another one for the same hash
/// leaves exactly one record for it, carrying the later name and size.
pub proof fn lemma_thumbnail_upsert(
    stored: Seq<UploadView>,
    first: ThumbnailFileView,
    second: ThumbnailFileView,
    first_time: Seq<char>,
    second_time: Seq<char>,
)
    requires
        upload_keys(stored).no_duplicates(),
        first.hash == second.hash,
    ensures
        ({
            let after = apply_thumbnails(
                apply_thumbnails(stored, seq![first], first_time),
                seq![second],
                second_time,
            );
            &&& upload_keys(after).no_duplicates()
            &&& upload_keys(after).contains(second.hash)
            &&& upload_for(after, second.hash).filename == second.name
            &&& upload_for(after, second.hash).size == Some(second.size)
        }),
{
    assert(seq![first].drop_last() =~= Seq::<ThumbnailFileView>::empty());
    assert(seq![second].drop_last() =~= Seq::<ThumbnailFileView>::empty());
    assert(seq![first].last() == first);
    assert(seq![second].last() == second);
    assert(apply_thumbnails(stored, Seq::<ThumbnailFileView>::empty(), first_time) == stored);
    let once = apply_thumbnails(stored, seq![first], first_time);
    assert(once == upsert_upload(stored, first.hash, first.name, first.size, first_time));
    assert(apply_thumbnails(once, Seq::<ThumbnailFileView>::empty(), second_time) == once);
    lemma_upsert_sets(stored, first.hash, first.name, first.size, first_time);
    lemma_upsert_sets(once, second.hash, second.name, second.size, second_time);
}

/// A thumbnail as listed to clients.
#[derive(Clone, Debug)]
pub struct Photo {
    pub id: String,
    pub url: String,
    pub name: String,
    pub size: String,
    pub status: String,
}

pub struct PhotoView {
    pub id: Seq<char>,
    pub url: Seq<char>,
    pub name: Seq<char>,
    pub size: Seq<char>,
    pub status: Seq<char>,
}

impl View for Photo {
    type V = PhotoView;

    open spec fn view(&self) -> PhotoView {
        PhotoView {
            id: self.id@,
            url: self.url@,
            name: self.name@,
            size: self.size@,
            status: self.status@,
        }
    }
}

pub open spec fn text_views(v: Seq<String>) -> Seq<Seq<char>> {
    v.map_values(|s: String| s@)
}

pub open spec fn photo_views(v: Seq<Photo>) -> Seq<PhotoView> {
    v.map_values(|p: Photo| p@)
}

/// How a record is listed: exactly when its thumbnail is on disk. A record with
/// no declared size (one made by a raw upload) is listed with an empty size.
pub open spec fn photo_for(r: UploadView, on_disk: Seq<Seq<char>>) -> Option<PhotoView> {
    if on_disk.contains(r.hash) {
        Some(
            PhotoView {
                id: r.hash,
                url: thumbnail_url_text(r.hash),
                name: r.filename,
                size: match r.size {
                    Some(size) => size,
                    None => Seq::empty(),
                },
                status: "uploading"@,
            },
        )
    } else {
        None
    }
}

/// The listing of the stored records, given the hashes whose thumbnail file exists.
pub open spec fn listing(stored: Seq<UploadView>, on_disk: Seq<Seq<char>>) -> Seq<PhotoView> {
    stored.filter_map(|r: UploadView| photo_for(r, on_disk))
}

fn contains_text(v: &Vec<String>, s: &String) -> (r: bool)
    ensures
        r == text_views(v@).contains(s@),
{
    let ghost tv = text_views(v@);
    let mut i: usize = 0;
    while i < v.len()
        invariant
            i <= v@.len(),
            tv == text_views(v@),
            forall|j: int| 0 <= j < i ==> tv[j] != s@,
        decreases v@.len() - i,
    {
        if v[i] == *s {
            assert(tv[i as int] == s@);
            return true;
        }
        i += 1;
    }
    false
}

/// Lists the stored records whose thumbnail is on disk, in store order.
/// `on_disk` holds the hashes whose thumbnail file was found.
pub fn list_photos(store: &MetadataStore, on_disk: &Vec<String>) -> (r: Vec<Photo>)
    ensures
        photo_views(r@) == listing(store.uploads(), text_views(on_disk@)),
{
    let records = store.upload_records();
    let ghost rv = store.uploads();
    let ghost dv = text_views(on_disk@);
    let ghost f = |r: UploadView| photo_for(r, dv);
    let mut out: Vec<Photo> = Vec::new();
    let mut i: usize = 0;
    while i < records.len()
        invariant
            i <= records@.len(),
            rv == records@.map_values(|x: crate::store::UploadRecord| x@),
            dv == text_views(on_disk@),
            f == (|r: UploadView| photo_for(r, dv)),
            photo_views(out@) == rv.take(i as int).filter_map(f),
        decreases records@.len() - i,
    {
        proof {
            assert(rv.take(i + 1).drop_last() =~= rv.take(i as int));
            assert(rv.take(i + 1).last() == rv[i as int]);
        }
        let record = &records[i];
        let ghost before = out@;
        if contains_text(on_disk, &record.hash) {
            let size = match &record.size {
                Some(size) => size.clone(),
                None => String::new(),
            };
            let photo = Photo {
                id: record.hash.clone(),
                url: thumbnail_url(record.hash.as_str()),
                name: record.filename.clone(),
                size,
                status: String::from_str("uploading"),
            };
            let ghost pv = photo@;
            out.push(photo);
            assert(photo_views(out@) =~= photo_views(before).push(pv));
        }
        i += 1;
    }
    assert(rv.take(records@.len() as int) =~= rv);
    out
}

/// A record whose thumbnail file is absent is left out of the listing.
pub proof fn lemma_listing_excludes_missing(
    stored: Seq<UploadView>,
    on_disk: Seq<Seq<char>>,
    hash: Seq<char>,
)
    requires
        !on_disk.contains(hash),
    ensures
        forall|i: int|
            0 <= i < listing(stored, on_disk).len() ==> #[trigger] listing(stored, on_disk)[i].id
                != hash,
    decreases stored.len(),
{
    if stored.len() > 0 {
        lemma_listing_excludes_missing(stored.drop_last(), on_disk, hash);
        let rest = listing(stored.drop_last(), on_disk);
        match photo_for(stored.last(), on_disk) {
            Some(p) => {
                assert(listing(stored, on_disk) == rest + seq![p]);
                assert(on_disk.contains(p.id));
                assert forall|i: int| 0 <= i < listing(stored, on_disk).len() implies #[trigger] listing(
                    stored,
                    on_disk,
                )[i].id != hash by {
                    if i < rest.len() {
                        assert(listing(stored, on_disk)[i] == rest[i]);
                    }
                }
            },
            None => {
                assert(listing(stored, on_disk) == rest);
            },
        }
    }
}

} // verus!
