//! The metadata store: upload records, issued tokens and pending auth codes,
//! each table keyed by a string that appears at most once.
use vstd::prelude::*;

verus! {

/// Metadata of one stored file, identified by its content hash.
#[derive(Debug)]
pub struct UploadRecord {
    pub hash: String,
    pub filename: String,
    /// The size the client declared, when it declared one.
    pub size: Option<String>,
    pub created_at: String,
}

pub struct UploadView {
    pub hash: Seq<char>,
    pub filename: Seq<char>,
    pub size: Option<Seq<char>>,
    pub created_at: Seq<char>,
}

pub open spec fn opt_text(o: Option<String>) -> Option<Seq<char>> {
    match o {
        Some(s) => Some(s@),
        None => None,
    }
}

impl View for UploadRecord {
    type V = UploadView;

    open spec fn view(&self) -> UploadView {
        UploadView {
            hash: self.hash@,
            filename: self.filename@,
            size: opt_text(self.size),
            created_at: self.created_at@,
        }
    }
}

/// A session token, bound to a user and to the address of the code it came from.
#[derive(Debug)]
pub struct TokenRecord {
    pub token: String,
    pub username: String,
    pub ip: String,
    pub created_at: String,
}

pub struct TokenView {
    pub token: Seq<char>,
    pub username: Seq<char>,
    pub ip: Seq<char>,
    pub created_at: Seq<char>,
}

impl View for TokenRecord {
    type V = TokenView;

    open spec fn view(&self) -> TokenView {
        TokenView {
            token: self.token@,
            username: self.username@,
            ip: self.ip@,
            created_at: self.created_at@,
        }
    }
}

/// A pairing code and the address of the server that issued it.
#[derive(Debug)]
pub struct AuthCode {
    pub code: String,
    pub ip: String,
    pub created_at: String,
}

pub struct AuthCodeView {
    pub code: Seq<char>,
    pub ip: Seq<char>,
    pub created_at: Seq<char>,
}

impl View for AuthCode {
    type V = AuthCodeView;

    open spec fn view(&self) -> AuthCodeView {
        AuthCodeView { code: self.code@, ip: self.ip@, created_at: self.created_at@ }
    }
}

pub open spec fn upload_keys(s: Seq<UploadView>) -> Seq<Seq<char>> {
    s.map_values(|r: UploadView| r.hash)
}

pub open spec fn token_keys(s: Seq<TokenView>) -> Seq<Seq<char>> {
    s.map_values(|r: TokenView| r.token)
}

pub open spec fn code_keys(s: Seq<AuthCodeView>) -> Seq<Seq<char>> {
    s.map_values(|r: AuthCodeView| r.code)
}

/// The record stored for `hash` (meaningful when there is one).
pub open spec fn upload_for(s: Seq<UploadView>, hash: Seq<char>) -> UploadView {
    s[upload_keys(s).index_of(hash)]
}

/// The entry stored for `code` (meaningful when there is one).
pub open spec fn code_for(s: Seq<AuthCodeView>, code: Seq<char>) -> AuthCodeView {
    s[code_keys(s).index_of(code)]
}

/// First writer wins: the record is added only when its hash is new.
pub open spec fn insert_new_upload(s: Seq<UploadView>, r: UploadView) -> Seq<UploadView> {
    if upload_keys(s).contains(r.hash) {
        s
    } else {
        s.push(r)
    }
}

/// Last writer wins on name and size: an existing record for `hash` takes the
/// new filename and size and keeps its creation time; otherwise a record is added.
pub open spec fn upsert_upload(
    s: Seq<UploadView>,
    hash: Seq<char>,
    filename: Seq<char>,
    size: Seq<char>,
    created_at: Seq<char>,
) -> Seq<UploadView> {
    if upload_keys(s).contains(hash) {
        let i = upload_keys(s).index_of(hash);
        s.update(
            i,
            UploadView { hash, filename, size: Some(size), created_at: s[i].created_at },
        )
    } else {
        s.push(UploadView { hash, filename, size: Some(size), created_at })
    }
}

/// A token is added only when it was never issued before.
pub open spec fn insert_new_token(s: Seq<TokenView>, t: TokenView) -> Seq<TokenView> {
    if token_keys(s).contains(t.token) {
        s
    } else {
        s.push(t)
    }
}

/// Issuing a code again replaces its address and creation time.
pub open spec fn upsert_code(s: Seq<AuthCodeView>, c: AuthCodeView) -> Seq<AuthCodeView> {
    if code_keys(s).contains(c.code) {
        s.update(code_keys(s).index_of(c.code), c)
    } else {
        s.push(c)
    }
}

/// The uploads table after adding each record in turn, first writer winning.
pub open spec fn insert_uploads(s: Seq<UploadView>, rs: Seq<UploadView>) -> Seq<UploadView>
    decreases rs.len(),
{
    if rs.len() == 0 {
        s
    } else {
        insert_new_upload(insert_uploads(s, rs.drop_last()), rs.last())
    }
}

/// The token table after adding each token in turn, first writer winning.
pub open spec fn insert_tokens(s: Seq<TokenView>, ts: Seq<TokenView>) -> Seq<TokenView>
    decreases ts.len(),
{
    if ts.len() == 0 {
        s
    } else {
        insert_new_token(insert_tokens(s, ts.drop_last()), ts.last())
    }
}

/// The code table after recording each code in turn, last writer winning.
pub open spec fn upsert_codes(s: Seq<AuthCodeView>, cs: Seq<AuthCodeView>) -> Seq<AuthCodeView>
    decreases cs.len(),
{
    if cs.len() == 0 {
        s
    } else {
        upsert_code(upsert_codes(s, cs.drop_last()), cs.last())
    }
}

/// The three tables. Each key appears at most once in its table.
pub struct MetadataStore {
    uploads: Vec<UploadRecord>,
    tokens: Vec<TokenRecord>,
    codes: Vec<AuthCode>,
}

impl MetadataStore {
    pub closed spec fn uploads(&self) -> Seq<UploadView> {
        self.uploads@.map_values(|r: UploadRecord| r@)
    }

    pub closed spec fn tokens(&self) -> Seq<TokenView> {
        self.tokens@.map_values(|r: TokenRecord| r@)
    }

    pub closed spec fn codes(&self) -> Seq<AuthCodeView> {
        self.codes@.map_values(|r: AuthCode| r@)
    }

    pub open spec fn wf(&self) -> bool {
        &&& upload_keys(self.uploads()).no_duplicates()
        &&& token_keys(self.tokens()).no_duplicates()
        &&& code_keys(self.codes()).no_duplicates()
    }

    /// An empty store.
    pub fn new() -> (r: MetadataStore)
        ensures
            r.wf(),
            r.uploads() == Seq::<UploadView>::empty(),
            r.tokens() == Seq::<TokenView>::empty(),
            r.codes() == Seq::<AuthCodeView>::empty(),
    {
        let r = MetadataStore { uploads: Vec::new(), tokens: Vec::new(), codes: Vec::new() };
        assert(r.uploads() =~= Seq::<UploadView>::empty());
        assert(r.tokens() =~= Seq::<TokenView>::empty());
        assert(r.codes() =~= Seq::<AuthCodeView>::empty());
        r
    }

    /// The upload records, in the order they were first stored.
    pub fn upload_records(&self) -> (r: &Vec<UploadRecord>)
        ensures
            r@.map_values(|x: UploadRecord| x@) == self.uploads(),
    {
        &self.uploads
    }

    fn find_upload(&self, hash: &String) -> (r: Option<usize>)
        requires
            self.wf(),
        ensures
            match r {
                Some(i) => i < self.uploads().len() && i == upload_keys(self.uploads()).index_of(
                    hash@,
                ) && upload_keys(self.uploads()).contains(hash@),
                None => !upload_keys(self.uploads()).contains(hash@),
            },
    {
        let ghost keys = upload_keys(self.uploads());
        let mut i: usize = 0;
        while i < self.uploads.len()
            invariant
                i <= self.uploads@.len(),
                keys == upload_keys(self.uploads()),
                self.wf(),
                forall|j: int| 0 <= j < i ==> keys[j] != hash@,
            decreases self.uploads@.len() - i,
        {
            if self.uploads[i].hash == *hash {
                proof {
                    assert(keys[i as int] == hash@);
                    assert(keys.contains(hash@));
                    let k = keys.index_of(hash@);
                    assert(keys[k] == hash@);
                }
                return Some(i);
            }
            i += 1;
        }
        None
    }

    /// Whether a record for this content hash exists.
    pub fn has_upload(&self, hash: &String) -> (r: bool)
        requires
            self.wf(),
        ensures
            r == upload_keys(self.uploads()).contains(hash@),
    {
        self.find_upload(hash).is_some()
    }

    /// Adds a record unless one with the same hash exists; says whether it added.
    pub fn record_upload(&mut self, record: UploadRecord) -> (inserted: bool)
        requires
            old(self).wf(),
        ensures
            final(self).wf(),
            inserted == !upload_keys(old(self).uploads()).contains(record@.hash),
            final(self).uploads() == insert_new_upload(old(self).uploads(), record@),
            final(self).tokens() == old(self).tokens(),
            final(self).codes() == old(self).codes(),
    {
        match self.find_upload(&record.hash) {
            Some(_) => false,
            None => {
                let ghost before = self.uploads();
                let ghost rv = record@;
                self.uploads.push(record);
                proof {
                    assert(self.uploads() =~= before.push(rv));
                    assert(upload_keys(self.uploads()) =~= upload_keys(before).push(rv.hash));
                }
                true
            },
        }
    }

    /// Stores the name and size given for `hash`, replacing those of an existing
    /// record (which keeps its creation time) or adding a new record.
    pub fn upsert_upload(&mut self, hash: String, filename: String, size: String, created_at: String)
        requires
            old(self).wf(),
        ensures
            final(self).wf(),
            final(self).uploads() == upsert_upload(
                old(self).uploads(),
                hash@,
                filename@,
                size@,
                created_at@,
            ),
            final(self).tokens() == old(self).tokens(),
            final(self).codes() == old(self).codes(),
    {
        let ghost before = self.uploads();
        let ghost (h, f, z, c) = (hash@, filename@, size@, created_at@);
        match self.find_upload(&hash) {
            Some(i) => {
                let kept = self.uploads[i].created_at.clone();
                let record = UploadRecord { hash, filename, size: Some(size), created_at: kept };
                self.uploads.set(i, record);
                proof {
                    let nv = UploadView { hash: h, filename: f, size: Some(z), created_at: before[i as int].created_at };
                    assert(self.uploads() =~= before.update(i as int, nv));
                    assert(upload_keys(self.uploads()) =~= upload_keys(before));
                }
            },
            None => {
                let record = UploadRecord { hash, filename, size: Some(size), created_at };
                self.uploads.push(record);
                proof {
                    let nv = UploadView { hash: h, filename: f, size: Some(z), created_at: c };
                    assert(self.uploads() =~= before.push(nv));
                    assert(upload_keys(self.uploads()) =~= upload_keys(before).push(h));
                }
            },
        }
    }

    fn find_token(&self, token: &String) -> (r: Option<usize>)
        requires
            self.wf(),
        ensures
            match r {
                Some(i) => i < self.tokens().len() && token_keys(self.tokens()).contains(token@),
                None => !token_keys(self.tokens()).contains(token@),
            },
    {
        let ghost keys = token_keys(self.tokens());
        let mut i: usize = 0;
        while i < self.tokens.len()
            invariant
                i <= self.tokens@.len(),
                keys == token_keys(self.tokens()),
                forall|j: int| 0 <= j < i ==> keys[j] != token@,
            decreases self.tokens@.len() - i,
        {
            if self.tokens[i].token == *token {
                assert(keys[i as int] == token@);
                return Some(i);
            }
            i += 1;
        }
        None
    }

    /// Whether this token was already issued.
    pub fn has_token(&self, token: &String) -> (r: bool)
        requires
            self.wf(),
        ensures
            r == token_keys(self.tokens()).contains(token@),
    {
        self.find_token(token).is_some()
    }

    /// Adds a token unless the same token was issued before; says whether it added.
    pub fn record_token(&mut self, record: TokenRecord) -> (inserted: bool)
        requires
            old(self).wf(),
        ensures
            final(self).wf(),
            inserted == !token_keys(old(self).tokens()).contains(record@.token),
            final(self).tokens() == insert_new_token(old(self).tokens(), record@),
            final(self).uploads() == old(self).uploads(),
            final(self).codes() == old(self).codes(),
    {
        match self.find_token(&record.token) {
            Some(_) => false,
            None => {
                let ghost before = self.tokens();
                let ghost rv = record@;
                self.tokens.push(record);
                proof {
                    assert(self.tokens() =~= before.push(rv));
                    assert(token_keys(self.tokens()) =~= token_keys(before).push(rv.token));
                }
                true
            },
        }
    }

    fn find_code(&self, code: &String) -> (r: Option<usize>)
        requires
            self.wf(),
        ensures
            match r {
                Some(i) => i < self.codes().len() && i == code_keys(self.codes()).index_of(code@)
                    && code_keys(self.codes()).contains(code@),
                None => !code_keys(self.codes()).contains(code@),
            },
    {
        let ghost keys = code_keys(self.codes());
        let mut i: usize = 0;
        while i < self.codes.len()
            invariant
                i <= self.codes@.len(),
                keys == code_keys(self.codes()),
                self.wf(),
                forall|j: int| 0 <= j < i ==> keys[j] != code@,
            decreases self.codes@.len() - i,
        {
            if self.codes[i].code == *code {
                proof {
                    assert(keys[i as int] == code@);
                    assert(keys.contains(code@));
                    let k = keys.index_of(code@);
                    assert(keys[k] == code@);
                }
                return Some(i);
            }
            i += 1;
        }
        None
    }

    /// The address bound to `code`, when the code was issued.
    pub fn code_address(&self, code: &String) -> (r: Option<String>)
        requires
            self.wf(),
        ensures
            r is Some <==> code_keys(self.codes()).contains(code@),
            r matches Some(ip) ==> ip@ == code_for(self.codes(), code@).ip,
    {
        match self.find_code(code) {
            Some(i) => Some(self.codes[i].ip.clone()),
            None => None,
        }
    }

    /// Records an issued code, replacing the entry of an identical code.
    pub fn upsert_code(&mut self, entry: AuthCode)
        requires
            old(self).wf(),
        ensures
            final(self).wf(),
            final(self).codes() == upsert_code(old(self).codes(), entry@),
            final(self).uploads() == old(self).uploads(),
            final(self).tokens() == old(self).tokens(),
    {
        let ghost before = self.codes();
        let ghost ev = entry@;
        match self.find_code(&entry.code) {
            Some(i) => {
                self.codes.set(i, entry);
                proof {
                    assert(self.codes() =~= before.update(i as int, ev));
                    assert(code_keys(self.codes()) =~= code_keys(before));
                }
            },
            None => {
                self.codes.push(entry);
                proof {
                    assert(self.codes() =~= before.push(ev));
                    assert(code_keys(self.codes()) =~= code_keys(before).push(ev.code));
                }
            },
        }
    }
    /// The issued tokens, in order of issue.
    pub fn token_records(&self) -> (r: &Vec<TokenRecord>)
        ensures
            r@.map_values(|x: TokenRecord| x@) == self.tokens(),
    {
        &self.tokens
    }

    /// The issued codes.
    pub fn code_records(&self) -> (r: &Vec<AuthCode>)
        ensures
            r@.map_values(|x: AuthCode| x@) == self.codes(),
    {
        &self.codes
    }

    /// Rebuilds a store from saved rows, added in order to an empty store; a
    /// repeated upload hash or token keeps its first row, a repeated code its last.
    pub fn restore(uploads: &Vec<UploadRecord>, tokens: &Vec<TokenRecord>, codes: &Vec<AuthCode>) -> (r:
        MetadataStore)
        ensures
            r.wf(),
            r.uploads() == insert_uploads(
                Seq::empty(),
                uploads@.map_values(|x: UploadRecord| x@),
            ),
            r.tokens() == insert_tokens(Seq::empty(), tokens@.map_values(|x: TokenRecord| x@)),
            r.codes() == upsert_codes(Seq::empty(), codes@.map_values(|x: AuthCode| x@)),
    {
        let mut store = MetadataStore::new();
        let ghost uv = uploads@.map_values(|x: UploadRecord| x@);
        let mut i: usize = 0;
        while i < uploads.len()
            invariant
                i <= uploads@.len(),
                uv == uploads@.map_values(|x: UploadRecord| x@),
                store.wf(),
                store.uploads() == insert_uploads(Seq::empty(), uv.take(i as int)),
                store.tokens() == Seq::<TokenView>::empty(),
                store.codes() == Seq::<AuthCodeView>::empty(),
            decreases uploads@.len() - i,
        {
            proof {
                assert(uv.take(i + 1).drop_last() =~= uv.take(i as int));
                assert(uv.take(i + 1).last() == uv[i as int]);
            }
            let u = &uploads[i];
            let size = match &u.size {
                Some(z) => Some(z.clone()),
                None => None,
            };
            store.record_upload(
                UploadRecord {
                    hash: u.hash.clone(),
                    filename: u.filename.clone(),
                    size,
                    created_at: u.created_at.clone(),
                },
            );
            i += 1;
        }
        assert(uv.take(uploads@.len() as int) =~= uv);
        let ghost tv = tokens@.map_values(|x: TokenRecord| x@);
        let ghost up = store.uploads();
        let mut j: usize = 0;
        while j < tokens.len()
            invariant
                j <= tokens@.len(),
                tv == tokens@.map_values(|x: TokenRecord| x@),
                store.wf(),
                store.uploads() == up,
                store.tokens() == insert_tokens(Seq::empty(), tv.take(j as int)),
                store.codes() == Seq::<AuthCodeView>::empty(),
            decreases tokens@.len() - j,
        {
            proof {
                assert(tv.take(j + 1).drop_last() =~= tv.take(j as int));
                assert(tv.take(j + 1).last() == tv[j as int]);
            }
            let t = &tokens[j];
            store.record_token(
                TokenRecord {
                    token: t.token.clone(),
                    username: t.username.clone(),
                    ip: t.ip.clone(),
                    created_at: t.created_at.clone(),
                },
            );
            j += 1;
        }
        assert(tv.take(tokens@.len() as int) =~= tv);
        let ghost cv = codes@.map_values(|x: AuthCode| x@);
        let ghost tk = store.tokens();
        let mut k: usize = 0;
        while k < codes.len()
            invariant
                k <= codes@.len(),
                cv == codes@.map_values(|x: AuthCode| x@),
                store.wf(),
                store.uploads() == up,
                store.tokens() == tk,
                store.codes() == upsert_codes(Seq::empty(), cv.take(k as int)),
            decreases codes@.len() - k,
        {
            proof {
                assert(cv.take(k + 1).drop_last() =~= cv.take(k as int));
                assert(cv.take(k + 1).last() == cv[k as int]);
            }
            let c = &codes[k];
            store.upsert_code(
                AuthCode { code: c.code.clone(), ip: c.ip.clone(), created_at: c.created_at.clone() },
            );
            k += 1;
        }
        assert(cv.take(codes@.len() as int) =~= cv);
        store
    }
}

} // verus!
