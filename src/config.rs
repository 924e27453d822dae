//! Runtime configuration: the export directory that uploads go to, and the
//! local side channel that hands a directory to a companion process.
use vstd::prelude::*;
use crate::paths::join;
use crate::text::{push_char, push_str};

verus! {

/// The export directory used when a configuration request names none.
pub const DEFAULT_EXPORT_DIR: &'static str = "C:\\Export";

/// The user that the side channel reports.
pub const SIDE_CHANNEL_USER: &'static str = "bruno";

/// A request to reconfigure the upload directory.
#[derive(Clone, Debug)]
pub struct ConfigPayload {
    pub upload_dir: Option<String>,
}

impl ConfigPayload {
    /// The directory that uploads go to after this request: the one it names,
    /// else the default export directory.
    pub fn export_dir(&self) -> (r: String)
        ensures
            r@ == match self.upload_dir {
                Some(d) => d@,
                None => DEFAULT_EXPORT_DIR@,
            },
    {
        match &self.upload_dir {
            Some(d) => d.clone(),
            None => String::from_str(DEFAULT_EXPORT_DIR),
        }
    }
}

/// The answer to a configuration request: both directories it set up.
pub open spec fn config_summary_text(internal: Seq<char>, export: Seq<char>) -> Seq<char> {
    "📂 Internal directory: "@ + internal + "\n📤 Export directory: "@ + export
}

pub fn config_summary(internal: &str, export: &str) -> (r: String)
    ensures
        r@ == config_summary_text(internal@, export@),
{
    let mut out = String::from_str("📂 Internal directory: ");
    push_str(&mut out, internal);
    push_str(&mut out, "\n📤 Export directory: ");
    push_str(&mut out, export);
    out
}

/// A text without its leading and trailing whitespace.
pub uninterp spec fn trimmed(s: Seq<char>) -> Seq<char>;

/// Relies on `str::trim`: the text without leading and trailing whitespace,
/// which depends on the text alone.
#[verifier::external_body]
fn trim_text(s: &str) -> (r: String)
    ensures
        r@ == trimmed(s@),
{
    s.trim().to_string()
}

/// Whether a side-channel request asks for the configuration: it reads
/// `CONFIG`, ignoring surrounding whitespace.
pub fn is_config_request(request: &str) -> (r: bool)
    ensures
        r == (trimmed(request@) == "CONFIG"@),
{
    let t = trim_text(request);
    let config = String::from_str("CONFIG");
    t == config
}

/// The directories that the companion process expects under `base`, for `user`:
/// `base/user/dcim/thumbs` and `base/user/downloads/thumbs`.
pub fn companion_dirs(base: &str, user: &str) -> (r: (String, String))
    ensures
        r.0@ == join(join(join(base@, user@), "dcim"@), "thumbs"@),
        r.1@ == join(join(join(base@, user@), "downloads"@), "thumbs"@),
{
    let mut user_dir = String::from_str(base);
    push_char(&mut user_dir, '/');
    push_str(&mut user_dir, user);
    let mut dcim = user_dir.clone();
    push_char(&mut dcim, '/');
    push_str(&mut dcim, "dcim");
    push_char(&mut dcim, '/');
    push_str(&mut dcim, "thumbs");
    let mut downloads = user_dir;
    push_char(&mut downloads, '/');
    push_str(&mut downloads, "downloads");
    push_char(&mut downloads, '/');
    push_str(&mut downloads, "thumbs");
    (dcim, downloads)
}

} // verus!
