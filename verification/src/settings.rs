//! Application settings, the model size choice, and where settings and models live.
use vstd::prelude::*;

use crate::text::{append_str, chars_of, string_of};

verus! {

/// File name of the settings file in the application data directory.
pub const SETTINGS_FILE: &'static str = "settings.json";

/// Models directory below the user's application data directory.
pub const APP_MODEL_ROOT: &'static str = "WisprWin/models";

/// Where speech models are downloaded from.
pub const MODEL_BASE_URL: &'static str = "https://huggingface.co/ggerganov/whisper.cpp/resolve/main";

/// Size of the speech-recognition model.
#[derive(Debug, Clone, Copy, PartialEq, Eq, Structural)]
pub enum ModelSize {
    Tiny,
    Base,
    Small,
    Medium,
    Large,
}

impl Default for ModelSize {
    /// The base model.
    fn default() -> (r: Self)
        ensures
            r == ModelSize::Base,
    {
        ModelSize::Base
    }
}

/// Persisted application settings.
#[derive(Debug, Clone, Copy, PartialEq, Eq, Structural)]
pub struct AppSettings {
    pub stt_model_size: ModelSize,
}

impl Default for AppSettings {
    /// The default model size.
    fn default() -> (r: Self)
        ensures
            r.stt_model_size == ModelSize::Base,
    {
        AppSettings { stt_model_size: ModelSize::Base }
    }
}

/// Where the settings file is.
pub struct SettingsStore {
    path: String,
}

/// The model file of each size.
pub open spec fn model_filename(size: ModelSize) -> Seq<char> {
    match size {
        ModelSize::Tiny => "ggml-tiny.en.bin"@,
        ModelSize::Base => "ggml-base.en.bin"@,
        ModelSize::Small => "ggml-small.en.bin"@,
        ModelSize::Medium => "ggml-medium.en.bin"@,
        ModelSize::Large => "ggml-large-v3.bin"@,
    }
}

/// The path that `Path::join` gives for `base` and `name`. How a separator is
/// chosen, and how prefixes, absolute names and verbatim paths are handled, is
/// std's own business; the result depends on the two arguments alone.
pub uninterp spec fn joined_path(base: Seq<char>, name: Seq<char>) -> Seq<char>;

/// `Path::join` (std): `base` joined with `name`, converted back to a string. The
/// contract names the result and claims nothing about its shape.
#[verifier::external_body]
pub(crate) fn path_join(base: &str, name: &str) -> (r: String)
    ensures
        r@ == joined_path(base@, name@),
{
    std::path::Path::new(base).join(name).to_string_lossy().into_owned()
}

impl ModelSize {
    /// The model file of this size.
    pub fn filename(self) -> (r: &'static str)
        ensures
            r@ == model_filename(self),
    {
        match self {
            ModelSize::Tiny => "ggml-tiny.en.bin",
            ModelSize::Base => "ggml-base.en.bin",
            ModelSize::Small => "ggml-small.en.bin",
            ModelSize::Medium => "ggml-medium.en.bin",
            ModelSize::Large => "ggml-large-v3.bin",
        }
    }

    /// Where the model of this size is downloaded from.
    pub fn download_url(self) -> (r: String)
        ensures
            r@ == MODEL_BASE_URL@ + seq!['/'] + model_filename(self),
    {
        let mut out: Vec<char> = Vec::new();
        append_str(&mut out, MODEL_BASE_URL);
        append_str(&mut out, "/");
        append_str(&mut out, self.filename());
        proof {
            reveal_strlit("/");
        }
        string_of(out.as_slice())
    }
}

impl SettingsStore {
    /// The settings file in `base_dir`.
    pub fn new(base_dir: &str) -> (r: Self)
        ensures
            r.path_view() == joined_path(base_dir@, SETTINGS_FILE@),
    {
        SettingsStore { path: path_join(base_dir, SETTINGS_FILE) }
    }

    /// The settings file.
    pub closed spec fn path_view(&self) -> Seq<char> {
        self.path@
    }

    /// The settings file.
    pub fn path(&self) -> (r: &String)
        ensures
            r@ == self.path_view(),
    {
        &self.path
    }
}

/// What the filesystem reported about a failed operation.
#[derive(Debug)]
pub enum FsErrorKind {
    PermissionDenied,
    NotFound,
    InvalidInput,
    /// Any other error, with its display text.
    Other(String),
}

/// The message for a failed filesystem `action` on `path`.
pub open spec fn fs_error_message(action: Seq<char>, path: Seq<char>, error: FsErrorKind) -> Seq<char> {
    match error {
        FsErrorKind::PermissionDenied => "Cannot "@ + action + " at '"@ + path
            + "': permission denied. Try running with a user account that can access %AppData% or adjust folder permissions."@,
        FsErrorKind::NotFound => "Cannot "@ + action + " at '"@ + path
            + "': path not found. Verify that %AppData% resolves to a valid directory."@,
        FsErrorKind::InvalidInput => "Cannot "@ + action + " at '"@ + path
            + "': invalid path. Verify your %AppData% environment configuration."@,
        FsErrorKind::Other(d) => "Failed to "@ + action + " at '"@ + path + "': "@ + d@,
    }
}

/// A user-facing message for a failed filesystem `action` on `path`.
pub fn map_fs_error(action: &str, path: &str, error: FsErrorKind) -> (r: String)
    ensures
        r@ == fs_error_message(action@, path@, error),
{
    let mut out: Vec<char> = Vec::new();
    match error {
        FsErrorKind::PermissionDenied => {
            append_str(&mut out, "Cannot ");
            append_str(&mut out, action);
            append_str(&mut out, " at '");
            append_str(&mut out, path);
            append_str(
                &mut out,
                "': permission denied. Try running with a user account that can access %AppData% or adjust folder permissions.",
            );
        },
        FsErrorKind::NotFound => {
            append_str(&mut out, "Cannot ");
            append_str(&mut out, action);
            append_str(&mut out, " at '");
            append_str(&mut out, path);
            append_str(
                &mut out,
                "': path not found. Verify that %AppData% resolves to a valid directory.",
            );
        },
        FsErrorKind::InvalidInput => {
            append_str(&mut out, "Cannot ");
            append_str(&mut out, action);
            append_str(&mut out, " at '");
            append_str(&mut out, path);
            append_str(&mut out, "': invalid path. Verify your %AppData% environment configuration.");
        },
        FsErrorKind::Other(d) => {
            append_str(&mut out, "Failed to ");
            append_str(&mut out, action);
            append_str(&mut out, " at '");
            append_str(&mut out, path);
            append_str(&mut out, "': ");
            append_str(&mut out, d.as_str());
        },
    }
    string_of(out.as_slice())
}

/// The models directory for the value of `%AppData%`: an error when it is unset or
/// empty, otherwise `APP_MODEL_ROOT` below it.
pub fn resolve_model_root_dir(appdata: Option<String>) -> (r: Result<String, String>)
    ensures
        match appdata {
            None => r matches Err(e) && e@
                == "Failed to resolve model directory: %AppData% is not set. Please verify your Windows user profile and retry."@,
            Some(a) => if a@.len() == 0 {
                r matches Err(e) && e@
                    == "Failed to resolve model directory: %AppData% is empty. Please verify your Windows profile and retry."@
            } else {
                r matches Ok(p) && p@ == joined_path(a@, APP_MODEL_ROOT@)
            },
        },
{
    match appdata {
        None => Err(
            string_of(
                chars_of(
                    "Failed to resolve model directory: %AppData% is not set. Please verify your Windows user profile and retry.",
                ).as_slice(),
            ),
        ),
        Some(a) => {
            if a.as_str().is_empty() {
                return Err(
                    string_of(
                        chars_of(
                            "Failed to resolve model directory: %AppData% is empty. Please verify your Windows profile and retry.",
                        ).as_slice(),
                    ),
                );
            }
            Ok(path_join(a.as_str(), APP_MODEL_ROOT))
        },
    }
}

/// The lowercase name of a model size.
pub open spec fn size_name(size: ModelSize) -> Seq<char> {
    match size {
        ModelSize::Tiny => "tiny"@,
        ModelSize::Base => "base"@,
        ModelSize::Small => "small"@,
        ModelSize::Medium => "medium"@,
        ModelSize::Large => "large"@,
    }
}

/// Each size has a model file of its own, and the file's name contains the size's
/// name: choosing a size never loads or downloads another size's model.
pub proof fn law_model_files_match_sizes(a: ModelSize, b: ModelSize)
    ensures
        (model_filename(a) == model_filename(b)) <==> a == b,
        exists|i: int|
            0 <= i && i + size_name(a).len() <= model_filename(a).len() && #[trigger] model_filename(
                a,
            ).subrange(i, i + size_name(a).len()) == size_name(a),
{
    reveal_strlit("ggml-tiny.en.bin");
    reveal_strlit("ggml-base.en.bin");
    reveal_strlit("ggml-small.en.bin");
    reveal_strlit("ggml-medium.en.bin");
    reveal_strlit("ggml-large-v3.bin");
    reveal_strlit("tiny");
    reveal_strlit("base");
    reveal_strlit("small");
    reveal_strlit("medium");
    reveal_strlit("large");
    let f = model_filename(a);
    let n = size_name(a);
    assert(f.subrange(5, 5 + n.len() as int) =~= n);
    if model_filename(a) == model_filename(b) && a != b {
        let g = model_filename(b);
        assert(f.len() == g.len());
        assert(f[5] == g[5] && f[6] == g[6]);
    }
}

} // verus!
