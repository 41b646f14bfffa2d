//! The speech-model catalogue and download planning.
//!
//! Five model sizes are known, each with its file name, download URL and
//! approximate size.  The manager owns only the path arithmetic and the
//! download protocol — fetch into a `.tmp` sibling, rename on completion,
//! so a partial download never leaves a corrupt model file.  The caller
//! does the file probing, the network transfer and the rename, and hands
//! the results back as plain values.

use vstd::prelude::*;
use vstd::string::StrSliceExecFns;
use vstd::string::StringExecFns;

use crate::text::lower_of;

verus! {

/// The available speech-model sizes.
#[derive(Debug, Clone, Copy, PartialEq, Eq, Structural)]
pub enum ModelSize {
    Tiny,
    Base,
    Small,
    Medium,
    Large,
}

impl ModelSize {
    /// The size's lowercase name.
    pub fn as_str(&self) -> (r: &'static str)
        ensures
            r@ == (match self {
                ModelSize::Tiny => "tiny"@,
                ModelSize::Base => "base"@,
                ModelSize::Small => "small"@,
                ModelSize::Medium => "medium"@,
                ModelSize::Large => "large"@,
            }),
    {
        match self {
            ModelSize::Tiny => "tiny",
            ModelSize::Base => "base",
            ModelSize::Small => "small",
            ModelSize::Medium => "medium",
            ModelSize::Large => "large",
        }
    }

    /// Where the model's weights are published.
    pub fn download_url(&self) -> (r: &'static str)
        ensures
            r@ == (match self {
                ModelSize::Tiny => "https://huggingface.co/ggerganov/whisper.cpp/resolve/main/ggml-tiny.bin"@,
                ModelSize::Base => "https://huggingface.co/ggerganov/whisper.cpp/resolve/main/ggml-base.bin"@,
                ModelSize::Small => "https://huggingface.co/ggerganov/whisper.cpp/resolve/main/ggml-small.bin"@,
                ModelSize::Medium => "https://huggingface.co/ggerganov/whisper.cpp/resolve/main/ggml-medium.bin"@,
                ModelSize::Large => "https://huggingface.co/ggerganov/whisper.cpp/resolve/main/ggml-large-v3.bin"@,
            }),
    {
        match self {
            ModelSize::Tiny => "https://huggingface.co/ggerganov/whisper.cpp/resolve/main/ggml-tiny.bin",
            ModelSize::Base => "https://huggingface.co/ggerganov/whisper.cpp/resolve/main/ggml-base.bin",
            ModelSize::Small => "https://huggingface.co/ggerganov/whisper.cpp/resolve/main/ggml-small.bin",
            ModelSize::Medium => "https://huggingface.co/ggerganov/whisper.cpp/resolve/main/ggml-medium.bin",
            ModelSize::Large => "https://huggingface.co/ggerganov/whisper.cpp/resolve/main/ggml-large-v3.bin",
        }
    }

    /// The approximate download size, in megabytes.
    pub fn size_mb(&self) -> (r: u64)
        ensures
            r == (match self {
                ModelSize::Tiny => 75u64,
                ModelSize::Base => 142u64,
                ModelSize::Small => 466u64,
                ModelSize::Medium => 1500u64,
                ModelSize::Large => 3100u64,
            }),
    {
        match self {
            ModelSize::Tiny => 75,
            ModelSize::Base => 142,
            ModelSize::Small => 466,
            ModelSize::Medium => 1500,
            ModelSize::Large => 3100,
        }
    }

    /// The weight file's name.
    pub fn filename(&self) -> (r: &'static str)
        ensures
            r@ == spec_filename(*self),
    {
        match self {
            ModelSize::Tiny => "ggml-tiny.bin",
            ModelSize::Base => "ggml-base.bin",
            ModelSize::Small => "ggml-small.bin",
            ModelSize::Medium => "ggml-medium.bin",
            ModelSize::Large => "ggml-large-v3.bin",
        }
    }

    /// All known sizes, smallest first.
    pub fn all() -> (r: Vec<ModelSize>)
        ensures
            r@ =~= seq![
                ModelSize::Tiny,
                ModelSize::Base,
                ModelSize::Small,
                ModelSize::Medium,
                ModelSize::Large,
            ],
    {
        let mut v: Vec<ModelSize> = Vec::new();
        v.push(ModelSize::Tiny);
        v.push(ModelSize::Base);
        v.push(ModelSize::Small);
        v.push(ModelSize::Medium);
        v.push(ModelSize::Large);
        v
    }
}

/// The size's lowercase name, by size.
pub open spec fn spec_size_name(size: ModelSize) -> Seq<char> {
    match size {
        ModelSize::Tiny => "tiny"@,
        ModelSize::Base => "base"@,
        ModelSize::Small => "small"@,
        ModelSize::Medium => "medium"@,
        ModelSize::Large => "large"@,
    }
}

/// The approximate download size in megabytes, by size.
pub open spec fn spec_size_mb(size: ModelSize) -> u64 {
    match size {
        ModelSize::Tiny => 75u64,
        ModelSize::Base => 142u64,
        ModelSize::Small => 466u64,
        ModelSize::Medium => 1500u64,
        ModelSize::Large => 3100u64,
    }
}

/// The weight file's name, by size.
pub open spec fn spec_filename(size: ModelSize) -> Seq<char> {
    match size {
        ModelSize::Tiny => "ggml-tiny.bin"@,
        ModelSize::Base => "ggml-base.bin"@,
        ModelSize::Small => "ggml-small.bin"@,
        ModelSize::Medium => "ggml-medium.bin"@,
        ModelSize::Large => "ggml-large-v3.bin"@,
    }
}

/// Parse a size name, case-insensitively.
pub fn parse_model_size(size: &str) -> (r: Result<ModelSize, String>)
    ensures
        ({
            let l = lower_of(size@);
            if l == "tiny"@ {
                r == Ok::<ModelSize, String>(ModelSize::Tiny)
            } else if l == "base"@ {
                r == Ok::<ModelSize, String>(ModelSize::Base)
            } else if l == "small"@ {
                r == Ok::<ModelSize, String>(ModelSize::Small)
            } else if l == "medium"@ {
                r == Ok::<ModelSize, String>(ModelSize::Medium)
            } else if l == "large"@ {
                r == Ok::<ModelSize, String>(ModelSize::Large)
            } else {
                r matches Err(m) && m@ == "Invalid model size: "@ + size@
            }
        }),
{
    let lower = crate::text::to_lowercase_str(size);
    if eq_str(lower.as_str(), "tiny") {
        Ok(ModelSize::Tiny)
    } else if eq_str(lower.as_str(), "base") {
        Ok(ModelSize::Base)
    } else if eq_str(lower.as_str(), "small") {
        Ok(ModelSize::Small)
    } else if eq_str(lower.as_str(), "medium") {
        Ok(ModelSize::Medium)
    } else if eq_str(lower.as_str(), "large") {
        Ok(ModelSize::Large)
    } else {
        let mut m = "Invalid model size: ".to_owned();
        m.append(size);
        Err(m)
    }
}

/// Character-wise string equality.
pub fn eq_str(a: &str, b: &str) -> (r: bool)
    ensures
        r == (a@ == b@),
{
    let n = a.unicode_len();
    let m = b.unicode_len();
    if n != m {
        proof {
            assert(a@ != b@);
        }
        return false;
    }
    let mut i: usize = 0;
    while i < n
        invariant
            n == a@.len(),
            n == b@.len(),
            i <= n,
            forall|j: int| 0 <= j < i ==> #[trigger] a@[j] == b@[j],
        decreases n - i,
    {
        let ca = a.get_char(i);
        let cb = b.get_char(i);
        if ca != cb {
            proof {
                assert(a@[i as int] != b@[i as int]);
            }
            return false;
        }
        proof {
            assert(a@[i as int] == b@[i as int]);
        }
        i = i + 1;
    }
    proof {
        assert(a@ =~= b@);
    }
    true
}

/// What a catalogue listing reports of one model.
#[derive(Debug)]
pub struct ModelInfo {
    pub size: ModelSize,
    pub name: String,
    pub downloaded: bool,
    pub path: Option<String>,
    pub size_mb: u64,
}

/// How a requested download proceeds.
#[derive(Debug)]
pub enum DownloadPlan {
    /// The weights are already on disk at this path: nothing to fetch.
    AlreadyDownloaded(String),
    /// Fetch from `url` into `temp_path` and rename to `final_path` only
    /// on completion, so an interrupted download leaves no corrupt final
    /// file.
    Fetch { url: String, temp_path: String, final_path: String },
}

/// The model catalogue's path arithmetic: all state is the models
/// directory.
#[derive(Debug)]
pub struct ModelManager {
    models_dir: String,
}

impl ModelManager {
    /// A manager over `<app_data_dir>/models`.
    pub fn new(app_data_dir: &String) -> (r: Self)
        ensures
            r.dir_view() == app_data_dir@ + "/models"@,
    {
        let mut d = app_data_dir.clone();
        d.append("/models");
        ModelManager { models_dir: d }
    }

    /// The models directory.
    pub closed spec fn dir_view(self) -> Seq<char> {
        self.models_dir@
    }

    /// The models directory path.
    pub fn models_dir(&self) -> (r: &String)
        ensures
            r@ == self.dir_view(),
    {
        &self.models_dir
    }

    /// Where a model's weights live: `<models_dir>/<filename>`.
    pub fn model_path(&self, size: ModelSize) -> (r: String)
        ensures
            r@ == self.dir_view() + "/"@ + spec_filename(size),
    {
        let mut p = self.models_dir.clone();
        p.append("/");
        p.append(size.filename());
        p
    }

    /// Whether the model's weight file is among the file names the caller
    /// read from the models directory.
    pub fn is_downloaded(&self, size: ModelSize, dir_files: &Vec<String>) -> (r: bool)
        ensures
            r == exists|i: int|
                0 <= i < dir_files@.len() && #[trigger] dir_files@[i]@ == spec_filename(size),
    {
        let name = size.filename();
        let mut i: usize = 0;
        let n = dir_files.len();
        while i < n
            invariant
                n == dir_files@.len(),
                i <= n,
                name@ == spec_filename(size),
                forall|j: int| 0 <= j < i ==> #[trigger] dir_files@[j]@ != spec_filename(size),
            decreases n - i,
        {
            let f = &dir_files[i];
            let fs = f.as_str();
            let e = eq_str(fs, name);
            proof {
                assert(f@ == dir_files@[i as int]@);
                assert(fs@ == f@);
                assert(name@ == spec_filename(size));
                assert(e == (fs@ == name@));
            }
            if e {
                proof {
                    assert(dir_files@[i as int]@ == spec_filename(size));
                }
                return true;
            }
            proof {
                assert(dir_files@[i as int]@ != spec_filename(size));
            }
            i = i + 1;
        }
        false
    }

    /// The catalogue: one entry per known size, its `downloaded` flag and
    /// path derived from the file names the caller read from the models
    /// directory.
    pub fn list_models(&self, dir_files: &Vec<String>) -> (r: Vec<ModelInfo>)
        ensures
            r@.len() == 5,
            forall|k: int|
                0 <= k < 5 ==> {
                    let size = #[trigger] r@[k].size;
                    let down = exists|i: int|
                        0 <= i < dir_files@.len() && #[trigger] dir_files@[i]@ == spec_filename(
                            size,
                        );
                    &&& size == seq![
                        ModelSize::Tiny,
                        ModelSize::Base,
                        ModelSize::Small,
                        ModelSize::Medium,
                        ModelSize::Large,
                    ][k]
                    &&& r@[k].name@ == spec_size_name(size)
                    &&& r@[k].size_mb == spec_size_mb(size)
                    &&& r@[k].downloaded == down
                    &&& (r@[k].path matches Some(p) ==> down && p@ == self.dir_view() + "/"@
                        + spec_filename(size))
                    &&& (r@[k].path is None ==> !down)
                },
    {
        let sizes = ModelSize::all();
        let mut out: Vec<ModelInfo> = Vec::new();
        let mut i: usize = 0;
        while i < 5
            invariant
                sizes@ =~= seq![
                    ModelSize::Tiny,
                    ModelSize::Base,
                    ModelSize::Small,
                    ModelSize::Medium,
                    ModelSize::Large,
                ],
                i <= 5,
                out@.len() == i,
                forall|k: int|
                    0 <= k < i ==> {
                        let size = #[trigger] out@[k].size;
                        let down = exists|j: int|
                            0 <= j < dir_files@.len() && #[trigger] dir_files@[j]@
                                == spec_filename(size);
                        &&& size == sizes@[k]
                        &&& out@[k].name@ == spec_size_name(size)
                        &&& out@[k].size_mb == spec_size_mb(size)
                        &&& out@[k].downloaded == down
                        &&& (out@[k].path matches Some(p) ==> down && p@ == self.dir_view()
                            + "/"@ + spec_filename(size))
                        &&& (out@[k].path is None ==> !down)
                    },
            decreases 5 - i,
        {
            let size = sizes[i];
            let downloaded = self.is_downloaded(size, dir_files);
            let path = if downloaded {
                Some(self.model_path(size))
            } else {
                None
            };
            out.push(
                ModelInfo {
                    size,
                    name: size.as_str().to_owned(),
                    downloaded,
                    path,
                    size_mb: size.size_mb(),
                },
            );
            i = i + 1;
        }
        out
    }

    /// Decide how a requested download proceeds: the path of the existing
    /// weights where they are already on disk — asking again is a no-op —
    /// else the URL to fetch and the `.tmp` sibling to write, renamed to
    /// the final path only on completion.
    pub fn plan_download(&self, size: ModelSize, dir_files: &Vec<String>) -> (r: DownloadPlan)
        ensures
            ({
                let down = exists|i: int|
                    0 <= i < dir_files@.len() && #[trigger] dir_files@[i]@ == spec_filename(size);
                let path = self.dir_view() + "/"@ + spec_filename(size);
                if down {
                    r matches DownloadPlan::AlreadyDownloaded(p) && p@ == path
                } else {
                    r matches DownloadPlan::Fetch { url, temp_path, final_path }
                        && url@ == (match size {
                        ModelSize::Tiny => "https://huggingface.co/ggerganov/whisper.cpp/resolve/main/ggml-tiny.bin"@,
                        ModelSize::Base => "https://huggingface.co/ggerganov/whisper.cpp/resolve/main/ggml-base.bin"@,
                        ModelSize::Small => "https://huggingface.co/ggerganov/whisper.cpp/resolve/main/ggml-small.bin"@,
                        ModelSize::Medium => "https://huggingface.co/ggerganov/whisper.cpp/resolve/main/ggml-medium.bin"@,
                        ModelSize::Large => "https://huggingface.co/ggerganov/whisper.cpp/resolve/main/ggml-large-v3.bin"@,
                    }) && temp_path@ == path + ".tmp"@ && final_path@ == path
                }
            }),
    {
        let path = self.model_path(size);
        if self.is_downloaded(size, dir_files) {
            DownloadPlan::AlreadyDownloaded(path)
        } else {
            let mut temp = path.clone();
            temp.append(".tmp");
            DownloadPlan::Fetch {
                url: size.download_url().to_owned(),
                temp_path: temp,
                final_path: path,
            }
        }
    }
}

/// The progress a download callback reports, in whole percent: 0 where
/// the server did not supply a length, never above 100.
pub fn download_progress_percent(downloaded: u64, total: u64) -> (r: u8)
    ensures
        total == 0 ==> r == 0,
        total > 0 ==> r as int == (if (downloaded as int) * 100 / (total as int) > 100 {
            100int
        } else {
            (downloaded as int) * 100 / (total as int)
        }),
{
    if total == 0 {
        return 0;
    }
    let pct: u128 = (downloaded as u128) * 100 / (total as u128);
    if pct > 100 {
        100
    } else {
        pct as u8
    }
}






/// The one-at-a-time download guard with its progress gauge: a second
/// download cannot begin while one runs, and the progress reads from 0
/// to 100.
pub struct DownloadState {
    is_downloading: bool,
    progress_percent: u8,
}

impl DownloadState {
    /// No download running, progress at zero.
    pub fn new() -> (r: Self)
        ensures
            !r.spec_downloading(),
            r.spec_progress() == 0,
    {
        DownloadState { is_downloading: false, progress_percent: 0 }
    }

    /// Whether a download is running.
    pub closed spec fn spec_downloading(self) -> bool {
        self.is_downloading
    }

    /// The last reported progress, in whole percent.
    pub closed spec fn spec_progress(self) -> u8 {
        self.progress_percent
    }

    /// Whether a download is running.
    pub fn is_downloading(&self) -> (r: bool)
        ensures
            r == self.spec_downloading(),
    {
        self.is_downloading
    }

    /// The last reported progress, in whole percent.
    pub fn get_download_progress(&self) -> (r: u8)
        ensures
            r == self.spec_progress(),
    {
        self.progress_percent
    }

    /// Begin a download: reports whether one was already running — only
    /// one runs at a time — and resets the progress when none was.
    pub fn begin(&mut self) -> (busy: bool)
        ensures
            busy == old(self).spec_downloading(),
            final(self).spec_downloading(),
            !busy ==> final(self).spec_progress() == 0,
            busy ==> final(self).spec_progress() == old(self).spec_progress(),
    {
        let was = self.is_downloading;
        self.is_downloading = true;
        if !was {
            self.progress_percent = 0;
        }
        was
    }

    /// Record a progress callback's report.
    pub fn set_progress(&mut self, downloaded: u64, total: u64)
        ensures
            final(self).spec_downloading() == old(self).spec_downloading(),
            total == 0 ==> final(self).spec_progress() == old(self).spec_progress(),
            total > 0 ==> final(self).spec_progress() as int == (if (downloaded as int) * 100 / (
            total as int) > 100 {
                100int
            } else {
                (downloaded as int) * 100 / (total as int)
            }),
    {
        if total > 0 {
            self.progress_percent = download_progress_percent(downloaded, total);
        }
    }

    /// End the download, however it went.
    pub fn finish(&mut self)
        ensures
            !final(self).spec_downloading(),
            final(self).spec_progress() == old(self).spec_progress(),
    {
        self.is_downloading = false;
    }
}

} // verus!
