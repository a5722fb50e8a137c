//! Local speech recognition: its errors, the backends tried in order of preference,
//! and the model manager that switches model sizes.
use vstd::prelude::*;

use crate::settings::{
    joined_path, model_filename, path_join, ModelSize, SettingsStore,
};
use crate::text::{append_str, chars_of, string_of, trim, trim_chars};

verus! {

/// A speech-recognition failure.
#[derive(Debug)]
pub enum SttError {
    ModelDirResolve(String),
    ModelDownload(String),
    ModelLoad { backend: &'static str, message: String },
    BackendUnavailable { backend: &'static str, message: String },
    BackendNotInitialized(&'static str),
    NoBackendAvailable { attempts: Vec<String> },
    Inference { backend: &'static str, message: String },
    SettingsPersist(String),
}

/// The text of a list of attempts joined by `"; "`.
pub open spec fn joined_attempts(attempts: Seq<String>) -> Seq<char>
    decreases attempts.len(),
{
    if attempts.len() == 0 {
        Seq::empty()
    } else if attempts.len() == 1 {
        attempts[0]@
    } else {
        joined_attempts(attempts.drop_last()) + "; "@ + attempts.last()@
    }
}

/// The display text of an error.
pub open spec fn stt_error_text(e: SttError) -> Seq<char> {
    match e {
        SttError::ModelDirResolve(m) => m@,
        SttError::ModelDownload(m) => m@,
        SttError::ModelLoad { backend, message } => "Failed to load model with "@ + backend@
            + " backend: "@ + message@,
        SttError::BackendUnavailable { backend, message } => backend@ + " backend unavailable: "@
            + message@,
        SttError::BackendNotInitialized(backend) => backend@ + " backend is not initialized"@,
        SttError::NoBackendAvailable { attempts } => "No STT backend could be initialized ("@
            + joined_attempts(attempts@) + ")"@,
        SttError::Inference { backend, message } => backend@ + " backend inference failed: "@
            + message@,
        SttError::SettingsPersist(m) => m@,
    }
}

impl SttError {
    /// The display text of the error.
    pub fn message(&self) -> (r: String)
        ensures
            r@ == stt_error_text(*self),
    {
        let mut out: Vec<char> = Vec::new();
        match self {
            SttError::ModelDirResolve(m) => append_str(&mut out, m.as_str()),
            SttError::ModelDownload(m) => append_str(&mut out, m.as_str()),
            SttError::ModelLoad { backend, message } => {
                append_str(&mut out, "Failed to load model with ");
                append_str(&mut out, backend);
                append_str(&mut out, " backend: ");
                append_str(&mut out, message.as_str());
            },
            SttError::BackendUnavailable { backend, message } => {
                append_str(&mut out, backend);
                append_str(&mut out, " backend unavailable: ");
                append_str(&mut out, message.as_str());
            },
            SttError::BackendNotInitialized(backend) => {
                append_str(&mut out, backend);
                append_str(&mut out, " backend is not initialized");
            },
            SttError::NoBackendAvailable { attempts } => {
                append_str(&mut out, "No STT backend could be initialized (");
                let mut i: usize = 0;
                while i < attempts.len()
                    invariant
                        i <= attempts@.len(),
                        out@ == "No STT backend could be initialized ("@ + joined_attempts(
                            attempts@.take(i as int),
                        ),
                    decreases attempts@.len() - i,
                {
                    assert(attempts@.take(i + 1).drop_last() =~= attempts@.take(i as int));
                    if i > 0 {
                        append_str(&mut out, "; ");
                    }
                    append_str(&mut out, attempts[i].as_str());
                    proof {
                        if i == 0 {
                            assert(joined_attempts(attempts@.take(1)) == attempts@[0]@);
                        }
                    }
                    i += 1;
                }
                assert(attempts@.take(attempts@.len() as int) =~= attempts@);
                append_str(&mut out, ")");
            },
            SttError::Inference { backend, message } => {
                append_str(&mut out, backend);
                append_str(&mut out, " backend inference failed: ");
                append_str(&mut out, message.as_str());
            },
            SttError::SettingsPersist(m) => append_str(&mut out, m.as_str()),
        }
        string_of(out.as_slice())
    }
}

/// What a backend offers.
#[derive(Debug, Clone, Copy)]
pub struct BackendCapabilities {
    pub name: &'static str,
    pub accelerated: bool,
}

/// A speech-recognition backend. Loading the model itself is done by the caller once
/// `check_ready` succeeds.
pub trait SttBackend {
    fn initialize(&mut self) -> Result<(), SttError>;

    fn capabilities(&self) -> BackendCapabilities;

    fn check_ready(&self) -> Result<(), SttError>;
}

/// The CPU backend; always available.
pub struct CpuBackend {
    initialized: bool,
}

/// The CUDA backend; not available in this build.
pub struct CudaBackend;

/// The OpenVINO backend; not available in this build.
pub struct OpenVinoBackend;

impl CpuBackend {
    pub fn new() -> (r: Self)
        ensures
            !r.is_initialized(),
    {
        CpuBackend { initialized: false }
    }

    pub closed spec fn is_initialized(&self) -> bool {
        self.initialized
    }
}

impl SttBackend for CpuBackend {
    fn initialize(&mut self) -> (r: Result<(), SttError>)
        ensures
            r is Ok,
            final(self).is_initialized(),
    {
        self.initialized = true;
        Ok(())
    }

    fn capabilities(&self) -> (r: BackendCapabilities)
        ensures
            r.name@ == "cpu"@ && !r.accelerated,
    {
        BackendCapabilities { name: "cpu", accelerated: false }
    }

    fn check_ready(&self) -> (r: Result<(), SttError>)
        ensures
            self.is_initialized() ==> r is Ok,
            !self.is_initialized() ==> (r matches Err(SttError::BackendNotInitialized(b)) && b@
                == "cpu"@),
    {
        if !self.initialized {
            return Err(SttError::BackendNotInitialized("cpu"));
        }
        Ok(())
    }
}

/// The error of a backend that this build lacks.
pub open spec fn unavailable(e: SttError, backend: Seq<char>, message: Seq<char>) -> bool {
    e matches SttError::BackendUnavailable { backend: b, message: m } && b@ == backend && m@
        == message
}

impl SttBackend for CudaBackend {
    fn initialize(&mut self) -> (r: Result<(), SttError>)
        ensures
            r matches Err(e) && unavailable(e, "cuda"@, "CUDA backend is not available in this build"@),
    {
        Err(
            SttError::BackendUnavailable {
                backend: "cuda",
                message: string_of(
                    crate::text::chars_of("CUDA backend is not available in this build").as_slice(),
                ),
            },
        )
    }

    fn capabilities(&self) -> (r: BackendCapabilities)
        ensures
            r.name@ == "cuda"@ && r.accelerated,
    {
        BackendCapabilities { name: "cuda", accelerated: true }
    }

    fn check_ready(&self) -> (r: Result<(), SttError>)
        ensures
            r matches Err(e) && unavailable(e, "cuda"@, "CUDA backend is not available in this build"@),
    {
        let mut s = CudaBackend;
        s.initialize()
    }
}

impl SttBackend for OpenVinoBackend {
    fn initialize(&mut self) -> (r: Result<(), SttError>)
        ensures
            r matches Err(e) && unavailable(
                e,
                "openvino"@,
                "OpenVINO backend is not available in this build"@,
            ),
    {
        Err(
            SttError::BackendUnavailable {
                backend: "openvino",
                message: string_of(
                    crate::text::chars_of("OpenVINO backend is not available in this build").as_slice(),
                ),
            },
        )
    }

    fn capabilities(&self) -> (r: BackendCapabilities)
        ensures
            r.name@ == "openvino"@ && r.accelerated,
    {
        BackendCapabilities { name: "openvino", accelerated: true }
    }

    fn check_ready(&self) -> (r: Result<(), SttError>)
        ensures
            r matches Err(e) && unavailable(
                e,
                "openvino"@,
                "OpenVINO backend is not available in this build"@,
            ),
    {
        let mut s = OpenVinoBackend;
        s.initialize()
    }
}

/// The message of the CUDA backend's failure.
pub open spec fn cuda_attempt() -> Seq<char> {
    "cuda"@ + " backend unavailable: "@ + "CUDA backend is not available in this build"@
}

/// The message of the OpenVINO backend's failure.
pub open spec fn openvino_attempt() -> Seq<char> {
    "openvino"@ + " backend unavailable: "@ + "OpenVINO backend is not available in this build"@
}

/// Loads a model with the first backend that works, trying CUDA, then OpenVINO,
/// then the CPU. `create_context` loads the model for the named backend once that
/// backend is ready. When every backend fails, the error lists each failure.
pub fn load_from_backends<T, F: Fn(&'static str) -> Result<T, SttError>>(create_context: F) -> (r:
    Result<(T, &'static str), SttError>)
    requires
        forall|name: &'static str| create_context.requires((name,)),
    ensures
        exists|name: &'static str, out: Result<T, SttError>|
            #![trigger create_context.ensures((name,), out)]
            name@ == "cpu"@ && create_context.ensures((name,), out) && match out {
                Ok(t) => r matches Ok((t2, n)) && t2 == t && n@ == "cpu"@,
                Err(e) => r matches Err(SttError::NoBackendAvailable { attempts }) && attempts@.len()
                    == 3 && attempts@[0]@ == cuda_attempt() && attempts@[1]@ == openvino_attempt()
                    && attempts@[2]@ == stt_error_text(e),
            },
{
    let mut attempts: Vec<String> = Vec::new();
    let mut cuda = CudaBackend;
    match cuda.initialize() {
        Ok(()) => {},
        Err(e) => {
            attempts.push(e.message());
        },
    }
    let mut openvino = OpenVinoBackend;
    match openvino.initialize() {
        Ok(()) => {},
        Err(e) => {
            attempts.push(e.message());
        },
    }
    let mut cpu = CpuBackend::new();
    let _ = cpu.initialize();
    let name = cpu.capabilities().name;
    match cpu.check_ready() {
        Ok(()) => {},
        Err(e) => {
            attempts.push(e.message());
        },
    }
    assert(attempts@.len() == 2);
    match create_context(name) {
        Ok(context) => Ok((context, name)),
        Err(e) => {
            attempts.push(e.message());
            Err(SttError::NoBackendAvailable { attempts })
        },
    }
}

/// How far a model switch has got.
#[derive(Debug, Clone, Copy, PartialEq, Eq, Structural)]
pub enum SwapPhase {
    /// The model of the new size is being made present; `previous` was selected before.
    Ensuring { previous: ModelSize },
    /// The new size is being saved to the settings.
    Persisting,
    /// The switch is over.
    Finished,
}

/// What the surroundings do next in a model switch.
#[derive(Debug)]
pub enum SwapAction {
    /// Make the model file of `size` present at `path` (download it if missing),
    /// then hand the outcome to `ModelManager::swap_step`.
    EnsureModel { path: String, size: ModelSize },
    /// Save this size as the selected one in the settings, then hand the outcome to
    /// `ModelManager::swap_step`.
    PersistSize(ModelSize),
    /// The switch is over: the model's path, or why it failed.
    Finish(Result<String, SttError>),
}

/// Chooses and locates the speech model.
pub struct ModelManager {
    model_dir: String,
    settings_store: SettingsStore,
    selected_size: ModelSize,
}

impl ModelManager {
    /// A manager of the models in `model_dir` with `selected_size` selected.
    pub fn from_parts(model_dir: String, settings_store: SettingsStore, selected_size: ModelSize) -> (r:
        Self)
        ensures
            r.model_dir_view() == model_dir@,
            r.selected() == selected_size,
            r.store() == settings_store,
    {
        ModelManager { model_dir, settings_store, selected_size }
    }

    pub closed spec fn model_dir_view(&self) -> Seq<char> {
        self.model_dir@
    }

    pub closed spec fn selected(&self) -> ModelSize {
        self.selected_size
    }

    /// The settings file the manager saves the selection to.
    pub closed spec fn store(&self) -> SettingsStore {
        self.settings_store
    }

    /// The selected model size.
    pub fn selected_size(&self) -> (r: ModelSize)
        ensures
            r == self.selected(),
    {
        self.selected_size
    }

    /// The settings file.
    pub fn settings_store(&self) -> (r: &SettingsStore)
        ensures
            *r == self.store(),
            r.path_view() == self.store().path_view(),
    {
        &self.settings_store
    }

    /// The model file of the selected size.
    pub fn active_model_path(&self) -> (r: String)
        ensures
            r@ == joined_path(self.model_dir_view(), model_filename(self.selected())),
    {
        path_join(self.model_dir.as_str(), self.selected_size.filename())
    }

    /// Starts switching to `size`: the size is selected at once, and the model file
    /// of that size must be made present (`EnsureModel`, with its path) before
    /// anything else happens. `previous` in the phase remembers the size that was
    /// selected before.
    pub fn swap_model(&mut self, size: ModelSize) -> (r: (SwapPhase, SwapAction))
        ensures
            final(self).model_dir_view() == old(self).model_dir_view(),
            final(self).store() == old(self).store(),
            final(self).selected() == size,
            r.0 == (SwapPhase::Ensuring { previous: old(self).selected() }),
            r.1 matches SwapAction::EnsureModel { path, size: s } && s == size && path@ == joined_path(
                old(self).model_dir_view(),
                model_filename(size),
            ),
    {
        let previous = self.selected_size;
        self.selected_size = size;
        let path = self.active_model_path();
        (SwapPhase::Ensuring { previous }, SwapAction::EnsureModel { path, size })
    }

    /// One step of a model switch, after the last action ended with `outcome`.
    /// - Making the model present failed: the previous size is selected again and
    ///   the switch fails with that error; nothing is saved.
    /// - The model is present and the size did not change: the switch is over with
    ///   the model's path; nothing is saved.
    /// - The model is present and the size changed: the new size is saved
    ///   (`PersistSize`).
    /// - Saving succeeded: the switch is over with the model's path; saving failed:
    ///   it fails with that error, the new size staying selected.
    /// Once the switch is over, nothing more happens.
    pub fn swap_step(&mut self, phase: SwapPhase, outcome: Result<(), SttError>) -> (r: (
        SwapPhase,
        Option<SwapAction>,
    ))
        ensures
            final(self).model_dir_view() == old(self).model_dir_view(),
            final(self).store() == old(self).store(),
            match phase {
                SwapPhase::Ensuring { previous } => match outcome {
                    Err(e) => final(self).selected() == previous && r.0 == SwapPhase::Finished
                        && r.1 == Some(SwapAction::Finish(Err::<String, SttError>(e))),
                    Ok(()) => final(self).selected() == old(self).selected() && if previous == old(
                        self,
                    ).selected() {
                        &&& r.0 == SwapPhase::Finished
                        &&& r.1 matches Some(SwapAction::Finish(Ok(p))) && p@ == joined_path(
                            old(self).model_dir_view(),
                            model_filename(old(self).selected()),
                        )
                    } else {
                        r.0 == SwapPhase::Persisting && r.1 == Some(
                            SwapAction::PersistSize(old(self).selected()),
                        )
                    },
                },
                SwapPhase::Persisting => final(self).selected() == old(self).selected()
                    && r.0 == SwapPhase::Finished && match outcome {
                    Ok(()) => r.1 matches Some(SwapAction::Finish(Ok(p))) && p@ == joined_path(
                        old(self).model_dir_view(),
                        model_filename(old(self).selected()),
                    ),
                    Err(e) => r.1 == Some(SwapAction::Finish(Err::<String, SttError>(e))),
                },
                SwapPhase::Finished => final(self).selected() == old(self).selected() && r.0
                    == SwapPhase::Finished && r.1 is None,
            },
    {
        match phase {
            SwapPhase::Ensuring { previous } => match outcome {
                Err(e) => {
                    self.selected_size = previous;
                    (SwapPhase::Finished, Some(SwapAction::Finish(Err(e))))
                },
                Ok(()) => {
                    if previous == self.selected_size {
                        (SwapPhase::Finished, Some(SwapAction::Finish(Ok(self.active_model_path()))))
                    } else {
                        (SwapPhase::Persisting, Some(SwapAction::PersistSize(self.selected_size)))
                    }
                },
            },
            SwapPhase::Persisting => match outcome {
                Ok(()) => (SwapPhase::Finished, Some(SwapAction::Finish(Ok(self.active_model_path())))),
                Err(e) => (SwapPhase::Finished, Some(SwapAction::Finish(Err(e)))),
            },
            SwapPhase::Finished => (SwapPhase::Finished, None),
        }
    }

}


/// The text of segments put one after the other.
pub open spec fn concat_all(parts: Seq<String>) -> Seq<char>
    decreases parts.len(),
{
    if parts.len() == 0 {
        Seq::empty()
    } else {
        concat_all(parts.drop_last()) + parts.last()@
    }
}

/// The transcript of recognised segments: their texts one after the other, trimmed.
pub fn transcript_from_segments(segments: &Vec<String>) -> (r: String)
    ensures
        r@ == trim(concat_all(segments@)),
{
    let mut all: Vec<char> = Vec::new();
    let mut i: usize = 0;
    while i < segments.len()
        invariant
            i <= segments@.len(),
            all@ == concat_all(segments@.take(i as int)),
        decreases segments@.len() - i,
    {
        assert(segments@.take(i + 1).drop_last() =~= segments@.take(i as int));
        append_str(&mut all, segments[i].as_str());
        i += 1;
    }
    assert(segments@.take(segments@.len() as int) =~= segments@);
    string_of(trim_chars(all.as_slice()).as_slice())
}

/// What follows a transcription attempt on the backend `backend`.
#[derive(Debug)]
pub enum TranscribeStep {
    /// The transcription is over with this result.
    Finished(Result<String, SttError>),
    /// An accelerated backend failed with this error: load the model on the CPU and
    /// try once more.
    RetryOnCpu(SttError),
}

/// A failure on an accelerated backend is retried on the CPU; anything else is final.
pub fn after_transcription(backend: &str, outcome: Result<String, SttError>) -> (r: TranscribeStep)
    ensures
        match outcome {
            Ok(t) => r matches TranscribeStep::Finished(Ok(t2)) && t2 == t,
            Err(e) => if backend@ == "cpu"@ {
                r matches TranscribeStep::Finished(Err(e2)) && e2 == e
            } else {
                r matches TranscribeStep::RetryOnCpu(e2) && e2 == e
            },
        },
{
    match outcome {
        Ok(t) => TranscribeStep::Finished(Ok(t)),
        Err(e) => {
            let b = chars_of(backend);
            if crate::text::chars_eq_str(b.as_slice(), "cpu") {
                TranscribeStep::Finished(Err(e))
            } else {
                TranscribeStep::RetryOnCpu(e)
            }
        },
    }
}

/// The error when the retry on the CPU failed too: both failures, in order.
pub fn cpu_retry_failed(first: SttError, second: SttError) -> (r: SttError)
    ensures
        r matches SttError::NoBackendAvailable { attempts } && attempts@.len() == 2 && attempts@[0]@
            == stt_error_text(first) && attempts@[1]@ == stt_error_text(second),
{
    let mut attempts: Vec<String> = Vec::new();
    attempts.push(first.message());
    attempts.push(second.message());
    SttError::NoBackendAvailable { attempts }
}

} // verus!
