use wisprtype::settings::{ModelSize, SettingsStore};
use wisprtype::stt::{load_from_backends, ModelManager, SttError, SwapAction};
use wisprtype::stt::transcript_from_segments;
use wisprtype::stt::{after_transcription, cpu_retry_failed, TranscribeStep};

#[test]
fn error_messages() {
    assert_eq!(
        SttError::ModelLoad { backend: "cpu", message: "bad file".to_string() }.message(),
        "Failed to load model with cpu backend: bad file"
    );
    assert_eq!(SttError::BackendNotInitialized("cpu").message(), "cpu backend is not initialized");
    assert_eq!(
        SttError::Inference { backend: "cpu", message: "oom".to_string() }.message(),
        "cpu backend inference failed: oom"
    );
    assert_eq!(SttError::ModelDownload("404".to_string()).message(), "404");
    assert_eq!(
        SttError::NoBackendAvailable { attempts: vec!["a".to_string(), "b".to_string()] }.message(),
        "No STT backend could be initialized (a; b)"
    );
}

#[test]
fn models_load_on_the_cpu() {
    let loaded = load_from_backends(|name| Ok::<String, SttError>(format!("ctx for {}", name))).unwrap();
    assert_eq!(loaded.0, "ctx for cpu");
    assert_eq!(loaded.1, "cpu");
}

#[test]
fn failures_of_every_backend_are_listed() {
    let err = load_from_backends(|_| {
        Err::<(), SttError>(SttError::ModelLoad { backend: "cpu", message: "corrupt".to_string() })
    })
    .unwrap_err();
    assert_eq!(
        err.message(),
        "No STT backend could be initialized (cuda backend unavailable: CUDA backend is not available in this build; openvino backend unavailable: OpenVINO backend is not available in this build; Failed to load model with cpu backend: corrupt)"
    );
}

fn manager(size: ModelSize) -> ModelManager {
    ModelManager::from_parts("/m".to_string(), SettingsStore::new("/s"), size)
}

#[test]
fn model_path_follows_the_selection() {
    assert_eq!(manager(ModelSize::Tiny).active_model_path(), "/m/ggml-tiny.en.bin");
    assert_eq!(manager(ModelSize::Medium).selected_size(), ModelSize::Medium);
}

/// Runs a model switch; `ensure` and `persist` give the outcomes of making the
/// model present and of saving. Returns the requests made and the result.
fn run_swap(
    m: &mut ModelManager,
    size: ModelSize,
    ensure: Result<(), SttError>,
    persist: Result<(), SttError>,
) -> (Vec<String>, Result<String, SttError>) {
    let (mut phase, first) = m.swap_model(size);
    let mut requests = Vec::new();
    let mut action = Some(first);
    let mut ensure = Some(ensure);
    let mut persist = Some(persist);
    loop {
        let outcome = match action {
            Some(SwapAction::EnsureModel { path, size }) => {
                requests.push(format!("ensure {} {:?}", path, size));
                ensure.take().unwrap()
            }
            Some(SwapAction::PersistSize(size)) => {
                requests.push(format!("persist {:?}", size));
                persist.take().unwrap()
            }
            Some(SwapAction::Finish(result)) => return (requests, result),
            None => panic!("switch ended without a result"),
        };
        let (next, following) = m.swap_step(phase, outcome);
        phase = next;
        action = following;
    }
}

#[test]
fn swapping_to_a_missing_model_keeps_the_old_one() {
    let mut m = manager(ModelSize::Base);
    let (requests, r) = run_swap(&mut m, ModelSize::Large, Err(SttError::ModelDownload("offline".to_string())), Ok(()));
    assert_eq!(r.unwrap_err().message(), "offline");
    assert_eq!(requests, vec!["ensure /m/ggml-large-v3.bin Large".to_string()]);
    assert_eq!(m.selected_size(), ModelSize::Base);
}

#[test]
fn swapping_saves_the_new_choice() {
    let mut m = manager(ModelSize::Base);
    let (requests, r) = run_swap(&mut m, ModelSize::Small, Ok(()), Ok(()));
    assert_eq!(r.ok(), Some("/m/ggml-small.en.bin".to_string()));
    assert_eq!(m.selected_size(), ModelSize::Small);
    assert_eq!(requests, vec!["ensure /m/ggml-small.en.bin Small".to_string(), "persist Small".to_string()]);

    let mut m = manager(ModelSize::Base);
    let (_, r) = run_swap(&mut m, ModelSize::Small, Ok(()), Err(SttError::SettingsPersist("read-only".to_string())));
    assert_eq!(r.unwrap_err().message(), "read-only");
    assert_eq!(m.selected_size(), ModelSize::Small);

    let mut m = manager(ModelSize::Base);
    let (requests, r) = run_swap(&mut m, ModelSize::Base, Ok(()), Err(SttError::SettingsPersist("unused".to_string())));
    assert_eq!(r.ok(), Some("/m/ggml-base.en.bin".to_string()));
    assert_eq!(requests, vec!["ensure /m/ggml-base.en.bin Base".to_string()]);
}

#[test]
fn segments_are_joined_and_trimmed() {
    assert_eq!(transcript_from_segments(&vec![" Hello".to_string(), " world. ".to_string()]), "Hello world.");
    assert_eq!(transcript_from_segments(&vec![]), "");
}

#[test]
fn accelerated_failures_retry_on_the_cpu() {
    let e = || SttError::Inference { backend: "cuda", message: "lost device".to_string() };
    assert!(matches!(after_transcription("cuda", Err(e())), TranscribeStep::RetryOnCpu(_)));
    assert!(matches!(after_transcription("cpu", Err(e())), TranscribeStep::Finished(Err(_))));
    assert!(matches!(after_transcription("cuda", Ok("hi".to_string())), TranscribeStep::Finished(Ok(t)) if t == "hi"));
    let both = cpu_retry_failed(e(), SttError::Inference { backend: "cpu", message: "oom".to_string() });
    assert_eq!(
        both.message(),
        "No STT backend could be initialized (cuda backend inference failed: lost device; cpu backend inference failed: oom)"
    );
}

#[test]
fn manager_keeps_its_settings_file() {
    let mut m = manager(ModelSize::Base);
    assert_eq!(m.settings_store().path(), "/s/settings.json");
    let _ = run_swap(&mut m, ModelSize::Tiny, Ok(()), Ok(()));
    assert_eq!(m.settings_store().path(), "/s/settings.json");
}
