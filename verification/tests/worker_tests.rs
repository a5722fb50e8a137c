use wisprtype::worker::{
    check_reply, is_blank_request, next_request_step, no_response_error, response_for,
    worker_exe_name, HandlerOutcome, RequestError, RequestStep, WorkerKind, WorkerResponse,
    WorkerResponseEnvelope, WorkerSession,
};
use wisprtype::worker::{locate_worker_executable, send_failed_error};

#[test]
fn worker_names() {
    assert_eq!(WorkerKind::Stt.label(), "STT worker");
    assert_eq!(WorkerKind::Refinement.label(), "refinement worker");
    assert_eq!(worker_exe_name(WorkerKind::Stt, true), "wisprtype-stt-worker.exe");
    assert_eq!(worker_exe_name(WorkerKind::Refinement, false), "wisprtype-refinement-worker");
}

#[test]
fn request_ids_count_up_from_one() {
    let mut s = WorkerSession::new(WorkerKind::Stt);
    assert_eq!(s.worker_kind(), WorkerKind::Stt);
    assert_eq!(s.take_id(), 1);
    assert_eq!(s.take_id(), 2);
    assert_eq!(s.take_id(), 3);
}

fn reply(id: u64, response: WorkerResponse) -> Result<WorkerResponseEnvelope, String> {
    Ok(WorkerResponseEnvelope { id, response })
}

fn view(r: Result<String, RequestError>) -> Result<String, (bool, String)> {
    match r {
        Ok(t) => Ok(t),
        Err(RequestError::Worker(e)) => Err((true, e)),
        Err(RequestError::Transport(e)) => Err((false, e)),
    }
}

#[test]
fn replies_are_checked() {
    assert_eq!(view(check_reply(WorkerKind::Stt, 4, Ok(10), reply(4, WorkerResponse::Done("hi".to_string())))), Ok("hi".to_string()));
    assert_eq!(
        view(check_reply(WorkerKind::Stt, 4, Ok(10), reply(4, WorkerResponse::Failed("no model".to_string())))),
        Err((true, "no model".to_string()))
    );
    assert_eq!(
        view(check_reply(WorkerKind::Stt, 4, Ok(10), reply(5, WorkerResponse::Done("hi".to_string())))),
        Err((false, "STT worker response id mismatch: expected 4, got 5".to_string()))
    );
    assert_eq!(
        view(check_reply(WorkerKind::Refinement, 4, Ok(0), reply(4, WorkerResponse::Done("hi".to_string())))),
        Err((false, "refinement worker exited before responding".to_string()))
    );
    assert_eq!(
        view(check_reply(WorkerKind::Stt, 4, Err("broken pipe".to_string()), Err("unused".to_string()))),
        Err((false, "Failed to read response from STT worker: broken pipe".to_string()))
    );
    assert_eq!(
        view(check_reply(WorkerKind::Stt, 4, Ok(3), Err("expected value".to_string()))),
        Err((false, "STT worker returned invalid response: expected value".to_string()))
    );
}

#[test]
fn transport_failures_are_retried_once() {
    assert!(matches!(next_request_step(0, Err(RequestError::Transport("x".to_string()))), RequestStep::Retry));
    assert!(matches!(next_request_step(1, Err(RequestError::Transport("x".to_string()))), RequestStep::Finished(Err(e)) if e == "x"));
    assert!(matches!(next_request_step(0, Err(RequestError::Worker("w".to_string()))), RequestStep::Finished(Err(e)) if e == "w"));
    assert!(matches!(next_request_step(0, Ok("t".to_string())), RequestStep::Finished(Ok(t)) if t == "t"));
    assert_eq!(no_response_error(WorkerKind::Stt), "STT worker did not return a response");
}

#[test]
fn worker_side() {
    assert!(is_blank_request("  \r\n"));
    assert!(!is_blank_request(" {} "));
    assert!(matches!(response_for(HandlerOutcome::Done(Ok("a".to_string()))), WorkerResponse::Done(t) if t == "a"));
    assert!(matches!(response_for(HandlerOutcome::Done(Err("b".to_string()))), WorkerResponse::Failed(e) if e == "b"));
    assert!(matches!(response_for(HandlerOutcome::Panicked), WorkerResponse::Failed(e) if e == "Native worker request panicked"));
}

#[test]
fn worker_executable_is_found_beside_the_app_first() {
    let beside = Ok(Some(("/app/w".to_string(), true)));
    assert_eq!(locate_worker_executable(WorkerKind::Stt, "w", beside, Ok(("/cwd/w".to_string(), true))), Ok("/app/w".to_string()));
    let missing = Ok(Some(("/app/w".to_string(), false)));
    assert_eq!(locate_worker_executable(WorkerKind::Stt, "w", missing, Ok(("/cwd/w".to_string(), true))), Ok("/cwd/w".to_string()));
    assert_eq!(
        locate_worker_executable(WorkerKind::Refinement, "w", Ok(None), Ok(("/cwd/w".to_string(), false))),
        Err("refinement worker executable `w` was not found next to the app binary".to_string())
    );
    assert_eq!(
        locate_worker_executable(WorkerKind::Stt, "w", Err("gone".to_string()), Ok(("/cwd/w".to_string(), true))),
        Err("Failed to locate current executable for STT worker: gone".to_string())
    );
    assert_eq!(
        locate_worker_executable(WorkerKind::Stt, "w", Ok(None), Err("no cwd".to_string())),
        Err("Failed to resolve current directory: no cwd".to_string())
    );
    assert_eq!(send_failed_error(WorkerKind::Stt, "broken pipe"), "Failed to send request to STT worker: broken pipe");
}
