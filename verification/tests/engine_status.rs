use project_commentator::status::{
    dispatch, no_brain_reply, Dispatch, LoadFailure, Phase, Request, Status,
};

fn ready_flag_consistent(s: &Status) -> bool {
    s.model_ready == (s.phase == Phase::Ready) && s.progress_total > 0
}

#[test]
fn idle_status() {
    let s = Status::idle();
    assert_eq!(s.phase, Phase::Idle);
    assert!(!s.model_ready);
    assert_eq!(s.message, "No brain loaded");
    assert_eq!(s.model_name, "");
    assert_eq!((s.progress_done, s.progress_total), (0, 1));
    assert_eq!((s.downloaded_bytes, s.total_bytes), (0, 0));
    assert_eq!(s.error, None);
}

#[test]
fn driver_error_status() {
    let s = Status::error("could not start the engine: engine not started".to_string());
    assert_eq!(s.phase, Phase::Error);
    assert!(!s.model_ready);
    assert_eq!(s.message, "could not start the engine: engine not started");
    assert_eq!(s.error.as_deref(), Some("could not start the engine: engine not started"));
}

#[test]
fn a_full_load() {
    let mut s = Status::idle();
    s.begin_download("Gemma 4 E2B QAT", "gemma-4-E2B_q4_0-it.gguf", 3_350_000_000);
    assert_eq!(s.phase, Phase::Downloading);
    assert_eq!(s.message, "Downloading gemma-4-E2B_q4_0-it.gguf…");
    assert_eq!(s.model_name, "Gemma 4 E2B QAT");
    assert_eq!(s.total_bytes, 3_350_000_000);
    assert!(ready_flag_consistent(&s));

    s.record_progress(1_000, 4_000);
    assert_eq!((s.progress_done, s.progress_total), (1_000, 4_000));
    assert_eq!((s.downloaded_bytes, s.total_bytes), (1_000, 4_000));

    s.record_progress(10, 0);
    assert_eq!(s.progress_done, 0);
    assert_eq!(s.total_bytes, 0);

    s.begin_loading("Gemma 4 E2B QAT");
    assert_eq!(s.phase, Phase::Loading);
    assert_eq!(s.message, "Spinning up the cortex…");
    assert_eq!(s.progress_done, s.progress_total);
    assert!(!s.model_ready);

    s.mark_ready("Gemma 4 E2B QAT");
    assert_eq!(s.phase, Phase::Ready);
    assert!(s.model_ready);
    assert_eq!(s.message, "Gemma 4 E2B QAT ready");
    assert_eq!(s.error, None);
    assert!(ready_flag_consistent(&s));
}

#[test]
fn failures_carry_their_detail() {
    let mut s = Status::idle();
    s.fail("Failed to load brain", "file not found".to_string());
    assert_eq!(s.phase, Phase::Error);
    assert!(!s.model_ready);
    assert_eq!(s.message, "Failed to load brain");
    assert_eq!(s.error.as_deref(), Some("file not found"));

    s.unknown_brain("llama-9");
    assert_eq!(s.message, "Unknown brain");
    assert_eq!(s.error.as_deref(), Some("no brain 'llama-9'"));
}

#[test]
fn law_ready_flag_follows_phase_through_a_failed_reload() {
    let mut s = Status::idle();
    s.mark_ready("A");
    assert!(ready_flag_consistent(&s));
    s.fail("Context init failed", "oom".to_string());
    assert!(ready_flag_consistent(&s));
    assert!(!s.model_ready);
    s.begin_download("B", "b.gguf", 5);
    assert!(ready_flag_consistent(&s));
    assert_eq!(s.error.as_deref(), Some("oom"));
    s.mark_ready("B");
    assert!(ready_flag_consistent(&s));
    assert_eq!(s.error, None);
}

#[test]
fn settled_phases() {
    assert!(Phase::Ready.is_settled());
    assert!(Phase::Error.is_settled());
    assert!(!Phase::Idle.is_settled());
    assert!(!Phase::Downloading.is_settled());
    assert!(!Phase::Loading.is_settled());
}

#[test]
fn worker_dispatch_table() {
    assert_eq!(dispatch(false, Some(Request::Load)), Dispatch::StartLoad);
    assert_eq!(dispatch(false, Some(Request::Generate)), Dispatch::Refuse);
    assert_eq!(dispatch(true, Some(Request::Generate)), Dispatch::Generate);
    assert_eq!(dispatch(true, Some(Request::Load)), Dispatch::Reload);
    assert_eq!(dispatch(true, None), Dispatch::Stop);
    assert_eq!(dispatch(false, None), Dispatch::Stop);
    assert_eq!(no_brain_reply(), "no brain loaded");
}

#[test]
fn law_ready_means_complete_progress() {
    let mut s = Status::idle();
    s.begin_download("B", "b.gguf", 100);
    s.record_progress(40, 100);
    assert_eq!((s.progress_done, s.progress_total), (40, 100));
    s.begin_loading("B");
    s.mark_ready("B");
    assert_eq!(s.progress_done, s.progress_total);
}

#[test]
fn each_load_step_reports_its_own_failure() {
    let cases = [
        (LoadFailure::BackendInit("no metal".to_string()), "Backend init failed", "no metal"),
        (LoadFailure::LoadBrain("404".to_string()), "Failed to load brain", "404"),
        (LoadFailure::ProjectorInit("bad file".to_string()), "Vision projector init failed", "bad file"),
        (LoadFailure::NoVision, "Brain has no vision", "mmproj projector reports no vision support"),
        (LoadFailure::ContextInit("oom".to_string()), "Context init failed", "oom"),
    ];
    for (failure, message, detail) in cases {
        let mut s = Status::idle();
        s.begin_loading("B");
        s.record_failure(failure);
        assert_eq!(s.phase, Phase::Error);
        assert!(!s.model_ready);
        assert_eq!(s.message, message);
        assert_eq!(s.error.as_deref(), Some(detail));
        assert_eq!(s.model_name, "B");
    }
}
