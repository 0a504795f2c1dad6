use sticker_process::runner::{
    cancelled_message, decide, judge_attempt, probe_status, queue_step, retry_message, run_gate,
    task_name, AttemptOutcome, AttemptVerdict, Decision, NextStep, QueueStep, RunGate,
};
use sticker_process::transcoder::{resolve_engine, Engine, Status};

#[test]
fn resolve_engine_passthrough_valid() {
    assert_eq!(resolve_engine(Engine::Inprocess, true), Engine::Inprocess);
    assert_eq!(resolve_engine(Engine::Inprocess, false), Engine::Inprocess);
    let sc = resolve_engine(Engine::Sidecar, true);
    assert!(sc == Engine::Sidecar || sc == Engine::Inprocess);
    assert_eq!(resolve_engine(Engine::Sidecar, true), Engine::Sidecar);
    assert_eq!(resolve_engine(Engine::Sidecar, false), Engine::Inprocess);
}

#[test]
fn resolve_engine_webcodecs_falls_back_on_desktop() {
    assert_eq!(resolve_engine(Engine::Webcodecs, true), Engine::Inprocess);
    assert_eq!(resolve_engine(Engine::Webcodecs, false), Engine::Inprocess);
}

#[test]
fn engine_parse_ffmpeg_wasm_roundtrip() {
    let engine = Engine::parse("ffmpeg-wasm").expect("ffmpeg-wasm must parse");
    assert_eq!(engine.as_str(), "ffmpeg-wasm");
    assert_eq!(Engine::parse(engine.as_str()), Some(Engine::FfmpegWasm));
}

#[test]
fn decide_table_covers_retry_and_advance() {
    assert_eq!(decide(Some(true), true, 0, 3), Decision::Retry);
    assert_eq!(decide(Some(true), true, 3, 3), Decision::Advance);
    assert_eq!(decide(Some(true), false, 0, 3), Decision::Advance);
    assert_eq!(decide(Some(false), true, 0, 3), Decision::Advance);
    assert_eq!(decide(None, true, 0, 3), Decision::Advance);
}

#[test]
fn judge_attempt_outcomes() {
    assert_eq!(
        judge_attempt(AttemptOutcome::Failed { cancelled: true }, 0, 3),
        AttemptVerdict { status: Status::Pending, next: NextStep::Cancel, discard_output: true }
    );
    assert_eq!(
        judge_attempt(AttemptOutcome::Failed { cancelled: false }, 0, 3),
        AttemptVerdict { status: Status::Alert, next: NextStep::Advance, discard_output: true }
    );
    assert_eq!(
        judge_attempt(AttemptOutcome::SizeUnknown, 0, 3),
        AttemptVerdict { status: Status::Alert, next: NextStep::Advance, discard_output: false }
    );
    assert_eq!(
        judge_attempt(AttemptOutcome::Measured { over_limit: Some(true), has_factor: true }, 1, 3),
        AttemptVerdict { status: Status::SizeExcess, next: NextStep::Retry, discard_output: false }
    );
    assert_eq!(
        judge_attempt(AttemptOutcome::Measured { over_limit: Some(true), has_factor: true }, 3, 3),
        AttemptVerdict { status: Status::SizeExcess, next: NextStep::Advance, discard_output: false }
    );
    assert_eq!(
        judge_attempt(AttemptOutcome::Measured { over_limit: Some(false), has_factor: true }, 0, 3),
        AttemptVerdict { status: Status::Done, next: NextStep::Advance, discard_output: false }
    );
    assert_eq!(
        judge_attempt(AttemptOutcome::Measured { over_limit: None, has_factor: true }, 0, 3),
        AttemptVerdict { status: Status::Alert, next: NextStep::Advance, discard_output: false }
    );
}

#[test]
fn retries_stop_at_the_budget() {
    let mut retry = 0u8;
    let max = 3u8;
    let mut attempts = 0;
    loop {
        attempts += 1;
        let v = judge_attempt(AttemptOutcome::Measured { over_limit: Some(true), has_factor: true }, retry, max);
        if v.next != NextStep::Retry {
            assert_eq!(v.status, Status::SizeExcess);
            break;
        }
        retry += 1;
    }
    assert_eq!(attempts, 4);
}

#[test]
fn queue_steps() {
    assert_eq!(queue_step(false, None), QueueStep::Stop);
    assert_eq!(queue_step(true, Some(Status::Pending)), QueueStep::Stop);
    assert_eq!(queue_step(false, Some(Status::Probing)), QueueStep::Wait);
    assert_eq!(queue_step(false, Some(Status::Done)), QueueStep::Skip);
    assert_eq!(queue_step(false, Some(Status::Alert)), QueueStep::Run);
    assert_eq!(queue_step(false, Some(Status::SizeExcess)), QueueStep::Run);
}

#[test]
fn run_gate_answers() {
    assert_eq!(run_gate(true, &vec![Status::Pending]), RunGate::Ignore);
    assert_eq!(run_gate(false, &vec![]), RunGate::Ignore);
    assert_eq!(run_gate(false, &vec![Status::Done, Status::Done]), RunGate::NothingToRun);
    assert_eq!(run_gate(false, &vec![Status::Done, Status::Probing]), RunGate::WaitForProbing);
    assert_eq!(run_gate(false, &vec![Status::Processing, Status::Pending]), RunGate::WaitForProbing);
    assert_eq!(run_gate(false, &vec![Status::Done, Status::Alert]), RunGate::Start);
}

#[test]
fn probe_write_back() {
    assert_eq!(probe_status(Status::Processing, true), None);
    assert_eq!(probe_status(Status::Probing, true), Some(Status::Pending));
    assert_eq!(probe_status(Status::Probing, false), Some(Status::Alert));
}

#[test]
fn task_names_and_messages() {
    assert_eq!(task_name(r"D:\in put\clip.mp4", true), "clip.mp4");
    assert_eq!(task_name("input/anim.gif", true), "anim.gif");
    assert_eq!(task_name("pic.png", true), "pic.png");
    assert_eq!(task_name("..", true), "..");
    assert_eq!(task_name("", true), "");
    // a drive prefix is no part of the name
    assert_eq!(task_name("C:clip.mp4", true), "clip.mp4");
    assert_eq!(task_name("C:", true), "C:");
    // in the browser only `/` separates
    assert_eq!(task_name(r"a\b.png", false), r"a\b.png");
    assert_eq!(task_name(r"a\b.png", true), "b.png");
    assert_eq!(task_name("C:clip.mp4", false), "C:clip.mp4");
    assert_eq!(retry_message(1, 3), "Output over size limit, retrying (1/3)");
    assert_eq!(cancelled_message("clip.mp4"), "Task cancelled: clip.mp4");
}
