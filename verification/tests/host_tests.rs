use krain_aivm::host::{on_answer, on_read, on_written, HostAction, HOST_FAILURE};

#[test]
fn unreadable_request_fails() {
    assert!(matches!(on_read(None), HostAction::Finish(-1)));
    assert!(matches!(on_read(Some(vec![1, 2])), HostAction::Run(ref v) if v == &vec![1, 2]));
}

#[test]
fn failed_operation_fails() {
    assert!(matches!(on_answer(Err("krain-aivm: not initialised"), 100), HostAction::Finish(-1)));
}

#[test]
fn answer_must_fit() {
    assert!(matches!(on_answer(Ok(vec![0; 41]), 40), HostAction::Finish(-1)));
    assert!(matches!(on_answer(Ok(vec![0; 41]), 41), HostAction::Write(ref v) if v.len() == 41));
    assert!(matches!(on_answer(Ok(vec![]), 0), HostAction::Write(ref v) if v.is_empty()));
}

#[test]
fn status_is_written_length() {
    assert!(matches!(on_written(41, true), HostAction::Finish(41)));
    assert!(matches!(on_written(41, false), HostAction::Finish(s) if s == HOST_FAILURE));
}
