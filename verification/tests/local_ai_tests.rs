use flowy_ai::download::{DownloadAction, DownloadEvent, DownloadState, DownloadTask};
use flowy_ai::error::{AiError, FailureReason};
use flowy_ai::local_ai::{
    clone_model, find_model, resolve_model_info, LlmModelInfo, LocalAiController, LocalModel,
    PluginState,
};

fn model(id: i64, size: u64, installed: bool) -> LocalModel {
    LocalModel {
        model_id: id,
        name: format!("model-{}", id),
        path: format!("/models/{}", id),
        size,
        installed,
    }
}

fn controller() -> LocalAiController {
    LocalAiController::new(
        vec![model(1, 100, true), model(2, 1000, false)],
        Some("/models".to_string()),
        Some("https://example.org/app".to_string()),
    )
}

fn downloading() -> LocalAiController {
    let mut c = controller();
    assert_eq!(c.select_local_llm(2), Ok(true));
    assert_eq!(c.start_downloading(77), Ok(1));
    c
}

#[test]
fn new_controller_is_uninitialized() {
    let c = controller();
    assert_eq!(c.get_chat_plugin_state(), PluginState::Uninitialized);
    assert!(c.is_enabled() && c.is_chat_enabled() && c.is_rag_enabled());
    assert!(c.get_current_model().is_none());
    assert!(c.download.is_none());
}

#[test]
fn selecting_an_installed_model_installs_it() {
    let mut c = controller();
    assert_eq!(c.select_local_llm(1), Ok(false));
    assert_eq!(c.state, PluginState::Installed(1));
    assert_eq!(c.selected, Some(1));
    assert_eq!(c.get_current_model().unwrap().name, "model-1");
}

#[test]
fn selecting_a_missing_model_queues_a_download() {
    let mut c = controller();
    assert_eq!(c.select_local_llm(2), Ok(true));
    assert_eq!(c.state, PluginState::Downloading);
    let task = c.download.unwrap();
    assert_eq!(task.state, DownloadState::Queued);
    assert_eq!(task.model_id, 2);
    assert_eq!(task.total, 1000);
    assert_eq!(task.received, 0);
    assert_eq!(task.task_id, 1);
    assert_eq!(c.next_task_id, 2);
    assert_eq!(c.selected, None);
}

#[test]
fn selecting_an_unknown_model_fails() {
    let mut c = controller();
    assert_eq!(c.select_local_llm(9), Err(AiError::ModelNotFound));
    assert_eq!(c.state, PluginState::Uninitialized);
}

#[test]
fn selecting_while_downloading_is_in_progress() {
    let mut c = downloading();
    assert_eq!(c.select_local_llm(1), Err(AiError::OperationInProgress));
    assert_eq!(c.state, PluginState::Downloading);
    assert_eq!(c.selected, None);
}

#[test]
fn second_download_is_refused_and_changes_nothing() {
    let mut c = downloading();
    assert_eq!(c.on_download_event(DownloadEvent::Chunk(10)), DownloadAction::ReportProgress {
        received: 10,
        total: 1000,
    });
    let before = c.download.unwrap();
    assert_eq!(c.start_downloading(5), Err(AiError::OperationInProgress));
    assert_eq!(c.download.unwrap(), before);
    assert_eq!(before.state, DownloadState::Running);
    assert_eq!(before.progress_port, 77);
    assert_eq!(c.state, PluginState::Downloading);
}

#[test]
fn start_without_a_queued_task_fails() {
    let mut c = controller();
    assert_eq!(c.start_downloading(1), Err(AiError::NothingToDownload));
    assert_eq!(c.state, PluginState::Uninitialized);
    let mut done = downloading();
    assert_eq!(done.on_download_event(DownloadEvent::Finished), DownloadAction::Install);
    assert_eq!(done.start_downloading(1), Err(AiError::NothingToDownload));
    assert_eq!(done.state, PluginState::Installed(2));
}

#[test]
fn a_failed_download_can_be_tried_again() {
    let mut c = downloading();
    c.on_download_event(DownloadEvent::Chunk(300));
    c.on_download_event(DownloadEvent::Failed(FailureReason::Network));
    assert_eq!(c.state, PluginState::Error(FailureReason::Network));
    assert_eq!(c.start_downloading(8), Ok(2));
    assert_eq!(c.state, PluginState::Downloading);
    let task = c.download.unwrap();
    assert_eq!(task.state, DownloadState::Running);
    assert_eq!((task.received, task.total), (0, 1000));
    assert_eq!(task.model_id, 2);
    assert_eq!(task.progress_port, 8);
    assert!(!task.cancel_requested);
    assert_eq!(c.next_task_id, 3);
}

#[test]
fn at_most_one_model_is_selected() {
    let mut c = controller();
    assert!(!c.is_selected(1) && !c.is_selected(2));
    c.select_local_llm(1).unwrap();
    assert!(c.is_selected(1) && !c.is_selected(2));
}

#[test]
fn progress_never_goes_down_and_is_full_on_success() {
    let mut c = downloading();
    let mut last: u64 = 0;
    for n in [0u64, 100, 1, 400, 10_000, u64::MAX, 3] {
        match c.on_download_event(DownloadEvent::Chunk(n)) {
            DownloadAction::ReportProgress { received, total } => {
                assert!(received >= last);
                assert!(received < total);
                assert_eq!(total, 1000);
                last = received;
            },
            other => panic!("unexpected action {:?}", other),
        }
    }
    assert_eq!(last, 999);
    assert_eq!(c.on_download_event(DownloadEvent::Finished), DownloadAction::Install);
    let task = c.download.unwrap();
    assert_eq!(task.progress(), (1000, 1000));
    assert_eq!(task.state, DownloadState::Completed);
    assert_eq!(c.state, PluginState::Installed(2));
    assert_eq!(c.selected, Some(2));
    assert!(c.models[1].installed);
    assert_eq!(c.models[1].name, "model-2");
    assert!(c.models[0].installed);
}

#[test]
fn exact_chunk_arithmetic() {
    let mut task = DownloadTask::queued(3, 9, 10);
    task.state = DownloadState::Running;
    assert_eq!(task.on_event(DownloadEvent::Chunk(4)), DownloadAction::ReportProgress {
        received: 4,
        total: 10,
    });
    assert_eq!(task.on_event(DownloadEvent::Chunk(5)), DownloadAction::ReportProgress {
        received: 9,
        total: 10,
    });
    assert_eq!(task.on_event(DownloadEvent::Chunk(1)), DownloadAction::ReportProgress {
        received: 9,
        total: 10,
    });
    assert_eq!(task.on_event(DownloadEvent::Finished), DownloadAction::Install);
    assert_eq!(task.received, 10);
    assert_eq!(task.on_event(DownloadEvent::Chunk(1)), DownloadAction::Ignore);
    assert_eq!(task.received, 10);
}

#[test]
fn queued_task_of_an_empty_model_expects_one_byte() {
    let task = DownloadTask::queued(1, 2, 0);
    assert_eq!(task.total, 1);
    assert_eq!(task.received, 0);
    assert_eq!(task.state, DownloadState::Queued);
    assert!(!task.cancel_requested);
}

#[test]
fn cancelled_download_never_reaches_full_progress() {
    let mut c = downloading();
    c.on_download_event(DownloadEvent::Chunk(500));
    assert!(c.cancel_download());
    assert_eq!(c.state, PluginState::Downloading);
    let action = c.on_download_event(DownloadEvent::Finished);
    assert_eq!(action, DownloadAction::Discard(FailureReason::Cancelled));
    let task = c.download.unwrap();
    assert_eq!(task.state, DownloadState::Cancelled);
    assert_eq!(task.received, 500);
    assert!(task.received < task.total);
    assert_eq!(c.state, PluginState::Error(FailureReason::Cancelled));
    assert!(!c.models[1].installed);
    assert_eq!(c.on_download_event(DownloadEvent::Chunk(1)), DownloadAction::Ignore);
}

#[test]
fn cancelling_a_queued_download_ends_it_at_once() {
    let mut c = controller();
    assert_eq!(c.select_local_llm(2), Ok(true));
    assert!(c.cancel_download());
    assert_eq!(c.download.unwrap().state, DownloadState::Cancelled);
    assert_eq!(c.state, PluginState::Error(FailureReason::Cancelled));
    assert!(!c.cancel_download());
}

#[test]
fn cancel_without_a_download_does_nothing() {
    let mut c = controller();
    assert!(!c.cancel_download());
    assert_eq!(c.state, PluginState::Uninitialized);
}

#[test]
fn failed_download_keeps_the_installed_model() {
    let mut c = controller();
    assert_eq!(c.select_local_llm(1), Ok(false));
    assert_eq!(c.select_local_llm(2), Ok(true));
    assert_eq!(c.start_downloading(1), Ok(1));
    let action = c.on_download_event(DownloadEvent::Failed(FailureReason::ChecksumMismatch));
    assert_eq!(action, DownloadAction::Discard(FailureReason::ChecksumMismatch));
    assert_eq!(c.state, PluginState::Error(FailureReason::ChecksumMismatch));
    assert_eq!(c.selected, Some(1));
    assert_eq!(c.get_current_model().unwrap().model_id, 1);
    assert_eq!(c.select_local_llm(1), Ok(false));
    assert_eq!(c.state, PluginState::Installed(1));
}

#[test]
fn restart_and_toggle_move_the_plugin() {
    let mut c = controller();
    c.restart_chat_plugin();
    assert_eq!(c.state, PluginState::Uninitialized);
    c.select_local_llm(1).unwrap();
    c.restart_chat_plugin();
    assert_eq!(c.state, PluginState::Running);
    assert!(!c.toggle_local_ai());
    assert_eq!(c.state, PluginState::Stopped);
    assert!(!c.is_enabled());
    assert!(c.toggle_local_ai());
    assert_eq!(c.state, PluginState::Running);
}

#[test]
fn toggles_are_independent() {
    let mut c = controller();
    assert!(c.is_chat_enabled());
    assert!(!c.toggle_local_ai_chat_rag());
    assert!(c.is_chat_enabled());
    assert!(!c.is_rag_enabled());
    assert!(!c.toggle_local_ai_chat());
    assert!(!c.is_rag_enabled());
    assert!(c.toggle_local_ai_chat());
    assert!(c.is_chat_enabled());
    assert!(c.is_enabled());
    assert_eq!(c.state, PluginState::Uninitialized);
}

#[test]
fn toggle_snapshots() {
    let mut c = controller();
    let s = c.toggle_local_ai_chat_state();
    assert!(!s.enabled && s.file_enabled);
    assert_eq!(s.plugin_state, PluginState::Uninitialized);
    let s = c.toggle_local_ai_chat_file_state();
    assert!(!s.enabled && !s.file_enabled);
    assert_eq!(c.get_local_ai_chat_state(), s);
}

#[test]
fn backend_failure_is_an_error_state() {
    let mut c = downloading();
    c.report_failure(FailureReason::Backend);
    assert_eq!(c.state, PluginState::Error(FailureReason::Backend));
    assert_eq!(c.download.unwrap().state, DownloadState::Failed(FailureReason::Backend));
    assert_eq!(c.select_local_llm(1), Ok(false));
}

#[test]
fn configuration_queries() {
    let c = controller();
    assert_eq!(c.get_model_storage_directory(), Ok("/models".to_string()));
    assert_eq!(c.get_offline_ai_app_download_link(), Ok("https://example.org/app".to_string()));
    let bare = LocalAiController::new(Vec::new(), None, None);
    assert_eq!(bare.get_model_storage_directory(), Err(AiError::StorageDirectoryMissing));
    assert_eq!(bare.get_offline_ai_app_download_link(), Err(AiError::DownloadLinkMissing));
}

#[test]
fn find_model_takes_the_first_place() {
    let models = vec![model(5, 1, false), model(6, 1, false), model(5, 2, true)];
    assert_eq!(find_model(&models, 5), Some(0));
    assert_eq!(find_model(&models, 6), Some(1));
    assert_eq!(find_model(&models, 7), None);
    let copy = clone_model(&models[2]);
    assert_eq!(copy.size, 2);
    assert!(copy.installed);
    assert_eq!(copy.path, "/models/5");
}

#[test]
fn failed_refresh_falls_back_to_the_current_model() {
    let r = resolve_model_info(Err(AiError::Backend(FailureReason::Network)), Some(model(1, 1, true)));
    let info = r.unwrap();
    assert_eq!(info.selected_model.model_id, 1);
    assert_eq!(info.models.len(), 1);
    assert_eq!(info.models[0].model_id, 1);
    let r = resolve_model_info(Err(AiError::Backend(FailureReason::Network)), None);
    assert_eq!(r.err(), Some(AiError::Backend(FailureReason::Network)));
    let fresh = LlmModelInfo { selected_model: model(2, 1, true), models: vec![model(2, 1, true), model(3, 1, false)] };
    let r = resolve_model_info(Ok(fresh), Some(model(1, 1, true))).unwrap();
    assert_eq!(r.selected_model.model_id, 2);
    assert_eq!(r.models.len(), 2);
}

#[test]
fn controller_reports_its_model_when_refresh_fails() {
    let mut c = controller();
    let failure = AiError::Backend(FailureReason::Network);
    assert_eq!(c.refresh_local_ai_info(Err(failure)).err(), Some(failure));
    c.select_local_llm(1).unwrap();
    let info = c.refresh_local_ai_info(Err(failure)).unwrap();
    assert_eq!(info.selected_model.model_id, 1);
    assert_eq!(info.selected_model.name, "model-1");
    assert_eq!(info.models.len(), 1);
    let fresh = LlmModelInfo { selected_model: model(2, 5, true), models: vec![model(2, 5, true)] };
    assert_eq!(c.refresh_local_ai_info(Ok(fresh)).unwrap().selected_model.model_id, 2);
}

#[test]
fn local_llm_state_falls_back_to_the_last_good_model() {
    let mut c = controller();
    let failure = AiError::Backend(FailureReason::Network);
    assert_eq!(c.get_local_llm_state(Err(failure)).err(), Some(failure));
    c.select_local_llm(1).unwrap();
    c.select_local_llm(2).unwrap();
    c.start_downloading(1).unwrap();
    c.on_download_event(DownloadEvent::Failed(FailureReason::DiskFull));
    let info = c.get_local_llm_state(Err(failure)).unwrap();
    assert_eq!(info.selected_model.model_id, 1);
    assert_eq!(info.models.len(), 1);
    assert_eq!(info.models[0].path, "/models/1");
    let fresh = LlmModelInfo { selected_model: model(2, 5, true), models: vec![model(2, 5, true)] };
    assert_eq!(c.get_local_llm_state(Ok(fresh)).unwrap().selected_model.model_id, 2);
}
