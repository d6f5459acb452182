//! The lifecycle of the locally hosted model: which model is selected,
//! whether its files are here, whether the plugin runs, and the one
//! download that may be under way.
use vstd::prelude::*;
use crate::download::{DownloadAction, DownloadEvent, DownloadState, DownloadTask};
use crate::error::{AiError, FailureReason};

verus! {

/// Where the plugin of the local model stands.
#[derive(Debug, Clone, Copy, PartialEq, Eq, Structural)]
pub enum PluginState {
    Uninitialized,
    Downloading,
    Installed(i64),
    Running,
    Stopped,
    Error(FailureReason),
}

/// A model that can be selected.
#[derive(Debug)]
pub struct LocalModel {
    pub model_id: i64,
    pub name: String,
    pub path: String,
    pub size: u64,
    pub installed: bool,
}

/// What a caller sees of the chat side of the local model.
#[derive(Debug, Clone, Copy, PartialEq, Eq, Structural)]
pub struct LocalAiChatState {
    pub enabled: bool,
    pub file_enabled: bool,
    pub plugin_state: PluginState,
}

/// The selected model and the models on offer.
#[derive(Debug)]
pub struct LlmModelInfo {
    pub selected_model: LocalModel,
    pub models: Vec<LocalModel>,
}

/// The one owner of the plugin state, the selected model and the download.
pub struct LocalAiController {
    pub state: PluginState,
    pub models: Vec<LocalModel>,
    pub selected: Option<i64>,
    pub enabled: bool,
    pub chat_enabled: bool,
    pub rag_enabled: bool,
    pub download: Option<DownloadTask>,
    pub next_task_id: u64,
    pub storage_dir: Option<String>,
    pub download_link: Option<String>,
}

/// The controller as a mathematical value.
pub ghost struct ControllerModel {
    pub state: PluginState,
    pub models: Seq<LocalModel>,
    pub selected: Option<i64>,
    pub enabled: bool,
    pub chat_enabled: bool,
    pub rag_enabled: bool,
    pub download: Option<DownloadTask>,
    pub next_task_id: u64,
    pub storage_dir: Option<String>,
    pub download_link: Option<String>,
}

/// `i` is the first place in `models` that holds `model_id`.
pub open spec fn first_at(models: Seq<LocalModel>, model_id: i64, i: int) -> bool {
    &&& 0 <= i < models.len()
    &&& models[i].model_id == model_id
    &&& forall|j: int| 0 <= j < i ==> (#[trigger] models[j]).model_id != model_id
}

/// Whether a model with this identifier is on offer.
pub open spec fn has_model(models: Seq<LocalModel>, model_id: i64) -> bool {
    exists|i: int| first_at(models, model_id, i)
}

/// The first place that holds `model_id`, where there is one.
pub open spec fn position(models: Seq<LocalModel>, model_id: i64) -> int {
    choose|i: int| first_at(models, model_id, i)
}

/// The record of a model once its files are here.
pub open spec fn marked_installed(model: LocalModel) -> LocalModel {
    LocalModel { installed: true, ..model }
}

impl ControllerModel {
    /// The plugin state says `Downloading` exactly while a task is queued or
    /// running, and that task is for a model on offer.
    pub open spec fn wf(self) -> bool {
        &&& self.download matches Some(task) ==> task.wf() && has_model(
            self.models,
            task.model_id,
        )
        &&& self.state is Downloading <==> (self.download matches Some(task) && task.is_active())
    }

    /// Whether the files of the model are here.
    pub open spec fn is_installed(self, model_id: i64) -> bool {
        has_model(self.models, model_id) && self.models[position(self.models, model_id)].installed
    }

    /// What a selection answers: whether a download is needed, or why it is refused.
    pub open spec fn select_result(self, model_id: i64) -> Result<bool, AiError> {
        if self.state is Downloading {
            Err(AiError::OperationInProgress)
        } else if !has_model(self.models, model_id) {
            Err(AiError::ModelNotFound)
        } else {
            Ok(!self.is_installed(model_id))
        }
    }

    /// Selecting a model whose files are here installs it at once; one whose
    /// files are missing gets a queued download, and the model selected so
    /// far stays as the fallback.
    pub open spec fn after_select(self, model_id: i64) -> ControllerModel {
        match self.select_result(model_id) {
            Err(_) => self,
            Ok(false) => ControllerModel {
                state: PluginState::Installed(model_id),
                selected: Some(model_id),
                ..self
            },
            Ok(true) => ControllerModel {
                state: PluginState::Downloading,
                download: Some(
                    DownloadTask::spec_queued(
                        self.next_task_id,
                        model_id,
                        self.models[position(self.models, model_id)].size,
                    ),
                ),
                next_task_id: self.bumped_task_id(),
                ..self
            },
        }
    }

    /// What a start answers: the identifier of the queued task, or why it is refused.
    pub open spec fn start_result(self) -> Result<u64, AiError> {
        match self.download {
            Some(task) => match task.state {
                DownloadState::Running => Err(AiError::OperationInProgress),
                DownloadState::Queued => Ok(task.task_id),
                DownloadState::Cancelled => Ok(self.next_task_id),
                DownloadState::Failed(_) => Ok(self.next_task_id),
                DownloadState::Completed => Err(AiError::NothingToDownload),
            },
            None => Err(AiError::NothingToDownload),
        }
    }

    /// The identifier that follows `next_task_id`.
    pub open spec fn bumped_task_id(self) -> u64 {
        if self.next_task_id == u64::MAX {
            0
        } else {
            (self.next_task_id + 1) as u64
        }
    }

    /// A queued task runs, with the port that its progress goes to. A task
    /// that was cancelled or failed is tried again from nothing, under a new
    /// identifier. Anything else stays.
    pub open spec fn after_start(self, progress_port: i64) -> ControllerModel {
        match self.download {
            Some(task) => match task.state {
                DownloadState::Queued => ControllerModel {
                    download: Some(
                        DownloadTask { state: DownloadState::Running, progress_port, ..task },
                    ),
                    ..self
                },
                DownloadState::Cancelled | DownloadState::Failed(_) => ControllerModel {
                    state: PluginState::Downloading,
                    download: Some(
                        DownloadTask {
                            task_id: self.next_task_id,
                            received: 0,
                            state: DownloadState::Running,
                            cancel_requested: false,
                            progress_port,
                            ..task
                        },
                    ),
                    next_task_id: self.bumped_task_id(),
                    ..self
                },
                _ => self,
            },
            None => self,
        }
    }

    /// A queued task is cancelled on the spot; a running one is told, and
    /// gives way at its next event.
    pub open spec fn after_cancel(self) -> ControllerModel {
        match self.download {
            Some(task) if task.state is Queued => ControllerModel {
                state: PluginState::Error(FailureReason::Cancelled),
                download: Some(
                    DownloadTask {
                        state: DownloadState::Cancelled,
                        cancel_requested: true,
                        ..task
                    },
                ),
                ..self
            },
            Some(task) if task.state is Running => ControllerModel {
                download: Some(DownloadTask { cancel_requested: true, ..task }),
                ..self
            },
            _ => self,
        }
    }

    /// Whether a download is running.
    pub open spec fn download_running(self) -> bool {
        self.download matches Some(task) && task.state is Running
    }

    /// One event of the running download, carried over to the plugin state.
    pub open spec fn after_download_event(self, event: DownloadEvent) -> ControllerModel {
        if !self.download_running() {
            self
        } else {
            let next = self.download->0.step(event);
            match next.state {
                DownloadState::Completed => ControllerModel {
                    state: PluginState::Installed(next.model_id),
                    selected: Some(next.model_id),
                    models: self.models.update(
                        position(self.models, next.model_id),
                        marked_installed(self.models[position(self.models, next.model_id)]),
                    ),
                    download: Some(next),
                    ..self
                },
                DownloadState::Cancelled => ControllerModel {
                    state: PluginState::Error(FailureReason::Cancelled),
                    download: Some(next),
                    ..self
                },
                DownloadState::Failed(reason) => ControllerModel {
                    state: PluginState::Error(reason),
                    download: Some(next),
                    ..self
                },
                _ => ControllerModel { download: Some(next), ..self },
            }
        }
    }

    /// What the fetching side is told after an event.
    pub open spec fn download_action(self, event: DownloadEvent) -> DownloadAction {
        if !self.download_running() {
            DownloadAction::Ignore
        } else {
            self.download->0.action(event)
        }
    }

    /// An installed model starts running; any other state stays.
    pub open spec fn after_restart(self) -> ControllerModel {
        match self.state {
            PluginState::Installed(_) => ControllerModel { state: PluginState::Running, ..self },
            _ => self,
        }
    }

    /// Switching the feature off stops a running plugin; switching it on
    /// again starts a stopped one.
    pub open spec fn after_toggle(self) -> ControllerModel {
        let enabled = !self.enabled;
        ControllerModel {
            enabled,
            state: match self.state {
                PluginState::Running if !enabled => PluginState::Stopped,
                PluginState::Stopped if enabled => PluginState::Running,
                other => other,
            },
            ..self
        }
    }

    /// A failure of the backend puts the plugin in `Error`; a download that
    /// is queued or running ends as failed with it.
    pub open spec fn after_failure(self, reason: FailureReason) -> ControllerModel {
        ControllerModel {
            state: PluginState::Error(reason),
            download: match self.download {
                Some(task) if task.is_active() => Some(
                    DownloadTask { state: DownloadState::Failed(reason), ..task },
                ),
                other => other,
            },
            ..self
        }
    }

    /// The switches and the plugin state in one value.
    pub open spec fn chat_state(self) -> LocalAiChatState {
        LocalAiChatState {
            enabled: self.chat_enabled,
            file_enabled: self.rag_enabled,
            plugin_state: self.state,
        }
    }

    /// The chat switch flipped; nothing else changes.
    pub open spec fn after_toggle_chat(self) -> ControllerModel {
        ControllerModel { chat_enabled: !self.chat_enabled, ..self }
    }

    /// The file switch flipped; nothing else changes.
    pub open spec fn after_toggle_rag(self) -> ControllerModel {
        ControllerModel { rag_enabled: !self.rag_enabled, ..self }
    }

    /// A controller that has not selected anything yet, with every switch on.
    pub open spec fn initial(
        models: Seq<LocalModel>,
        storage_dir: Option<String>,
        download_link: Option<String>,
    ) -> ControllerModel {
        ControllerModel {
            state: PluginState::Uninitialized,
            models,
            selected: None,
            enabled: true,
            chat_enabled: true,
            rag_enabled: true,
            download: None,
            next_task_id: 1,
            storage_dir,
            download_link,
        }
    }
}

impl View for LocalAiController {
    type V = ControllerModel;

    open spec fn view(&self) -> ControllerModel {
        ControllerModel {
            state: self.state,
            models: self.models@,
            selected: self.selected,
            enabled: self.enabled,
            chat_enabled: self.chat_enabled,
            rag_enabled: self.rag_enabled,
            download: self.download,
            next_task_id: self.next_task_id,
            storage_dir: self.storage_dir,
            download_link: self.download_link,
        }
    }
}

/// A copy of a model's record.
pub fn clone_model(model: &LocalModel) -> (copy: LocalModel)
    ensures
        copy == *model,
{
    LocalModel {
        model_id: model.model_id,
        name: model.name.clone(),
        path: model.path.clone(),
        size: model.size,
        installed: model.installed,
    }
}

/// The first place in `models` that holds `model_id`.
pub fn find_model(models: &Vec<LocalModel>, model_id: i64) -> (found: Option<usize>)
    ensures
        found is Some <==> has_model(models@, model_id),
        found matches Some(i) ==> i as int == position(models@, model_id) && first_at(
            models@,
            model_id,
            i as int,
        ),
{
    let mut i: usize = 0;
    while i < models.len()
        invariant
            i <= models.len(),
            forall|j: int| 0 <= j < i ==> (#[trigger] models@[j]).model_id != model_id,
        decreases models.len() - i,
    {
        if models[i].model_id == model_id {
            proof {
                assert(first_at(models@, model_id, i as int));
                lemma_first_unique(models@, model_id, i as int, position(models@, model_id));
            }
            return Some(i);
        }
        i += 1;
    }
    proof {
        assert forall|k: int| !first_at(models@, model_id, k) by {
            if 0 <= k < models@.len() {
                assert(models@[k].model_id != model_id);
            }
        }
    }
    None
}

/// A model identifier has at most one first place.
pub proof fn lemma_first_unique(models: Seq<LocalModel>, model_id: i64, i: int, k: int)
    requires
        first_at(models, model_id, i),
        first_at(models, model_id, k),
    ensures
        i == k,
{
    if i < k {
        assert(models[i].model_id != model_id);
    }
    if k < i {
        assert(models[k].model_id != model_id);
    }
}

impl LocalAiController {
    /// A controller that has selected nothing yet, with every switch on.
    pub fn new(
        models: Vec<LocalModel>,
        storage_dir: Option<String>,
        download_link: Option<String>,
    ) -> (controller: Self)
        ensures
            controller@ == ControllerModel::initial(models@, storage_dir, download_link),
            controller@.wf(),
    {
        LocalAiController {
            state: PluginState::Uninitialized,
            models,
            selected: None,
            enabled: true,
            chat_enabled: true,
            rag_enabled: true,
            download: None,
            next_task_id: 1,
            storage_dir,
            download_link,
        }
    }

    /// Whether the controller is well formed.
    pub fn is_well_formed(&self) -> (ok: bool)
        ensures
            ok == self@.wf(),
    {
        let downloading = match self.state {
            PluginState::Downloading => true,
            _ => false,
        };
        match self.download {
            None => !downloading,
            Some(task) => {
                let active = match task.state {
                    DownloadState::Queued => true,
                    DownloadState::Running => true,
                    _ => false,
                };
                task.is_well_formed() && find_model(&self.models, task.model_id).is_some()
                    && downloading == active
            },
        }
    }

    /// Refuses a state that is not well formed, as an internal error.
    pub fn check(&self) -> (r: Result<(), AiError>)
        ensures
            r == if self@.wf() {
                Ok::<(), AiError>(())
            } else {
                Err::<(), AiError>(AiError::InvariantViolated)
            },
    {
        if self.is_well_formed() {
            Ok(())
        } else {
            Err(AiError::InvariantViolated)
        }
    }

    /// Selects a model. `Ok(true)` says that its files must be downloaded
    /// first, `Ok(false)` that it is installed.
    pub fn select_local_llm(&mut self, model_id: i64) -> (r: Result<bool, AiError>)
        requires
            old(self)@.wf(),
        ensures
            r == old(self)@.select_result(model_id),
            final(self)@ == old(self)@.after_select(model_id),
            final(self)@.wf(),
    {
        if let PluginState::Downloading = self.state {
            return Err(AiError::OperationInProgress);
        }
        match find_model(&self.models, model_id) {
            None => Err(AiError::ModelNotFound),
            Some(i) => {
                if self.models[i].installed {
                    self.state = PluginState::Installed(model_id);
                    self.selected = Some(model_id);
                    Ok(false)
                } else {
                    let size: u64 = self.models[i].size;
                    self.download = Some(DownloadTask::queued(self.next_task_id, model_id, size));
                    self.next_task_id = if self.next_task_id == u64::MAX {
                        0
                    } else {
                        self.next_task_id + 1
                    };
                    self.state = PluginState::Downloading;
                    Ok(true)
                }
            },
        }
    }

    /// Starts the queued download, or tries again one that was cancelled or
    /// failed, and returns the task identifier. While a download runs, a
    /// second start is refused and changes nothing.
    pub fn start_downloading(&mut self, progress_port: i64) -> (r: Result<u64, AiError>)
        requires
            old(self)@.wf(),
        ensures
            r == old(self)@.start_result(),
            final(self)@ == old(self)@.after_start(progress_port),
            final(self)@.wf(),
    {
        match self.download {
            Some(task) => match task.state {
                DownloadState::Running => Err(AiError::OperationInProgress),
                DownloadState::Queued => {
                    self.download = Some(
                        DownloadTask { state: DownloadState::Running, progress_port, ..task },
                    );
                    Ok(task.task_id)
                },
                DownloadState::Cancelled | DownloadState::Failed(_) => {
                    let task_id: u64 = self.next_task_id;
                    self.download = Some(
                        DownloadTask {
                            task_id,
                            received: 0,
                            state: DownloadState::Running,
                            cancel_requested: false,
                            progress_port,
                            ..task
                        },
                    );
                    self.next_task_id = if task_id == u64::MAX {
                        0
                    } else {
                        task_id + 1
                    };
                    self.state = PluginState::Downloading;
                    Ok(task_id)
                },
                DownloadState::Completed => Err(AiError::NothingToDownload),
            },
            None => Err(AiError::NothingToDownload),
        }
    }

    /// Asks the download to stop. Returns whether there was one to stop.
    pub fn cancel_download(&mut self) -> (signalled: bool)
        requires
            old(self)@.wf(),
        ensures
            signalled == (old(self)@.download matches Some(task) && task.is_active()),
            final(self)@ == old(self)@.after_cancel(),
            final(self)@.wf(),
    {
        match self.download {
            Some(task) => match task.state {
                DownloadState::Queued => {
                    self.download = Some(
                        DownloadTask {
                            state: DownloadState::Cancelled,
                            cancel_requested: true,
                            ..task
                        },
                    );
                    self.state = PluginState::Error(FailureReason::Cancelled);
                    true
                },
                DownloadState::Running => {
                    self.download = Some(DownloadTask { cancel_requested: true, ..task });
                    true
                },
                _ => false,
            },
            None => false,
        }
    }

    /// Takes one event of the running download, moves the plugin state with
    /// it, and says what the fetching side has to do.
    pub fn on_download_event(&mut self, event: DownloadEvent) -> (action: DownloadAction)
        requires
            old(self)@.wf(),
        ensures
            action == old(self)@.download_action(event),
            final(self)@ == old(self)@.after_download_event(event),
            final(self)@.wf(),
    {
        let mut task = match self.download {
            Some(task) => task,
            None => {
                return DownloadAction::Ignore;
            },
        };
        match task.state {
            DownloadState::Running => {},
            _ => {
                return DownloadAction::Ignore;
            },
        }
        let action = task.on_event(event);
        self.download = Some(task);
        match task.state {
            DownloadState::Completed => {
                if let Some(i) = find_model(&self.models, task.model_id) {
                    let ghost before = self.models@;
                    let record = clone_model(&self.models[i]);
                    self.models.set(i, LocalModel { installed: true, ..record });
                    proof {
                        assert(first_at(self.models@, task.model_id, i as int)) by {
                            assert forall|j: int| 0 <= j < i implies (
                            #[trigger] self.models@[j]).model_id != task.model_id by {
                                assert(before[j].model_id != task.model_id);
                            }
                        }
                    }
                }
                self.state = PluginState::Installed(task.model_id);
                self.selected = Some(task.model_id);
            },
            DownloadState::Cancelled => {
                self.state = PluginState::Error(FailureReason::Cancelled);
            },
            DownloadState::Failed(reason) => {
                self.state = PluginState::Error(reason);
            },
            _ => {},
        }
        action
    }

    /// Starts the plugin of an installed model.
    pub fn restart_chat_plugin(&mut self)
        requires
            old(self)@.wf(),
        ensures
            final(self)@ == old(self)@.after_restart(),
            final(self)@.wf(),
    {
        if let PluginState::Installed(_) = self.state {
            self.state = PluginState::Running;
        }
    }

    /// Switches the local model on or off and returns the new setting.
    pub fn toggle_local_ai(&mut self) -> (enabled: bool)
        requires
            old(self)@.wf(),
        ensures
            enabled == !old(self)@.enabled,
            final(self)@ == old(self)@.after_toggle(),
            final(self)@.wf(),
    {
        self.enabled = !self.enabled;
        match self.state {
            PluginState::Running => {
                if !self.enabled {
                    self.state = PluginState::Stopped;
                }
            },
            PluginState::Stopped => {
                if self.enabled {
                    self.state = PluginState::Running;
                }
            },
            _ => {},
        }
        self.enabled
    }

    /// Switches chat with the local model on or off; nothing else changes.
    pub fn toggle_local_ai_chat(&mut self) -> (enabled: bool)
        ensures
            enabled == !old(self)@.chat_enabled,
            final(self)@ == old(self)@.after_toggle_chat(),
    {
        self.chat_enabled = !self.chat_enabled;
        self.chat_enabled
    }

    /// Switches retrieval from files on or off; nothing else changes.
    pub fn toggle_local_ai_chat_rag(&mut self) -> (enabled: bool)
        ensures
            enabled == !old(self)@.rag_enabled,
            final(self)@ == old(self)@.after_toggle_rag(),
    {
        self.rag_enabled = !self.rag_enabled;
        self.rag_enabled
    }

    /// Records a failure of the backend from which the plugin cannot recover.
    pub fn report_failure(&mut self, reason: FailureReason)
        requires
            old(self)@.wf(),
        ensures
            final(self)@ == old(self)@.after_failure(reason),
            final(self)@.wf(),
    {
        self.state = PluginState::Error(reason);
        if let Some(task) = self.download {
            match task.state {
                DownloadState::Queued | DownloadState::Running => {
                    self.download = Some(
                        DownloadTask { state: DownloadState::Failed(reason), ..task },
                    );
                },
                _ => {},
            }
        }
    }

    /// Whether the local model is switched on.
    pub fn is_enabled(&self) -> (enabled: bool)
        ensures
            enabled == self@.enabled,
    {
        self.enabled
    }

    /// Whether chat with the local model is switched on.
    pub fn is_chat_enabled(&self) -> (enabled: bool)
        ensures
            enabled == self@.chat_enabled,
    {
        self.chat_enabled
    }

    /// Whether retrieval from files is switched on.
    pub fn is_rag_enabled(&self) -> (enabled: bool)
        ensures
            enabled == self@.rag_enabled,
    {
        self.rag_enabled
    }

    /// Where the plugin stands.
    pub fn get_chat_plugin_state(&self) -> (state: PluginState)
        ensures
            state == self@.state,
    {
        self.state
    }

    /// The switches and the plugin state in one value.
    pub fn get_local_ai_chat_state(&self) -> (state: LocalAiChatState)
        ensures
            state == self@.chat_state(),
    {
        LocalAiChatState {
            enabled: self.chat_enabled,
            file_enabled: self.rag_enabled,
            plugin_state: self.state,
        }
    }

    /// Flips the chat switch and returns what observers are to be told.
    pub fn toggle_local_ai_chat_state(&mut self) -> (state: LocalAiChatState)
        ensures
            final(self)@ == old(self)@.after_toggle_chat(),
            state == old(self)@.after_toggle_chat().chat_state(),
    {
        let enabled = self.toggle_local_ai_chat();
        let file_enabled = self.is_rag_enabled();
        let plugin_state = self.get_chat_plugin_state();
        LocalAiChatState { enabled, file_enabled, plugin_state }
    }

    /// Flips the file switch and returns what observers are to be told.
    pub fn toggle_local_ai_chat_file_state(&mut self) -> (state: LocalAiChatState)
        ensures
            final(self)@ == old(self)@.after_toggle_rag(),
            state == old(self)@.after_toggle_rag().chat_state(),
    {
        let enabled = self.is_chat_enabled();
        let file_enabled = self.toggle_local_ai_chat_rag();
        let plugin_state = self.get_chat_plugin_state();
        LocalAiChatState { enabled, file_enabled, plugin_state }
    }

    /// Whether this model is the selected one; at most one model is.
    pub fn is_selected(&self, model_id: i64) -> (selected: bool)
        ensures
            selected == (self@.selected == Some(model_id)),
    {
        match self.selected {
            Some(id) => id == model_id,
            None => false,
        }
    }

    /// The record of the selected model, where one is selected and on offer.
    pub fn get_current_model(&self) -> (model: Option<LocalModel>)
        ensures
            model == match self@.selected {
                Some(id) if has_model(self@.models, id) => Some(
                    self@.models[position(self@.models, id)],
                ),
                _ => None::<LocalModel>,
            },
    {
        match self.selected {
            Some(id) => match find_model(&self.models, id) {
                Some(i) => Some(clone_model(&self.models[i])),
                None => None,
            },
            None => None,
        }
    }

    /// The outcome of looking up the models, made usable: `fetched` as it
    /// is where the lookup went well; where it failed, the selected model
    /// alone, so that a failed lookup does not leave the caller without a
    /// usable model. The error is handed on only where no model is selected
    /// either.
    pub open spec fn is_local_llm_state(
        self,
        fetched: Result<LlmModelInfo, AiError>,
        r: Result<LlmModelInfo, AiError>,
    ) -> bool {
        match fetched {
            Ok(_) => r == fetched,
            Err(_) => match self@.selected {
                Some(id) if has_model(self@.models, id) => (r matches Ok(info)
                    && info.selected_model == self@.models[position(self@.models, id)]
                    && info.models@ == seq![self@.models[position(self@.models, id)]]),
                _ => r == fetched,
            },
        }
    }

    /// The state of the local models as a caller is to see it, given what
    /// the lookup of the models brought: on a failed lookup it falls back to
    /// the last model that was selected.
    pub fn get_local_llm_state(&self, fetched: Result<LlmModelInfo, AiError>) -> (r: Result<
        LlmModelInfo,
        AiError,
    >)
        ensures
            self.is_local_llm_state(fetched, r),
    {
        let current = match &fetched {
            Ok(_) => None,
            Err(_) => self.get_current_model(),
        };
        resolve_model_info(fetched, current)
    }

    /// What is reported after a refresh of the model list, with the same
    /// fallback as `get_local_llm_state`.
    pub fn refresh_local_ai_info(&self, refreshed: Result<LlmModelInfo, AiError>) -> (r: Result<
        LlmModelInfo,
        AiError,
    >)
        ensures
            self.is_local_llm_state(refreshed, r),
    {
        self.get_local_llm_state(refreshed)
    }

    /// Where model files are kept. Reads configuration only.
    pub fn get_model_storage_directory(&self) -> (r: Result<String, AiError>)
        ensures
            r == match self@.storage_dir {
                Some(dir) => Ok::<String, AiError>(dir),
                None => Err::<String, AiError>(AiError::StorageDirectoryMissing),
            },
    {
        match &self.storage_dir {
            Some(dir) => Ok(dir.clone()),
            None => Err(AiError::StorageDirectoryMissing),
        }
    }

    /// Where the offline application can be had. Reads configuration only.
    pub fn get_offline_ai_app_download_link(&self) -> (r: Result<String, AiError>)
        ensures
            r == match self@.download_link {
                Some(link) => Ok::<String, AiError>(link),
                None => Err::<String, AiError>(AiError::DownloadLinkMissing),
            },
    {
        match &self.download_link {
            Some(link) => Ok(link.clone()),
            None => Err(AiError::DownloadLinkMissing),
        }
    }
}

/// What is reported after a refresh of the model list: the refreshed list,
/// or, where the refresh failed and a model is selected, that model alone.
pub fn resolve_model_info(
    refreshed: Result<LlmModelInfo, AiError>,
    current: Option<LocalModel>,
) -> (r: Result<LlmModelInfo, AiError>)
    ensures
        match (refreshed, current) {
            (Err(_), Some(model)) => (r matches Ok(info) && info.selected_model == model
                && info.models@ == seq![model]),
            _ => r == refreshed,
        },
{
    match refreshed {
        Ok(info) => Ok(info),
        Err(e) => match current {
            Some(model) => {
                let copy = clone_model(&model);
                let mut models: Vec<LocalModel> = Vec::new();
                models.push(model);
                assert(models@ == seq![copy]);
                Ok(LlmModelInfo { selected_model: copy, models })
            },
            None => Err(e),
        },
    }
}

/// Flipping one switch leaves the other switch, the master switch and the
/// plugin state as they were.
pub proof fn lemma_toggles_independent(c: ControllerModel)
    ensures
        c.after_toggle_rag().chat_enabled == c.chat_enabled,
        c.after_toggle_rag().state == c.state,
        c.after_toggle_rag().enabled == c.enabled,
        c.after_toggle_chat().rag_enabled == c.rag_enabled,
        c.after_toggle_chat().state == c.state,
        c.after_toggle_chat().enabled == c.enabled,
        c.after_toggle_chat().after_toggle_rag() == c.after_toggle_rag().after_toggle_chat(),
        c.after_toggle_chat().after_toggle_chat() == c,
        c.after_toggle_rag().after_toggle_rag() == c,
{
}

/// While a download runs, a second start fails as in progress and leaves
/// the controller, the running task with it, untouched.
pub proof fn lemma_second_start_refused(c: ControllerModel, progress_port: i64)
    requires
        c.download_running(),
    ensures
        c.start_result() == Err::<u64, AiError>(AiError::OperationInProgress),
        c.after_start(progress_port) == c,
{
}

/// While the plugin state is `Downloading`, a selection fails as in progress
/// and changes nothing.
pub proof fn lemma_select_while_downloading(c: ControllerModel, model_id: i64)
    requires
        c.state is Downloading,
    ensures
        c.select_result(model_id) == Err::<bool, AiError>(AiError::OperationInProgress),
        c.after_select(model_id) == c,
{
}

/// A download that ends without success leaves the selected model as the
/// fallback and puts the plugin in `Error`.
pub proof fn lemma_failed_download_keeps_model(c: ControllerModel, event: DownloadEvent)
    requires
        c.wf(),
        c.download_running(),
        !(c.after_download_event(event).download->0.state is Completed),
    ensures
        c.after_download_event(event).selected == c.selected,
        c.after_download_event(event).models == c.models,
        c.after_download_event(event).download->0.state is Running
            || c.after_download_event(event).state is Error,
{
}

} // verus!
