use flowy_ai::chat::{MessageType, StreamMessageParams, MAX_MESSAGE_LEN};
use flowy_ai::error::{AiError, FailureReason};
use flowy_ai::message::{DeliveryStatus, Role, StreamAction, StreamEvent};
use flowy_ai::completion::{CompletionTask, CompletionTasks};
use flowy_ai::conversation::Conversation;
use flowy_ai::download::{DownloadState, DownloadTask};
use flowy_ai::local_ai::{LocalAiController, LocalModel, PluginState};
use flowy_ai::orchestrator::ChatOrchestrator;
use flowy_ai::stream::{StreamHandle, StreamRegistry};

fn ask(message: &str) -> StreamMessageParams {
    StreamMessageParams {
        message: message.to_string(),
        message_type: MessageType::System,
        answer_stream_port: 1,
        question_stream_port: 2,
        format: None,
        metadata: Vec::new(),
    }
}

fn finish(o: &mut ChatOrchestrator, chat_id: &str, answer: &str) {
    assert_eq!(o.on_stream_event(chat_id, StreamEvent::Started), Ok(StreamAction::Continue));
    assert_eq!(
        o.on_stream_event(chat_id, StreamEvent::Token(answer.to_string())),
        Ok(StreamAction::Emit)
    );
    assert_eq!(o.on_stream_event(chat_id, StreamEvent::Finished), Ok(StreamAction::Retire));
}

#[test]
fn first_message_makes_the_conversation() {
    let mut o = ChatOrchestrator::new(100);
    let start = o.stream_chat_message("a", ask("hello"), 9).unwrap();
    assert_eq!((start.question_id, start.answer_id), (1, 2));
    assert_eq!(o.conversations.len(), 1);
    assert_eq!(o.conversations[0].id, "a");
    assert_eq!(o.conversations[0].messages[0].role, Role::System);
    assert_eq!(o.conversations[0].messages[0].conversation_id, "a");
    assert_eq!(o.conversations[0].messages[1].status, DeliveryStatus::Pending);
    assert!(o.is_active("a"));
    assert_eq!(o.registry.handles[0].conversation_id, "a");
}

#[test]
fn refused_first_message_makes_nothing() {
    let mut o = ChatOrchestrator::new(3);
    assert_eq!(o.stream_chat_message("", ask("hi"), 0).err(), Some(AiError::EmptyIdentifier));
    assert_eq!(o.stream_chat_message("a", ask(""), 0).err(), Some(AiError::InvalidMessage));
    assert_eq!(o.stream_chat_message("a", ask("long"), 0).err(), Some(AiError::InvalidMessage));
    assert!(o.conversations.is_empty());
    assert!(o.registry.handles.is_empty());
}

#[test]
fn conversations_stream_independently() {
    let mut o = ChatOrchestrator::new(100);
    o.stream_chat_message("a", ask("one"), 0).unwrap();
    o.stream_chat_message("b", ask("two"), 0).unwrap();
    assert_eq!(o.stream_chat_message("a", ask("x"), 0).err(), Some(AiError::ConversationBusy));
    assert_eq!(o.stream_chat_message("b", ask("x"), 0).err(), Some(AiError::ConversationBusy));
    finish(&mut o, "a", "done");
    assert!(!o.is_active("a"));
    assert!(o.is_active("b"));
    assert_eq!(o.conversations[0].messages[1].content, "done");
    assert_eq!(o.conversations[1].messages[1].content, "");
    let again = o.stream_chat_message("a", ask("more"), 0).unwrap();
    assert_eq!((again.question_id, again.answer_id), (3, 4));
    assert_eq!(o.conversations.len(), 2);
}

#[test]
fn unknown_conversation_is_not_found() {
    let mut o = ChatOrchestrator::new(100);
    assert_eq!(o.stop_stream("a"), Err(AiError::ConversationNotFound));
    assert_eq!(
        o.on_stream_event("a", StreamEvent::Finished),
        Err(AiError::ConversationNotFound)
    );
    assert_eq!(
        o.stream_regenerate_response("a", 1, 1, None, 1),
        Err(AiError::ConversationNotFound)
    );
    assert_eq!(o.load_prev_chat_messages("a", 1, None).err(), Some(AiError::ConversationNotFound));
    assert_eq!(
        o.load_latest_chat_messages("a", 1, None).err(),
        Some(AiError::ConversationNotFound)
    );
    assert_eq!(o.update_rag_ids("a", Vec::new()), Err(AiError::ConversationNotFound));
    assert_eq!(o.get_rag_ids("a"), Err(AiError::ConversationNotFound));
    assert_eq!(o.find_conversation("a"), None);
}

#[test]
fn stop_through_the_orchestrator() {
    let mut o = ChatOrchestrator::new(100);
    o.stream_chat_message("a", ask("one"), 0).unwrap();
    o.on_stream_event("a", StreamEvent::Token("pa".to_string())).unwrap();
    assert_eq!(o.stop_stream("a"), Ok(true));
    assert_eq!(
        o.conversations[0].messages[1].status,
        DeliveryStatus::Failed(FailureReason::Cancelled)
    );
    assert_eq!(o.conversations[0].messages[1].content, "pa");
    assert_eq!(o.on_stream_event("a", StreamEvent::Finished), Ok(StreamAction::Retire));
    assert!(!o.is_active("a"));
    assert_eq!(o.stop_stream("a"), Ok(false));
}

#[test]
fn pages_stay_within_the_conversation() {
    let mut o = ChatOrchestrator::new(100);
    for round in 0..3 {
        o.stream_chat_message("a", ask("qa"), round).unwrap();
        finish(&mut o, "a", "aa");
        o.stream_chat_message("b", ask("qb"), round).unwrap();
        finish(&mut o, "b", "bb");
    }
    let page = o.load_prev_chat_messages("a", 3, Some(6)).unwrap();
    assert_eq!(page.iter().map(|m| m.id).collect::<Vec<i64>>(), vec![3, 4, 5]);
    assert!(page.iter().all(|m| m.conversation_id == "a"));
    let page = o.load_latest_chat_messages("b", 2, Some(3)).unwrap();
    assert_eq!(page.iter().map(|m| m.id).collect::<Vec<i64>>(), vec![4, 5]);
    assert!(page.iter().all(|m| m.conversation_id == "b"));
}

#[test]
fn sources_are_kept_for_each_conversation() {
    let mut o = ChatOrchestrator::new(100);
    assert_eq!(o.open_conversation("a"), Ok(0));
    assert_eq!(o.open_conversation("b"), Ok(1));
    assert_eq!(o.open_conversation("a"), Ok(0));
    assert_eq!(o.open_conversation(""), Err(AiError::EmptyIdentifier));
    assert_eq!(o.update_rag_ids("b", vec!["s1".to_string()]), Ok(()));
    assert_eq!(o.get_rag_ids("b"), Ok(vec!["s1".to_string()]));
    assert_eq!(o.get_rag_ids("a"), Ok(Vec::new()));
}

#[test]
fn regenerate_through_the_orchestrator() {
    let mut o = ChatOrchestrator::new(100);
    o.stream_chat_message("a", ask("one"), 0).unwrap();
    finish(&mut o, "a", "first");
    assert_eq!(o.stream_regenerate_response("a", 9, 5, None, 1), Err(AiError::MessageNotFound));
    assert_eq!(o.stream_regenerate_response("a", 1, 5, Some(1), 1), Ok(3));
    assert!(o.is_active("a"));
    assert_eq!(o.registry.handles[0].message_id, 3);
    assert_eq!(o.conversations[0].messages[1].status, DeliveryStatus::Complete);
    assert_eq!(o.conversations[0].messages[1].content, "first");
}

#[test]
fn answers_and_questions_through_the_orchestrator() {
    let mut o = ChatOrchestrator::new(100);
    o.stream_chat_message("a", ask("one"), 0).unwrap();
    finish(&mut o, "a", "first");
    assert_eq!(o.generate_answer("a", 1, "second".to_string(), 4), Ok(3));
    assert_eq!(o.conversations[0].messages[2].content, "second");
    assert_eq!(o.conversations[0].messages[2].status, DeliveryStatus::Complete);
    assert_eq!(o.generate_answer("a", 7, "x".to_string(), 4), Err(AiError::MessageNotFound));
    assert_eq!(o.generate_answer("z", 1, "x".to_string(), 4), Err(AiError::ConversationNotFound));
    let related = o.get_related_questions("a", 2, vec!["q".to_string()]).unwrap();
    assert_eq!(related.message_id, 2);
    assert_eq!(related.items, vec!["q".to_string()]);
    assert_eq!(
        o.get_related_questions("a", 8, Vec::new()).err(),
        Some(AiError::MessageNotFound)
    );
    assert_eq!(
        o.get_related_questions("z", 1, Vec::new()).err(),
        Some(AiError::ConversationNotFound)
    );
}

fn bare_handle(cid: &str) -> StreamHandle {
    StreamHandle {
        conversation_id: cid.to_string(),
        message_id: 1,
        answer_port: 1,
        question_port: None,
        format: None,
        cancelled: false,
        created_at: 0,
    }
}

#[test]
fn well_formed_registry_has_no_conversation_twice() {
    let mut registry = StreamRegistry::new();
    assert!(registry.is_well_formed());
    registry.start(bare_handle("a")).unwrap();
    registry.start(bare_handle("b")).unwrap();
    registry.start(bare_handle("c")).unwrap();
    assert!(registry.is_well_formed());
    registry.handles.push(bare_handle("b"));
    assert!(!registry.is_well_formed());
}

#[test]
fn well_formed_conversation() {
    let mut c = Conversation::new("a".to_string()).unwrap();
    assert!(c.is_well_formed());
    c.append_message(Role::User, "x".to_string(), 0, DeliveryStatus::Complete).unwrap();
    c.append_message(Role::User, "y".to_string(), 0, DeliveryStatus::Complete).unwrap();
    c.append_message(Role::User, "z".to_string(), 0, DeliveryStatus::Complete).unwrap();
    assert!(c.is_well_formed());
    c.messages[2].id = 2;
    assert!(!c.is_well_formed());
    c.messages[2].id = 3;
    assert!(c.is_well_formed());
    c.messages[1].conversation_id = "b".to_string();
    assert!(!c.is_well_formed());
    c.messages[1].conversation_id = "a".to_string();
    c.next_message_id = 3;
    assert!(!c.is_well_formed());
    c.next_message_id = 4;
    c.id = String::new();
    assert!(!c.is_well_formed());
}

#[test]
fn well_formed_orchestrator() {
    let mut o = ChatOrchestrator::new(10);
    assert!(o.is_well_formed());
    o.stream_chat_message("a", ask("one"), 0).unwrap();
    o.stream_chat_message("b", ask("two"), 0).unwrap();
    assert!(o.is_well_formed());
    o.conversations.push(Conversation::new("a".to_string()).unwrap());
    assert!(!o.is_well_formed());
    o.conversations.pop();
    o.conversations[1].next_message_id = 1;
    assert!(!o.is_well_formed());
    o.conversations[1].next_message_id = 3;
    assert_eq!(o.check(), Ok(()));
    o.registry.handles.push(bare_handle("a"));
    assert!(!o.is_well_formed());
    assert_eq!(o.check(), Err(AiError::InvariantViolated));
}

#[test]
fn well_formed_controller_and_tasks() {
    let models = vec![LocalModel {
        model_id: 2,
        name: "m".to_string(),
        path: "p".to_string(),
        size: 10,
        installed: false,
    }];
    let mut c = LocalAiController::new(models, None, None);
    assert!(c.is_well_formed());
    c.select_local_llm(2).unwrap();
    assert!(c.is_well_formed());
    c.state = PluginState::Running;
    assert!(!c.is_well_formed());
    c.state = PluginState::Downloading;
    c.download = Some(DownloadTask { model_id: 3, ..c.download.unwrap() });
    assert!(!c.is_well_formed());
    c.download = None;
    assert!(!c.is_well_formed());
    assert_eq!(c.check(), Err(AiError::InvariantViolated));
    c.state = PluginState::Stopped;
    assert_eq!(c.check(), Ok(()));

    let mut task = DownloadTask::queued(1, 2, 10);
    assert!(task.is_well_formed());
    task.received = 10;
    assert!(!task.is_well_formed());
    task.state = DownloadState::Completed;
    assert!(task.is_well_formed());
    task.received = 11;
    assert!(!task.is_well_formed());

    let mut tasks = CompletionTasks::new();
    tasks.create_complete_task(1).unwrap();
    tasks.create_complete_task(1).unwrap();
    assert!(tasks.is_well_formed());
    tasks.tasks.push(CompletionTask { task_id: 2, stream_port: 0 });
    assert!(!tasks.is_well_formed());
    tasks.tasks.pop();
    assert_eq!(tasks.check(), Ok(()));
    tasks.next_task_id = 2;
    assert!(!tasks.is_well_formed());
    assert_eq!(tasks.check(), Err(AiError::InvariantViolated));
}

#[test]
fn default_limit_on_message_length() {
    assert_eq!(MAX_MESSAGE_LEN, 100_000);
    let mut o = ChatOrchestrator::with_default_limit();
    assert_eq!(o.max_message_len, 100_000);
    let longest = "a".repeat(100_000);
    assert!(o.stream_chat_message("a", ask(&longest), 0).is_ok());
    let too_long = "a".repeat(100_001);
    assert_eq!(o.stream_chat_message("b", ask(&too_long), 0).err(), Some(AiError::InvalidMessage));
}

#[test]
fn sources_of_an_unknown_conversation_are_not_made() {
    let mut o = ChatOrchestrator::new(10);
    assert_eq!(o.update_rag_ids("a", vec!["s".to_string()]), Err(AiError::ConversationNotFound));
    assert!(o.conversations.is_empty());
}
