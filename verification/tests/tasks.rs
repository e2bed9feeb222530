use coreml::error::CoreMLError;
use coreml::registry::{
    callback_report, CallbackEnd, ClassRegistry, MLCustomLayerRegistration,
    MLCustomModelRegistration, RegistryKind,
};
use coreml::status;
use coreml::update::{
    update_decode_failure, update_disconnected, update_record, update_step, UpdateAction, UpdateEvent,
    UpdateProgressHandlers, UpdateReport,
    UpdateSignal, UpdateStep, UpdateTaskState,
};

#[test]
fn progress_handlers_request_each_event_once_in_order() {
    let handlers: UpdateProgressHandlers<u8> = UpdateProgressHandlers::new()
        .with_event(UpdateEvent::EpochEnd)
        .with_event(UpdateEvent::TrainingBegin)
        .with_event(UpdateEvent::EpochEnd);
    assert_eq!(
        handlers.interested_events(),
        [UpdateEvent::EpochEnd, UpdateEvent::TrainingBegin]
    );
    let all: UpdateProgressHandlers<u8> = UpdateProgressHandlers::all();
    assert_eq!(
        all.interested_events(),
        [UpdateEvent::TrainingBegin, UpdateEvent::EpochEnd, UpdateEvent::MiniBatchEnd]
    );
    let (events, handler) = all.on_progress(7).into_parts();
    assert_eq!(events.len(), 3);
    assert_eq!(handler, Some(7));
}

#[test]
fn update_runs_finish_only_with_a_completed_model() {
    assert!(matches!(update_step(UpdateSignal::Progress), UpdateStep::Continue));
    assert!(matches!(
        update_step(UpdateSignal::Completion {
            state: UpdateTaskState::Completed,
            has_model: true,
            failure: None
        }),
        UpdateStep::Finish
    ));
    match update_step(UpdateSignal::Completion {
        state: UpdateTaskState::Completed,
        has_model: false,
        failure: None,
    }) {
        UpdateStep::Fail(error) => assert_eq!(
            error,
            CoreMLError::UpdateFailed(
                "CoreML update task finished in state Completed without an updated model"
                    .to_owned()
            )
        ),
        _ => panic!("a completion without a model must fail"),
    }
    match update_step(UpdateSignal::Completion {
        state: UpdateTaskState::Failed,
        has_model: true,
        failure: Some("diverged".to_owned()),
    }) {
        UpdateStep::Fail(error) => {
            assert_eq!(error, CoreMLError::UpdateFailed("diverged".to_owned()))
        }
        _ => panic!("a failed task must fail"),
    }
    match update_step(UpdateSignal::Completion {
        state: UpdateTaskState::Failed,
        has_model: false,
        failure: None,
    }) {
        UpdateStep::Fail(error) => {
            assert_eq!(error, CoreMLError::UpdateFailed("CoreML update task failed".to_owned()))
        }
        _ => panic!("a failed task must fail"),
    }
    match update_step(UpdateSignal::TimedOut) {
        UpdateStep::Fail(error) => assert_eq!(
            error,
            CoreMLError::TimedOut(
                "CoreML update task did not finish before the timeout and was cancelled"
                    .to_owned()
            )
        ),
        _ => panic!("a timeout must fail"),
    }
    match update_step(UpdateSignal::Disconnected) {
        UpdateStep::Fail(error) => assert_eq!(error, update_disconnected()),
        _ => panic!("a silent task must fail"),
    }
    assert_eq!(
        update_disconnected(),
        CoreMLError::UpdateFailed("CoreML update task stopped reporting progress".to_owned())
    );
    assert_eq!(
        update_decode_failure("EOF"),
        CoreMLError::UpdateFailed("failed to decode update context JSON: EOF".to_owned())
    );
    assert_eq!(UpdateTaskState::default(), UpdateTaskState::Suspended);
    assert_eq!(UpdateTaskState::Cancelling.debug_text(), "Cancelling");
}

#[test]
fn registries_refuse_duplicates_and_forget_removed_classes() {
    let mut registry = ClassRegistry::new(RegistryKind::Layer);
    registry.register("Scale".to_owned(), 1_u32).unwrap();
    registry.register("Shift".to_owned(), 2_u32).unwrap();
    assert_eq!(
        registry.register("Scale".to_owned(), 3_u32).unwrap_err(),
        CoreMLError::InvalidArgument("custom layer class 'Scale' is already registered".to_owned())
    );
    assert_eq!(*registry.lookup("Scale").unwrap(), 1);
    assert_eq!(*registry.lookup("Shift").unwrap(), 2);
    assert!(registry.contains("Scale"));
    assert_eq!(registry.remove("Scale"), Some(1));
    assert_eq!(registry.remove("Scale"), None);
    assert!(!registry.contains("Scale"));
    assert_eq!(
        registry.lookup("Scale").unwrap_err(),
        CoreMLError::InvalidArgument(
            "no Rust MLCustomLayer factory is registered for class 'Scale'".to_owned()
        )
    );
    let mut models = ClassRegistry::new(RegistryKind::Model);
    models.register("Echo".to_owned(), ()).unwrap();
    assert_eq!(
        models.register("Echo".to_owned(), ()).unwrap_err(),
        CoreMLError::InvalidArgument("custom model class 'Echo' is already registered".to_owned())
    );
    assert_eq!(
        models.lookup("Other").unwrap_err(),
        CoreMLError::InvalidArgument(
            "no Rust MLCustomModel factory is registered for class 'Other'".to_owned()
        )
    );
}

#[test]
fn registrations_remember_their_class_names() {
    assert_eq!(MLCustomLayerRegistration::new("Scale".to_owned()).class_name(), "Scale");
    assert_eq!(MLCustomModelRegistration::new("Echo".to_owned()).class_name(), "Echo");
}

#[test]
fn callback_outcomes_become_status_reports() {
    assert_eq!(callback_report(CallbackEnd::Returned(Ok(())), RegistryKind::Layer), (0, None));
    assert_eq!(
        callback_report(
            CallbackEnd::Returned(Err(CoreMLError::InvalidArgument("bad".to_owned()))),
            RegistryKind::Model
        ),
        (status::INVALID_ARGUMENT, Some("bad".to_owned()))
    );
    assert_eq!(
        callback_report(CallbackEnd::Panicked, RegistryKind::Layer),
        (
            status::CUSTOM_LAYER_FAILED,
            Some("panic in Rust MLCustomLayer callback".to_owned())
        )
    );
    assert_eq!(
        callback_report(CallbackEnd::Panicked, RegistryKind::Model),
        (
            status::CUSTOM_MODEL_FAILED,
            Some("panic in Rust MLCustomModel callback".to_owned())
        )
    );
}

#[test]
fn update_reports_are_recorded_in_order() {
    let mut contexts: Vec<&str> = Vec::new();
    assert!(matches!(
        update_record(&mut contexts, UpdateReport::Progress("epoch 1")),
        UpdateAction::NotifyProgress
    ));
    assert!(matches!(
        update_record(&mut contexts, UpdateReport::Progress("epoch 2")),
        UpdateAction::NotifyProgress
    ));
    let action = update_record(
        &mut contexts,
        UpdateReport::Completion {
            context: "done",
            state: UpdateTaskState::Completed,
            has_model: true,
            failure: None,
        },
    );
    assert!(matches!(action, UpdateAction::Finish(UpdateTaskState::Completed)));
    assert_eq!(contexts, ["epoch 1", "epoch 2", "done"]);
}

#[test]
fn failed_and_silent_updates_fail_the_run() {
    let mut contexts = vec![1];
    match update_record(
        &mut contexts,
        UpdateReport::Completion {
            context: 2,
            state: UpdateTaskState::Failed,
            has_model: false,
            failure: Some("bad batch".to_owned()),
        },
    ) {
        UpdateAction::Fail(error) => {
            assert_eq!(error, CoreMLError::UpdateFailed("bad batch".to_owned()))
        }
        _ => panic!("a failed task must fail the run"),
    }
    assert_eq!(contexts, [1, 2]);
    match update_record(&mut contexts, UpdateReport::TimedOut) {
        UpdateAction::Fail(CoreMLError::TimedOut(_)) => {}
        _ => panic!("a timeout must fail the run"),
    }
    match update_record(&mut contexts, UpdateReport::Disconnected) {
        UpdateAction::Fail(error) => assert_eq!(error, update_disconnected()),
        _ => panic!("a silent task must fail the run"),
    }
    match update_record(
        &mut contexts,
        UpdateReport::Completion {
            context: 3,
            state: UpdateTaskState::Running,
            has_model: true,
            failure: None,
        },
    ) {
        UpdateAction::Fail(error) => assert_eq!(
            error,
            CoreMLError::UpdateFailed(
                "CoreML update task finished in state Running without an updated model".to_owned()
            )
        ),
        _ => panic!("an unfinished task must fail the run"),
    }
    assert_eq!(contexts, [1, 2, 3]);
}
