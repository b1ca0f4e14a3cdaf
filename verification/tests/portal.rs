use strata::portal::{
    cancel_label, conflict_message, dialog_heading, failure_message, indicator_name,
    indicator_view, offer_reaction, start_message, ApplyAction, DialogState, FileManagerStatus,
    IndicatorIcon, OfferAnswer, OfferReaction, OfferScheduler, OfferTick, PortalStatus,
    ReloadView, SetupFollowUp, SetupResult,
};

fn status(chooser: bool, folders: bool, reveal: bool, installed: bool) -> (PortalStatus, FileManagerStatus) {
    (
        PortalStatus { configured: chooser, has_installation: installed },
        FileManagerStatus {
            default: folders,
            has_service: reveal,
            has_installation: installed,
            shortcuts: Some(false),
        },
    )
}

#[test]
fn a_configured_system_offers_to_restore() {
    let mut dialog = DialogState::new();
    let (chooser, manager) = status(true, true, true, true);
    let view = dialog.show_status(chooser, manager);
    assert_eq!(view.confirm_label, "Restore previous");
    assert!(!view.restore_visible);
    assert_eq!(
        view.message,
        "Strata is configured for Open and Save dialogs, opening folders, and Reveal in File Manager."
    );
    assert_eq!(view.indicators, vec![Some(true), Some(true), Some(true), Some(false)]);
    assert_eq!(dialog.enable, Some(false));
    let mut running = false;
    assert_eq!(dialog.apply(&mut running), ApplyAction::Start { enable: false });
    assert!(running);
    assert!(dialog.busy);
}

#[test]
fn a_partial_setup_offers_to_complete_or_restore() {
    let mut dialog = DialogState::new();
    let (chooser, manager) = status(true, false, false, true);
    let view = dialog.show_status(chooser, manager);
    assert_eq!(view.confirm_label, "Complete setup");
    assert!(view.restore_visible);
    assert_eq!(dialog.enable, Some(true));
    let mut running = false;
    assert_eq!(dialog.restore(&mut running), ApplyAction::Start { enable: false });
}

#[test]
fn an_untouched_system_offers_to_use_strata() {
    let mut dialog = DialogState::new();
    let (chooser, manager) = status(false, false, false, false);
    let view = dialog.show_status(chooser, manager);
    assert_eq!(view.confirm_label, "Use Strata");
    assert!(!view.restore_visible);
    assert_eq!(
        view.message,
        "Opt into Strata for all three integrations. Your defaults remain unchanged until you choose Use Strata."
    );
    let mut running = false;
    assert_eq!(dialog.apply(&mut running), ApplyAction::Start { enable: true });
}

#[test]
fn only_one_setup_runs_at_a_time() {
    let (chooser, manager) = status(false, false, false, false);
    let mut first = DialogState::new();
    let mut second = DialogState::new();
    first.show_status(chooser, manager);
    second.show_status(chooser, manager);
    let mut running = false;
    assert_eq!(first.apply(&mut running), ApplyAction::Start { enable: true });
    assert_eq!(second.apply(&mut running), ApplyAction::Conflict);
    assert_eq!(
        conflict_message(),
        "Another configuration is running. Try again when it finishes."
    );
    assert_eq!(first.apply(&mut running), ApplyAction::Ignore);
    match first.finish_setup(&mut running, SetupResult::Done("done".to_owned())) {
        SetupFollowUp::Complete { message } => assert_eq!(message, "done"),
        SetupFollowUp::Reload { .. } => panic!("a finished setup completes"),
    }
    assert!(!running);
    assert_eq!(first.apply(&mut running), ApplyAction::Dismiss);
    assert_eq!(second.apply(&mut running), ApplyAction::Start { enable: true });
}

#[test]
fn an_unknown_status_is_read_again() {
    let mut dialog = DialogState::new();
    let mut running = false;
    assert_eq!(dialog.apply(&mut running), ApplyAction::Load);
    dialog.begin_reload();
    assert!(!dialog.controls_sensitive());
    assert!(!dialog.can_dismiss());
    assert_eq!(dialog.apply(&mut running), ApplyAction::Ignore);
    match dialog.finish_reload(Err("configuration is unreadable".to_owned())) {
        ReloadView::Failed { message } => assert_eq!(message, "configuration is unreadable"),
        ReloadView::Status(_) => panic!("an unreadable status fails"),
    }
    assert!(dialog.controls_sensitive());
    assert_eq!(dialog.enable, None);
    dialog.begin_reload();
    match dialog.finish_reload(Ok(status(true, true, true, true))) {
        ReloadView::Status(view) => assert_eq!(view.confirm_label, "Restore previous"),
        ReloadView::Failed { .. } => panic!("a readable status shows"),
    }
    assert_eq!(dialog.enable, Some(false));
}

#[test]
fn a_failed_setup_reloads_and_reports_the_failure() {
    let mut dialog = DialogState::new();
    dialog.show_status(status(false, false, false, false).0, status(false, false, false, false).1);
    let mut running = false;
    dialog.apply(&mut running);
    match dialog.finish_setup(&mut running, SetupResult::Failed("xdg-mime failed".to_owned())) {
        SetupFollowUp::Reload { failure } => {
            assert_eq!(
                failure_message(&failure),
                "Setup did not finish: xdg-mime failed\nSome integrations may have changed. Complete setup to retry, or restore previous defaults."
            );
        }
        SetupFollowUp::Complete { .. } => panic!("a failed setup reloads"),
    }
    assert!(!running);
    assert!(dialog.busy);
    assert!(!dialog.finished);
}

#[test]
fn indicators_describe_their_state() {
    let shown = indicator_view("Opening folders", Some(true));
    assert!(shown.visible);
    assert_eq!(shown.description.as_deref(), Some("Opening folders: Configured"));
    assert_eq!(shown.icon, Some(IndicatorIcon::Check));
    let missing = indicator_view(indicator_name(3), Some(false));
    assert_eq!(missing.description.as_deref(), Some("Keyboard shortcuts: Not configured"));
    assert_eq!(missing.icon, Some(IndicatorIcon::Cross));
    let hidden = indicator_view("Reveal in File Manager", None);
    assert!(!hidden.visible);
    assert!(hidden.description.is_none());
    assert!(hidden.icon.is_none());
    assert_eq!(indicator_name(0), "Open and Save dialogs");
}

#[test]
fn labels_follow_how_the_dialog_was_opened() {
    assert_eq!(dialog_heading(true), "Use Strata as your file manager?");
    assert_eq!(dialog_heading(false), "System file manager");
    assert_eq!(cancel_label(true), "Not now");
    assert_eq!(cancel_label(false), "Cancel");
    assert_eq!(start_message(true), "Configuring Strata as your default file manager…");
    assert_eq!(start_message(false), "Restoring your previous file manager and chooser…");
}

#[test]
fn the_offer_is_scheduled_once_and_waits_for_an_idle_window() {
    let mut offer = OfferScheduler::new();
    assert!(offer.schedule());
    assert!(!offer.schedule());
    assert_eq!(offer.tick(true, false, false), OfferTick::Wait);
    assert_eq!(offer.tick(true, true, true), OfferTick::Wait);
    assert_eq!(offer.tick(true, true, false), OfferTick::Offer);
    assert!(!offer.schedule());
    assert_eq!(offer.tick(false, true, false), OfferTick::Stop);
    assert!(offer.schedule());
    assert_eq!(offer_reaction(&OfferAnswer::Answered(true)), OfferReaction::Show);
    assert_eq!(offer_reaction(&OfferAnswer::Answered(false)), OfferReaction::Nothing);
    assert_eq!(offer_reaction(&OfferAnswer::Failed("x".to_owned())), OfferReaction::Warn);
    assert_eq!(offer_reaction(&OfferAnswer::TaskFailed("y".to_owned())), OfferReaction::Warn);
}
