//! The decisions of the file-manager integration dialog: what the dialog
//! shows for a configuration status, what its buttons do in each state, and
//! when the first-run offer appears.

use vstd::prelude::*;

verus! {

/// The state of the file chooser portal integration.
#[derive(Clone, Copy, Debug, PartialEq, Eq)]
pub struct PortalStatus {
    /// The portal is configured to use Strata's chooser.
    pub configured: bool,
    /// Some of Strata's portal files are installed.
    pub has_installation: bool,
}

/// The state of the default file manager integration.
#[derive(Clone, Copy, Debug, PartialEq, Eq)]
pub struct FileManagerStatus {
    /// Strata opens folders by default.
    pub default: bool,
    /// Strata answers "Reveal in File Manager" requests.
    pub has_service: bool,
    /// Some of Strata's file manager files are installed.
    pub has_installation: bool,
    /// Whether the keyboard shortcuts are set up, where that can be told.
    pub shortcuts: Option<bool>,
}

/// All three integrations are in place.
pub open spec fn configured_spec(chooser: PortalStatus, manager: FileManagerStatus) -> bool {
    chooser.configured && manager.default && manager.has_service
}

/// Some, but not all, of the integrations are in place or installed.
pub open spec fn partial_spec(chooser: PortalStatus, manager: FileManagerStatus) -> bool {
    !configured_spec(chooser, manager) && (chooser.has_installation || chooser.configured
        || manager.has_installation || manager.default)
}

/// The label of the confirm button for a status.
pub open spec fn confirm_label_spec(chooser: PortalStatus, manager: FileManagerStatus) -> Seq<
    char,
> {
    if configured_spec(chooser, manager) {
        "Restore previous"@
    } else if partial_spec(chooser, manager) {
        "Complete setup"@
    } else {
        "Use Strata"@
    }
}

/// The explanation shown for a status.
pub open spec fn status_message_spec(chooser: PortalStatus, manager: FileManagerStatus) -> Seq<
    char,
> {
    if configured_spec(chooser, manager) {
        "Strata is configured for Open and Save dialogs, opening folders, and Reveal in File Manager."@
    } else if partial_spec(chooser, manager) {
        "Strata is only partially configured. Complete setup to opt into all integrations, or restore your previous defaults."@
    } else {
        "Opt into Strata for all three integrations. Your defaults remain unchanged until you choose Use Strata."@
    }
}

/// What the dialog shows for a configuration status.
pub struct StatusView {
    /// The confirm button's label.
    pub confirm_label: String,
    /// Whether the "restore previous" button is shown.
    pub restore_visible: bool,
    /// The explanation shown under the heading.
    pub message: String,
    /// The state of each integration, in the order of the indicators (open
    /// and save dialogs, opening folders, reveal in file manager, keyboard
    /// shortcuts); `None` hides an indicator.
    pub indicators: Vec<Option<bool>>,
}

/// The icon of an integration indicator.
#[derive(Clone, Copy, Debug, PartialEq, Eq)]
pub enum IndicatorIcon {
    Check,
    Cross,
}

/// What an integration indicator shows.
pub struct IndicatorView {
    pub visible: bool,
    /// The tooltip and accessible label, where the indicator is shown.
    pub description: Option<String>,
    pub icon: Option<IndicatorIcon>,
}

/// The names of the four integration indicators, in order.
pub fn indicator_name(i: usize) -> (name: &'static str)
    requires
        i < 4,
    ensures
        name@ == indicator_name_spec(i),
{
    if i == 0 {
        "Open and Save dialogs"
    } else if i == 1 {
        "Opening folders"
    } else if i == 2 {
        "Reveal in File Manager"
    } else {
        "Keyboard shortcuts"
    }
}

/// The name of the indicator at `i`.
pub open spec fn indicator_name_spec(i: usize) -> Seq<char> {
    if i == 0 {
        "Open and Save dialogs"@
    } else if i == 1 {
        "Opening folders"@
    } else if i == 2 {
        "Reveal in File Manager"@
    } else {
        "Keyboard shortcuts"@
    }
}

/// The description of an indicator called `name` in the given state.
pub open spec fn indicator_description_spec(name: Seq<char>, configured: bool) -> Seq<char> {
    name + ": "@ + if configured {
        "Configured"@
    } else {
        "Not configured"@
    }
}

/// What the indicator called `name` shows for `configured`: hidden where
/// the state is unknown, and otherwise "name: Configured" with a check mark
/// or "name: Not configured" with a cross.
pub fn indicator_view(name: &str, configured: Option<bool>) -> (v: IndicatorView)
    ensures
        v.visible == (configured is Some),
        configured is None ==> (v.description is None && v.icon is None),
        configured matches Some(c) ==> v.description matches Some(d) && d@
            == indicator_description_spec(name@, c),
        configured matches Some(c) ==> v.icon == Some(
            if c {
                IndicatorIcon::Check
            } else {
                IndicatorIcon::Cross
            },
        ),
{
    match configured {
        None => IndicatorView { visible: false, description: None, icon: None },
        Some(c) => {
            let mut description = String::from_str(name);
            description.append(": ");
            if c {
                description.append("Configured");
            } else {
                description.append("Not configured");
            }
            IndicatorView {
                visible: true,
                description: Some(description),
                icon: Some(
                    if c {
                        IndicatorIcon::Check
                    } else {
                        IndicatorIcon::Cross
                    },
                ),
            }
        },
    }
}

/// The state of the dialog that its buttons act on.
#[derive(Clone, Copy, Debug, PartialEq, Eq)]
pub struct DialogState {
    /// A status read or a setup is running: the buttons are insensitive.
    pub busy: bool,
    /// What the confirm button does once the status is known: `Some(true)`
    /// sets Strata up, `Some(false)` restores the previous defaults, `None`
    /// reads the status again.
    pub enable: Option<bool>,
    /// A setup has finished: the confirm button closes the dialog.
    pub finished: bool,
}

/// What a press of the confirm button asks of the caller.
#[derive(Clone, Copy, Debug, PartialEq, Eq)]
pub enum ApplyAction {
    /// Nothing: the dialog is busy.
    Ignore,
    /// Close the dialog: the setup has finished.
    Dismiss,
    /// Read the status again: it is not known.
    Load,
    /// Report that another setup is running.
    Conflict,
    /// Run the setup (`enable`) or the restore (`!enable`) in the background.
    Start { enable: bool },
}

/// The dialog's state, the shared "a setup is running" flag and the action
/// after a press of the confirm button.
pub open spec fn apply_spec(s: DialogState, running: bool) -> (DialogState, bool, ApplyAction) {
    if s.busy {
        (s, running, ApplyAction::Ignore)
    } else if s.finished {
        (s, running, ApplyAction::Dismiss)
    } else if s.enable is None {
        (s, running, ApplyAction::Load)
    } else if running {
        (s, running, ApplyAction::Conflict)
    } else {
        (DialogState { busy: true, ..s }, true, ApplyAction::Start { enable: s.enable->0 })
    }
}

/// The message shown when a setup is refused because another one runs.
pub open spec fn conflict_message_spec() -> Seq<char> {
    "Another configuration is running. Try again when it finishes."@
}

/// The message shown while a setup (`enable`) or a restore runs.
pub open spec fn start_message_spec(enable: bool) -> Seq<char> {
    if enable {
        "Configuring Strata as your default file manager…"@
    } else {
        "Restoring your previous file manager and chooser…"@
    }
}

/// The message shown after a setup failed with `failure`.
pub open spec fn failure_message_spec(failure: Seq<char>) -> Seq<char> {
    "Setup did not finish: "@ + failure
        + "\nSome integrations may have changed. Complete setup to retry, or restore previous defaults."@
}

/// What the dialog shows once a status read has ended.
pub enum ReloadView {
    /// The status was read.
    Status(StatusView),
    /// The status could not be read: the message is shown as an error, the
    /// indicators are hidden and the confirm button reads "Retry".
    Failed { message: String },
}

/// How a background setup ended.
pub enum SetupResult {
    /// It went through; the message reports what changed.
    Done(String),
    /// It failed with this message.
    Failed(String),
}

/// What the dialog does once a background setup has ended.
pub enum SetupFollowUp {
    /// Show the completion message, hide the indicators and the cancel and
    /// restore buttons, and turn the confirm button into "Done".
    Complete { message: String },
    /// Read the status again and report the failure.
    Reload { failure: String },
}

/// The dialog's state after a background setup has ended.
pub open spec fn finish_setup_spec(s: DialogState, result: SetupResult) -> DialogState {
    match result {
        SetupResult::Done(_) => DialogState { busy: false, finished: true, ..s },
        SetupResult::Failed(_) => DialogState { busy: true, ..s },
    }
}

/// Exactly one of "configured" and "partially configured" describes a
/// status that has anything in place, and the "restore previous" button is
/// offered exactly for a partial setup.
pub proof fn law_configured_and_partial_exclude_each_other(
    chooser: PortalStatus,
    manager: FileManagerStatus,
)
    ensures
        !(configured_spec(chooser, manager) && partial_spec(chooser, manager)),
        (chooser.configured || chooser.has_installation || manager.default
            || manager.has_installation) ==> (configured_spec(chooser, manager) || partial_spec(
            chooser,
            manager,
        )),
{
}

/// The confirm button does what its label says: once a status is shown on
/// an idle dialog and no other setup runs, pressing it restores the previous
/// defaults exactly when it reads "Restore previous", and sets Strata up
/// otherwise.
pub proof fn law_confirm_does_what_its_label_says(
    s: DialogState,
    chooser: PortalStatus,
    manager: FileManagerStatus,
)
    requires
        !s.busy,
        !s.finished,
    ensures
        ({
            let shown = DialogState { enable: Some(!configured_spec(chooser, manager)), ..s };
            let enable = !configured_spec(chooser, manager);
            &&& apply_spec(shown, false).2 == ApplyAction::Start { enable }
            &&& (confirm_label_spec(chooser, manager) == "Restore previous"@ <==> !enable)
        }),
{
    reveal_strlit("Restore previous");
    reveal_strlit("Complete setup");
    reveal_strlit("Use Strata");
    assert("Restore previous"@.len() == 16);
    assert("Complete setup"@ != "Restore previous"@) by {
        assert("Complete setup"@.len() == 14);
    }
    assert("Use Strata"@ != "Restore previous"@) by {
        assert("Use Strata"@.len() == 10);
    }
}

/// At most one setup runs at a time: a setup starts only while none runs,
/// and then marks one as running, so that no dialog starts another until it
/// has ended.
pub proof fn law_one_setup_at_a_time(s: DialogState, other: DialogState, running: bool)
    ensures
        apply_spec(s, running).2 is Start ==> !running && apply_spec(s, running).1,
        apply_spec(other, true).2 !is Start,
{
}

/// A busy dialog ignores its buttons and stays open: nothing changes.
pub proof fn law_busy_dialog_ignores_presses(s: DialogState, running: bool)
    requires
        s.busy,
    ensures
        apply_spec(s, running) == (s, running, ApplyAction::Ignore),
{
}

/// A finished dialog's confirm button only closes it.
pub proof fn law_finished_dialog_closes(s: DialogState, running: bool)
    requires
        !s.busy,
        s.finished,
    ensures
        apply_spec(s, running) == (s, running, ApplyAction::Dismiss),
{
}

/// The dialog counts the system as configured only when all three
/// integrations are in place: Strata's chooser, opening folders and revealing
/// files. Exactly then does the confirm button read "Restore previous" and
/// the explanation say that Strata is configured; in particular, when
/// another application opens folders, the dialog never offers to restore
/// through the confirm button.
pub proof fn law_configured_means_all_three_in_place(
    chooser: PortalStatus,
    manager: FileManagerStatus,
)
    ensures
        (confirm_label_spec(chooser, manager) == "Restore previous"@) <==> (chooser.configured
            && manager.default && manager.has_service),
        (status_message_spec(chooser, manager)
            == "Strata is configured for Open and Save dialogs, opening folders, and Reveal in File Manager."@)
            <==> (chooser.configured && manager.default && manager.has_service),
        partial_spec(chooser, manager) ==> !(chooser.configured && manager.default
            && manager.has_service),
        !manager.default ==> confirm_label_spec(chooser, manager) != "Restore previous"@,
        partial_spec(chooser, manager) <==> (!(chooser.configured && manager.default
            && manager.has_service) && (chooser.configured || chooser.has_installation
            || manager.default || manager.has_installation)),
        (confirm_label_spec(chooser, manager) == "Complete setup"@) <==> partial_spec(
            chooser,
            manager,
        ),
        (confirm_label_spec(chooser, manager) == "Use Strata"@) <==> !(chooser.configured
            || chooser.has_installation || manager.default || manager.has_installation),
{
    reveal_strlit("Restore previous");
    reveal_strlit("Complete setup");
    reveal_strlit("Use Strata");
    reveal_strlit(
        "Strata is configured for Open and Save dialogs, opening folders, and Reveal in File Manager.",
    );
    reveal_strlit(
        "Strata is only partially configured. Complete setup to opt into all integrations, or restore your previous defaults.",
    );
    reveal_strlit(
        "Opt into Strata for all three integrations. Your defaults remain unchanged until you choose Use Strata.",
    );
    assert("Restore previous"@.len() == 16);
    assert("Complete setup"@.len() == 14);
    assert("Use Strata"@.len() == 10);
    assert("Strata is configured for Open and Save dialogs, opening folders, and Reveal in File Manager."@.len()
        == 92);
    assert("Strata is only partially configured. Complete setup to opt into all integrations, or restore your previous defaults."@.len()
        == 116);
    assert("Opt into Strata for all three integrations. Your defaults remain unchanged until you choose Use Strata."@.len()
        == 103);
}

/// Whether any of `presses` of confirm buttons, made in turn by dialogs in
/// the given states with `running` as the shared flag at first, starts a
/// setup.
pub open spec fn presses_start_a_setup(presses: Seq<DialogState>, running: bool) -> bool
    decreases presses.len(),
{
    if presses.len() == 0 {
        false
    } else {
        let (_, after, action) = apply_spec(presses[0], running);
        action is Start || presses_start_a_setup(presses.drop_first(), after)
    }
}

/// A press never clears the shared "a setup is running" flag: only the end
/// of a setup does. A press refused because a setup runs leaves the flag set.
pub proof fn law_presses_never_clear_the_running_flag(s: DialogState, running: bool)
    ensures
        running ==> apply_spec(s, running).1,
        apply_spec(s, running).2 == ApplyAction::Conflict ==> running && apply_spec(s, running).1,
{
}

/// While a setup runs, no sequence of presses, by any dialogs in any states,
/// starts another: between a start and the end of that setup nothing starts.
pub proof fn law_no_setup_starts_while_one_runs(presses: Seq<DialogState>)
    ensures
        !presses_start_a_setup(presses, true),
    decreases presses.len(),
{
    if presses.len() > 0 {
        law_no_setup_starts_while_one_runs(presses.drop_first());
    }
}

impl DialogState {
    /// A dialog that has not read the status yet.
    pub fn new() -> (s: Self)
        ensures
            s == (DialogState { busy: false, enable: None, finished: false }),
    {
        DialogState { busy: false, enable: None, finished: false }
    }

    /// Whether the buttons respond: they do unless the dialog is busy.
    pub fn controls_sensitive(&self) -> (r: bool)
        ensures
            r == !self.busy,
    {
        !self.busy
    }

    /// Whether the dialog may close: not while it is busy.
    pub fn can_dismiss(&self) -> (r: bool)
        ensures
            r == !self.busy,
    {
        !self.busy
    }

    /// Starts reading the status: the dialog is busy until it ends.
    pub fn begin_reload(&mut self)
        ensures
            *final(self) == (DialogState { busy: true, ..*old(self) }),
    {
        self.busy = true;
    }

    /// A press of the confirm button, with `running` the flag shared by all
    /// dialogs that a setup is running.
    pub fn apply(&mut self, running: &mut bool) -> (a: ApplyAction)
        ensures
            (*final(self), *final(running), a) == apply_spec(*old(self), *old(running)),
            *old(running) ==> *final(running),
            a is Start ==> !*old(running) && *final(running),
    {
        if self.busy {
            return ApplyAction::Ignore;
        }
        if self.finished {
            return ApplyAction::Dismiss;
        }
        match self.enable {
            None => ApplyAction::Load,
            Some(enable) => {
                if *running {
                    return ApplyAction::Conflict;
                }
                *running = true;
                self.busy = true;
                ApplyAction::Start { enable }
            },
        }
    }

    /// A press of the "restore previous" button: when the dialog is idle it
    /// chooses to restore and then acts as the confirm button does.
    pub fn restore(&mut self, running: &mut bool) -> (a: ApplyAction)
        ensures
            old(self).busy ==> (a == ApplyAction::Ignore && *final(self) == *old(self)
                && *final(running) == *old(running)),
            !old(self).busy ==> (*final(self), *final(running), a) == apply_spec(
                DialogState { enable: Some(false), ..*old(self) },
                *old(running),
            ),
            *old(running) ==> *final(running),
            a is Start ==> !*old(running) && *final(running),
    {
        if self.busy {
            return ApplyAction::Ignore;
        }
        self.enable = Some(false);
        self.apply(running)
    }

    /// Shows a status that was read: the confirm button sets Strata up unless
    /// everything is configured already, in which case it restores.
    pub fn show_status(&mut self, chooser: PortalStatus, manager: FileManagerStatus) -> (v:
        StatusView)
        ensures
            *final(self) == (DialogState {
                enable: Some(!configured_spec(chooser, manager)),
                ..*old(self)
            }),
            final(self).enable == Some(
                !(chooser.configured && manager.default && manager.has_service),
            ),
            v.confirm_label@ == confirm_label_spec(chooser, manager),
            v.restore_visible == partial_spec(chooser, manager),
            v.message@ == status_message_spec(chooser, manager),
            v.indicators@ == seq![
                Some(chooser.configured),
                Some(manager.default),
                Some(manager.has_service),
                manager.shortcuts,
            ],
    {
        let configured = chooser.configured && manager.default && manager.has_service;
        let partial = !configured && (chooser.has_installation || chooser.configured
            || manager.has_installation || manager.default);
        self.enable = Some(!configured);
        let confirm_label = if configured {
            String::from_str("Restore previous")
        } else if partial {
            String::from_str("Complete setup")
        } else {
            String::from_str("Use Strata")
        };
        let message = if configured {
            String::from_str(
                "Strata is configured for Open and Save dialogs, opening folders, and Reveal in File Manager.",
            )
        } else if partial {
            String::from_str(
                "Strata is only partially configured. Complete setup to opt into all integrations, or restore your previous defaults.",
            )
        } else {
            String::from_str(
                "Opt into Strata for all three integrations. Your defaults remain unchanged until you choose Use Strata.",
            )
        };
        let mut indicators: Vec<Option<bool>> = Vec::new();
        indicators.push(Some(chooser.configured));
        indicators.push(Some(manager.default));
        indicators.push(Some(manager.has_service));
        indicators.push(manager.shortcuts);
        assert(indicators@ =~= seq![
            Some(chooser.configured),
            Some(manager.default),
            Some(manager.has_service),
            manager.shortcuts,
        ]);
        StatusView { confirm_label, restore_visible: partial, message, indicators }
    }

    /// Ends a status read: the dialog is no longer busy and shows the status,
    /// or, where it could not be read, the error; then the confirm button
    /// reads the status again.
    pub fn finish_reload(
        &mut self,
        result: Result<(PortalStatus, FileManagerStatus), String>,
    ) -> (v: ReloadView)
        ensures
            match result {
                Ok((chooser, manager)) => {
                    &&& *final(self) == (DialogState {
                        busy: false,
                        enable: Some(!configured_spec(chooser, manager)),
                        ..*old(self)
                    })
                    &&& v matches ReloadView::Status(view) && view.confirm_label@
                        == confirm_label_spec(chooser, manager) && view.restore_visible
                        == partial_spec(chooser, manager) && view.message@ == status_message_spec(
                        chooser,
                        manager,
                    ) && view.indicators@ == seq![
                        Some(chooser.configured),
                        Some(manager.default),
                        Some(manager.has_service),
                        manager.shortcuts,
                    ]
                },
                Err(error) => {
                    &&& *final(self) == (DialogState { busy: false, enable: None, ..*old(self) })
                    &&& v matches ReloadView::Failed { message } && message@ == error@
                },
            },
    {
        self.busy = false;
        match result {
            Ok((chooser, manager)) => ReloadView::Status(self.show_status(chooser, manager)),
            Err(error) => {
                self.enable = None;
                ReloadView::Failed { message: error }
            },
        }
    }

    /// Ends a background setup and clears the shared flag: a setup that went
    /// through finishes the dialog; a failed one reads the status again (the
    /// dialog stays busy while it does).
    pub fn finish_setup(&mut self, running: &mut bool, result: SetupResult) -> (f: SetupFollowUp)
        ensures
            !*final(running),
            *final(self) == finish_setup_spec(*old(self), result),
            match result {
                SetupResult::Done(message) => f matches SetupFollowUp::Complete { message: m }
                    && m == message,
                SetupResult::Failed(failure) => f matches SetupFollowUp::Reload { failure: e }
                    && e == failure,
            },
    {
        *running = false;
        self.busy = false;
        match result {
            SetupResult::Done(message) => {
                self.finished = true;
                SetupFollowUp::Complete { message }
            },
            SetupResult::Failed(failure) => {
                self.begin_reload();
                SetupFollowUp::Reload { failure }
            },
        }
    }
}

/// The message shown when a setup is refused because another one runs.
pub fn conflict_message() -> (m: String)
    ensures
        m@ == conflict_message_spec(),
{
    String::from_str("Another configuration is running. Try again when it finishes.")
}

/// The message shown while a setup (`enable`) or a restore runs.
pub fn start_message(enable: bool) -> (m: String)
    ensures
        m@ == start_message_spec(enable),
{
    if enable {
        String::from_str("Configuring Strata as your default file manager…")
    } else {
        String::from_str("Restoring your previous file manager and chooser…")
    }
}

/// The message shown after a setup failed with `failure`.
pub fn failure_message(failure: &str) -> (m: String)
    ensures
        m@ == failure_message_spec(failure@),
{
    let mut m = String::from_str("Setup did not finish: ");
    m.append(failure);
    m.append(
        "\nSome integrations may have changed. Complete setup to retry, or restore previous defaults.",
    );
    m
}

/// The dialog's heading: a question when the dialog is offered unasked.
pub fn dialog_heading(offer: bool) -> (h: &'static str)
    ensures
        h@ == if offer {
            "Use Strata as your file manager?"@
        } else {
            "System file manager"@
        },
{
    if offer {
        "Use Strata as your file manager?"
    } else {
        "System file manager"
    }
}

/// The cancel button's label: "Not now" when the dialog is offered unasked.
pub fn cancel_label(offer: bool) -> (l: &'static str)
    ensures
        l@ == if offer {
            "Not now"@
        } else {
            "Cancel"@
        },
{
    if offer {
        "Not now"
    } else {
        "Cancel"
    }
}

/// Whether the first-run offer has been scheduled in this process.
pub struct OfferScheduler {
    pub scheduled: bool,
}

/// What the offer timer does on a tick.
#[derive(Clone, Copy, Debug, PartialEq, Eq)]
pub enum OfferTick {
    /// The window is gone: stop, and allow a later schedule.
    Stop,
    /// The window is inactive or shows another dialog: try again later.
    Wait,
    /// Ask whether to offer the dialog, and stop the timer.
    Offer,
}

/// How the question "should the dialog be offered?" was answered.
pub enum OfferAnswer {
    /// The answer itself.
    Answered(bool),
    /// Reading the answer failed with this message.
    Failed(String),
    /// The background task that reads it failed with this message.
    TaskFailed(String),
}

/// What the caller does with the answer.
#[derive(Clone, Copy, Debug, PartialEq, Eq)]
pub enum OfferReaction {
    /// Show the dialog as an offer, if the window is still there.
    Show,
    /// Log that the offer could not be made.
    Warn,
    /// Nothing to do.
    Nothing,
}

impl OfferScheduler {
    pub fn new() -> (s: Self)
        ensures
            !s.scheduled,
    {
        OfferScheduler { scheduled: false }
    }

    /// Schedules the offer once: returns whether the timer is to be started,
    /// which is only when it was not scheduled before.
    pub fn schedule(&mut self) -> (start: bool)
        ensures
            start == !old(self).scheduled,
            final(self).scheduled,
    {
        let start = !self.scheduled;
        self.scheduled = true;
        start
    }

    /// A tick of the offer timer.
    pub fn tick(&mut self, window_alive: bool, window_active: bool, modal_visible: bool) -> (t:
        OfferTick)
        ensures
            !window_alive ==> t == OfferTick::Stop && !final(self).scheduled,
            window_alive && (!window_active || modal_visible) ==> t == OfferTick::Wait
                && final(self).scheduled == old(self).scheduled,
            window_alive && window_active && !modal_visible ==> t == OfferTick::Offer
                && final(self).scheduled == old(self).scheduled,
    {
        if !window_alive {
            self.scheduled = false;
            return OfferTick::Stop;
        }
        if !window_active || modal_visible {
            return OfferTick::Wait;
        }
        OfferTick::Offer
    }
}

/// What to do with the answer to "should the dialog be offered?".
pub fn offer_reaction(answer: &OfferAnswer) -> (r: OfferReaction)
    ensures
        r == match answer {
            OfferAnswer::Answered(true) => OfferReaction::Show,
            OfferAnswer::Answered(false) => OfferReaction::Nothing,
            OfferAnswer::Failed(_) => OfferReaction::Warn,
            OfferAnswer::TaskFailed(_) => OfferReaction::Warn,
        },
{
    match answer {
        OfferAnswer::Answered(true) => OfferReaction::Show,
        OfferAnswer::Answered(false) => OfferReaction::Nothing,
        OfferAnswer::Failed(_) => OfferReaction::Warn,
        OfferAnswer::TaskFailed(_) => OfferReaction::Warn,
    }
}

} // verus!
