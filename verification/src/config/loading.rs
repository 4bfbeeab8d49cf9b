//! How the settings file is loaded: what is done after each step, and when the
//! file is written.

use vstd::prelude::*;

verus! {

/// Where loading has got to.
#[derive(Clone, Copy, Debug, PartialEq, Eq, Structural)]
pub enum LoadState {
    /// The file is read; one that the user names has to be there.
    Reading { required: bool },
    /// The template is written, as there is no file.
    Creating,
    /// The settings of the file are parsed and validated.
    Checking,
    /// The file is completed with what it lacks.
    Completing,
    /// The settings of the completed text are parsed and validated.
    CheckingCompleted,
    /// The completed text is written.
    Updating,
    Ended,
}

/// How a step went.
#[derive(Clone, Copy, Debug, PartialEq, Eq, Structural)]
pub enum LoadEvent {
    Succeeded,
    Failed,
    /// There is no file.
    Missing,
    /// The file lacks nothing.
    Complete,
}

/// What is done next.
#[derive(Clone, Copy, Debug, PartialEq, Eq, Structural)]
pub enum LoadAction {
    WriteTemplate,
    CheckSettings,
    CompleteSettings,
    CheckCompleted,
    WriteCompleted,
    /// Loading ends with the default settings.
    UseDefaults,
    /// Loading ends with the settings of the file.
    UseLoaded,
    /// Loading ends with the error of the last step.
    Fail,
    Nothing,
}

impl LoadAction {
    /// Whether the file is touched.
    pub open spec fn writes(self) -> bool {
        self == LoadAction::WriteTemplate || self == LoadAction::WriteCompleted
    }
}

/// What follows on a step.
pub open spec fn load_step(state: LoadState, event: LoadEvent) -> (LoadState, LoadAction) {
    let succeeded = event == LoadEvent::Succeeded;
    match state {
        LoadState::Reading { required } => if succeeded {
            (LoadState::Checking, LoadAction::CheckSettings)
        } else if event == LoadEvent::Missing && !required {
            (LoadState::Creating, LoadAction::WriteTemplate)
        } else {
            (LoadState::Ended, LoadAction::Fail)
        },
        LoadState::Creating => (LoadState::Ended, LoadAction::UseDefaults),
        LoadState::Checking => if succeeded {
            (LoadState::Completing, LoadAction::CompleteSettings)
        } else {
            (LoadState::Ended, LoadAction::Fail)
        },
        LoadState::Completing => if succeeded {
            (LoadState::CheckingCompleted, LoadAction::CheckCompleted)
        } else {
            (LoadState::Ended, LoadAction::UseLoaded)
        },
        LoadState::CheckingCompleted => if succeeded {
            (LoadState::Updating, LoadAction::WriteCompleted)
        } else {
            (LoadState::Ended, LoadAction::UseLoaded)
        },
        LoadState::Updating => (LoadState::Ended, LoadAction::UseLoaded),
        LoadState::Ended => (LoadState::Ended, LoadAction::Nothing),
    }
}

/// Decides what follows on a step. A file that is missing and not required is
/// created; one that is not valid ends loading. The file is completed only with a
/// text that is valid, and whether it could be written does not matter.
pub fn next_load_step(state: LoadState, event: LoadEvent) -> (result: (LoadState, LoadAction))
    ensures
        result == load_step(state, event),
{
    let succeeded = event == LoadEvent::Succeeded;
    match state {
        LoadState::Reading { required } => if succeeded {
            (LoadState::Checking, LoadAction::CheckSettings)
        } else if event == LoadEvent::Missing && !required {
            (LoadState::Creating, LoadAction::WriteTemplate)
        } else {
            (LoadState::Ended, LoadAction::Fail)
        },
        LoadState::Creating => (LoadState::Ended, LoadAction::UseDefaults),
        LoadState::Checking => if succeeded {
            (LoadState::Completing, LoadAction::CompleteSettings)
        } else {
            (LoadState::Ended, LoadAction::Fail)
        },
        LoadState::Completing => if succeeded {
            (LoadState::CheckingCompleted, LoadAction::CheckCompleted)
        } else {
            (LoadState::Ended, LoadAction::UseLoaded)
        },
        LoadState::CheckingCompleted => if succeeded {
            (LoadState::Updating, LoadAction::WriteCompleted)
        } else {
            (LoadState::Ended, LoadAction::UseLoaded)
        },
        LoadState::Updating => (LoadState::Ended, LoadAction::UseLoaded),
        LoadState::Ended => (LoadState::Ended, LoadAction::Nothing),
    }
}

/// What is done, one after the other, when steps go in some way.
pub open spec fn load_actions(state: LoadState, events: Seq<LoadEvent>) -> Seq<LoadAction>
    decreases events.len(),
{
    if events.len() == 0 {
        Seq::empty()
    } else {
        let (next, action) = load_step(state, events[0]);
        seq![action] + load_actions(next, events.drop_first())
    }
}

proof fn lemma_ended(events: Seq<LoadEvent>)
    ensures
        load_actions(LoadState::Ended, events) == Seq::new(
            events.len(),
            |i: int| LoadAction::Nothing,
        ),
    decreases events.len(),
{
    if events.len() > 0 {
        lemma_ended(events.drop_first());
    }
    assert(load_actions(LoadState::Ended, events) =~= Seq::new(
        events.len(),
        |i: int| LoadAction::Nothing,
    ));
}

/// A missing file that is not required is created from the template, and the
/// default settings are used whether or not that went well.
pub proof fn law_missing_files_are_created(events: Seq<LoadEvent>)
    requires
        events.len() >= 2,
        events[0] == LoadEvent::Missing,
    ensures
        load_actions(LoadState::Reading { required: false }, events).take(2) == seq![
            LoadAction::WriteTemplate,
            LoadAction::UseDefaults,
        ],
{
    let rest = events.drop_first();
    reveal_with_fuel(load_actions, 3);
    assert(rest[0] == events[1]);
    assert(load_actions(LoadState::Reading { required: false }, events).take(2) =~= seq![
        LoadAction::WriteTemplate,
        LoadAction::UseDefaults,
    ]);
}

/// A file that cannot be read, is missing although required, or is not valid is
/// never touched, and loading fails.
pub proof fn law_invalid_files_are_never_written(
    required: bool,
    events: Seq<LoadEvent>,
    place: int,
)
    requires
        0 <= place < events.len(),
        events[0] == LoadEvent::Failed || (events[0] == LoadEvent::Missing && required) || (
        events.len() >= 2 && events[0] == LoadEvent::Succeeded && events[1]
            != LoadEvent::Succeeded),
    ensures
        !load_actions(LoadState::Reading { required }, events)[place].writes(),
        load_actions(LoadState::Reading { required }, events).contains(LoadAction::Fail),
{
    let rest = events.drop_first();
    let all = load_actions(LoadState::Reading { required }, events);
    reveal_with_fuel(load_actions, 3);
    if events[0] == LoadEvent::Succeeded {
        assert(rest[0] == events[1]);
        lemma_ended(rest.drop_first());
        assert(all =~= seq![LoadAction::CheckSettings, LoadAction::Fail] + load_actions(
            LoadState::Ended,
            rest.drop_first(),
        ));
        assert(all[1] == LoadAction::Fail);
    } else {
        lemma_ended(rest);
        assert(all[0] == LoadAction::Fail);
    }
}

/// A valid file is loaded with its own settings, whatever becomes of its completion.
pub proof fn law_valid_files_are_loaded(required: bool, events: Seq<LoadEvent>)
    requires
        events.len() >= 5,
        events[0] == LoadEvent::Succeeded,
        events[1] == LoadEvent::Succeeded,
    ensures
        load_actions(LoadState::Reading { required }, events).contains(LoadAction::UseLoaded),
        !load_actions(LoadState::Reading { required }, events).contains(LoadAction::Fail),
        !load_actions(LoadState::Reading { required }, events).contains(LoadAction::WriteTemplate),
        load_actions(LoadState::Reading { required }, events).contains(LoadAction::WriteCompleted)
            <==> events[2] == LoadEvent::Succeeded && events[3] == LoadEvent::Succeeded,
{
    let all = load_actions(LoadState::Reading { required }, events);
    reveal_with_fuel(load_actions, 6);
    let first = events.drop_first();
    let second = first.drop_first();
    let third = second.drop_first();
    let fourth = third.drop_first();
    let fifth = fourth.drop_first();
    assert(first[0] == events[1] && second[0] == events[2] && third[0] == events[3] && fourth[0]
        == events[4]);
    lemma_ended(third);
    lemma_ended(fourth);
    lemma_ended(fifth);
    let start = seq![LoadAction::CheckSettings, LoadAction::CompleteSettings];
    if events[2] != LoadEvent::Succeeded {
        assert(all =~= start + seq![LoadAction::UseLoaded] + load_actions(LoadState::Ended, third));
        assert(all[2] == LoadAction::UseLoaded);
    } else if events[3] != LoadEvent::Succeeded {
        assert(all =~= start + seq![LoadAction::CheckCompleted, LoadAction::UseLoaded]
            + load_actions(LoadState::Ended, fourth));
        assert(all[3] == LoadAction::UseLoaded);
    } else {
        assert(all =~= start + seq![
            LoadAction::CheckCompleted,
            LoadAction::WriteCompleted,
            LoadAction::UseLoaded,
        ] + load_actions(LoadState::Ended, fifth));
        assert(all[3] == LoadAction::WriteCompleted);
        assert(all[4] == LoadAction::UseLoaded);
    }
}

/// Loading goes on after a success and ends after a failure; a file that could not be
/// completed is used as it is, and a missing one that the user names is an error.
pub proof fn law_steps_of_loading(required: bool, event: LoadEvent)
    ensures
        load_step(LoadState::Reading { required }, LoadEvent::Succeeded).1
            == LoadAction::CheckSettings,
        load_step(LoadState::Reading { required: true }, LoadEvent::Missing).1 == LoadAction::Fail,
        load_step(LoadState::Reading { required: false }, LoadEvent::Missing).1
            == LoadAction::WriteTemplate,
        load_step(LoadState::Reading { required }, LoadEvent::Failed).1 == LoadAction::Fail,
        load_step(LoadState::Creating, event).1 == LoadAction::UseDefaults,
        load_step(LoadState::Checking, LoadEvent::Succeeded).1 == LoadAction::CompleteSettings,
        load_step(LoadState::Checking, LoadEvent::Failed).1 == LoadAction::Fail,
        load_step(LoadState::Completing, LoadEvent::Succeeded).1 == LoadAction::CheckCompleted,
        load_step(LoadState::Completing, LoadEvent::Complete).1 == LoadAction::UseLoaded,
        load_step(LoadState::Completing, LoadEvent::Failed).1 == LoadAction::UseLoaded,
        load_step(LoadState::CheckingCompleted, LoadEvent::Succeeded).1
            == LoadAction::WriteCompleted,
        load_step(LoadState::CheckingCompleted, LoadEvent::Failed).1 == LoadAction::UseLoaded,
        load_step(LoadState::Updating, event).1 == LoadAction::UseLoaded,
{
}

} // verus!
