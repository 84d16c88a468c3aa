//! The course of a reconciliation run.
//!
//! A run is a state machine. It fetches nothing, asks nobody and sends nothing itself:
//! each step takes what happened outside as an event, and answers with the next thing
//! to do outside. Whoever drives the run performs that action and hands back what came
//! of it.
//!
//! A run starts idle. Once started it waits for the live snapshot and the wanted
//! state, and lists the changes between them. Without changes, or as a dry run, it is
//! done. Else it applies the changes, after confirmation unless it is forced to go on,
//! one command after the other in the order of the batch. The first command that fails
//! ends the run: no later command is sent, since it may rest on an earlier one.

use vstd::prelude::*;
use crate::changes::{guild_commands, DiffCalculator, DiffCommandFactory};
use crate::commands::{
    Command, CommandDescription, CommandModel, DescriptionModel, GuildCommand, Mutation,
    MutationModel,
};
use crate::error::{Error, ErrorModel};
use crate::guild::{AwaitingGuild, ExistingGuild, GuildModel, LiveGuildModel};

verus! {

/// Where a run stands.
#[derive(Clone, Copy, Debug, PartialEq, Eq, Structural)]
pub enum Stage {
    /// Nothing has happened yet.
    Idle,
    /// The run waits for the two states of the workspace, to list the changes.
    Diffing,
    /// The changes are listed; the run waits for leave to apply them.
    AwaitingConfirmation,
    /// A command has been sent; the run waits for what came of it.
    Applying,
    /// The run ended well.
    Done,
    /// Leave to apply the changes was refused.
    Aborted,
    /// The run ended on a failure.
    Failed,
}

/// What happened outside the run.
#[derive(Debug, PartialEq)]
pub enum Event {
    /// The run is asked to begin.
    Started,
    /// The live snapshot was fetched and the wanted state was read.
    Fetched(ExistingGuild, AwaitingGuild),
    /// Leave to apply the changes was given.
    Confirmed,
    /// Leave to apply the changes was refused.
    Declined,
    /// The command that was sent has been carried out.
    Succeeded,
    /// The command that was sent has failed.
    Failed,
}

/// How a run ended.
#[derive(Debug, PartialEq)]
pub enum Outcome {
    /// There was nothing to change.
    NoChange,
    /// The changes were listed and, the run being a dry run, not applied.
    DryRun,
    /// Every command has been carried out.
    Applied,
    /// Leave to apply the changes was refused.
    Aborted,
    /// The described command failed; no later command was sent.
    Failed(CommandDescription),
    /// The changes could not be listed.
    Invalid(Error),
}

/// What is to be done outside the run.
#[derive(Debug, PartialEq)]
pub enum Action {
    /// Fetch the live snapshot and read the wanted state.
    Fetch,
    /// Show the changes and ask for leave to apply them.
    Confirm,
    /// Send this operation to the remote workspace.
    Execute(Mutation),
    /// Nothing more: the run is over.
    Finish(Outcome),
    /// Nothing: the event means nothing where the run stands.
    Ignore,
}

/// Mathematical counterpart of [`Event`].
pub enum EventModel {
    Started,
    Fetched(LiveGuildModel, GuildModel),
    Confirmed,
    Declined,
    Succeeded,
    Failed,
}

/// Mathematical counterpart of [`Outcome`].
pub enum OutcomeModel {
    NoChange,
    DryRun,
    Applied,
    Aborted,
    Failed(DescriptionModel),
    Invalid(ErrorModel),
}

/// Mathematical counterpart of [`Action`].
pub enum ActionModel {
    Fetch,
    Confirm,
    Execute(MutationModel),
    Finish(OutcomeModel),
    Ignore,
}

impl View for Event {
    type V = EventModel;

    open spec fn view(&self) -> EventModel {
        match self {
            Event::Started => EventModel::Started,
            Event::Fetched(live, wanted) => EventModel::Fetched(live@, wanted@),
            Event::Confirmed => EventModel::Confirmed,
            Event::Declined => EventModel::Declined,
            Event::Succeeded => EventModel::Succeeded,
            Event::Failed => EventModel::Failed,
        }
    }
}

impl View for Outcome {
    type V = OutcomeModel;

    open spec fn view(&self) -> OutcomeModel {
        match self {
            Outcome::NoChange => OutcomeModel::NoChange,
            Outcome::DryRun => OutcomeModel::DryRun,
            Outcome::Applied => OutcomeModel::Applied,
            Outcome::Aborted => OutcomeModel::Aborted,
            Outcome::Failed(description) => OutcomeModel::Failed(description@),
            Outcome::Invalid(error) => OutcomeModel::Invalid(error@),
        }
    }
}

impl View for Action {
    type V = ActionModel;

    open spec fn view(&self) -> ActionModel {
        match self {
            Action::Fetch => ActionModel::Fetch,
            Action::Confirm => ActionModel::Confirm,
            Action::Execute(mutation) => ActionModel::Execute(mutation@),
            Action::Finish(outcome) => ActionModel::Finish(outcome@),
            Action::Ignore => ActionModel::Ignore,
        }
    }
}

/// A reconciliation run.
#[derive(Debug, PartialEq)]
pub struct ApplyChanges {
    /// Whether the changes are only to be listed.
    pub dry_run: bool,
    /// Whether the changes are to be applied without asking.
    pub force: bool,
    pub stage: Stage,
    /// The batch of the run, once the changes are listed.
    pub commands: Vec<Command>,
    /// How many commands of the batch have been carried out.
    pub applied: usize,
}

/// Mathematical counterpart of [`ApplyChanges`].
pub struct RunModel {
    pub dry_run: bool,
    pub force: bool,
    pub stage: Stage,
    pub commands: Seq<CommandModel>,
    pub applied: nat,
}

impl View for ApplyChanges {
    type V = RunModel;

    open spec fn view(&self) -> RunModel {
        RunModel {
            dry_run: self.dry_run,
            force: self.force,
            stage: self.stage,
            commands: self.commands.deep_view(),
            applied: self.applied as nat,
        }
    }
}

impl RunModel {
    /// A run that has not begun.
    pub open spec fn idle(dry_run: bool, force: bool) -> RunModel {
        RunModel { dry_run, force, stage: Stage::Idle, commands: Seq::empty(), applied: 0 }
    }

    /// The run, moved to another stage.
    pub open spec fn at(self, stage: Stage) -> RunModel {
        RunModel { stage, ..self }
    }

    /// What a run does once its changes are listed.
    pub open spec fn listed(self, batch: Seq<CommandModel>) -> (RunModel, ActionModel) {
        let run = RunModel { commands: batch, applied: 0, ..self };
        if batch.len() == 0 {
            (run.at(Stage::Done), ActionModel::Finish(OutcomeModel::NoChange))
        } else if self.dry_run {
            (run.at(Stage::Done), ActionModel::Finish(OutcomeModel::DryRun))
        } else if self.force {
            (run.at(Stage::Applying), ActionModel::Execute(batch[0].mutation()))
        } else {
            (run.at(Stage::AwaitingConfirmation), ActionModel::Confirm)
        }
    }

    /// What a run does next, and where it stands then. An event that means nothing
    /// where the run stands leaves the run as it is.
    pub open spec fn step(self, event: EventModel) -> (RunModel, ActionModel) {
        match (self.stage, event) {
            (Stage::Idle, EventModel::Started) => (self.at(Stage::Diffing), ActionModel::Fetch),
            (Stage::Diffing, EventModel::Fetched(live, wanted)) => match guild_commands(
                live,
                wanted,
            ) {
                Ok(batch) => self.listed(batch),
                Err(error) => (
                    self.at(Stage::Failed),
                    ActionModel::Finish(OutcomeModel::Invalid(error)),
                ),
            },
            (Stage::AwaitingConfirmation, EventModel::Confirmed) => if self.commands.len() > 0 {
                (
                    RunModel { stage: Stage::Applying, applied: 0, ..self },
                    ActionModel::Execute(self.commands[0].mutation()),
                )
            } else {
                (self.at(Stage::Done), ActionModel::Finish(OutcomeModel::NoChange))
            },
            (Stage::AwaitingConfirmation, EventModel::Declined) => (
                self.at(Stage::Aborted),
                ActionModel::Finish(OutcomeModel::Aborted),
            ),
            (Stage::Applying, EventModel::Succeeded) => if self.applied + 1 < self.commands.len() {
                (
                    RunModel { applied: self.applied + 1, ..self },
                    ActionModel::Execute(self.commands[self.applied as int + 1].mutation()),
                )
            } else {
                (
                    RunModel { stage: Stage::Done, applied: self.commands.len(), ..self },
                    ActionModel::Finish(OutcomeModel::Applied),
                )
            },
            (Stage::Applying, EventModel::Failed) => if self.applied < self.commands.len() {
                (
                    self.at(Stage::Failed),
                    ActionModel::Finish(
                        OutcomeModel::Failed(self.commands[self.applied as int].description()),
                    ),
                )
            } else {
                (self, ActionModel::Ignore)
            },
            _ => (self, ActionModel::Ignore),
        }
    }
}

impl ApplyChanges {
    /// A run that has not begun.
    pub fn new(dry_run: bool, force: bool) -> (run: Self)
        ensures
            run@ == RunModel::idle(dry_run, force),
    {
        let run = ApplyChanges {
            dry_run,
            force,
            stage: Stage::Idle,
            commands: Vec::new(),
            applied: 0,
        };
        assert(run.commands.deep_view() =~= Seq::empty());
        run
    }

    /// Where the run stands.
    pub fn stage(&self) -> (stage: Stage)
        ensures
            stage == self@.stage,
    {
        self.stage
    }

    /// Whether the run is over.
    pub fn is_over(&self) -> (over: bool)
        ensures
            over == (self@.stage == Stage::Done || self@.stage == Stage::Aborted || self@.stage
                == Stage::Failed),
    {
        match self.stage {
            Stage::Done => true,
            Stage::Aborted => true,
            Stage::Failed => true,
            _ => false,
        }
    }

    /// What the commands of the batch say of themselves, in the order of the batch.
    /// Nothing is changed by describing, so the changes can be shown before any of
    /// them is applied.
    pub fn descriptions(&self) -> (descriptions: Vec<CommandDescription>)
        ensures
            descriptions.deep_view() == self@.commands.map_values(
                |command: CommandModel| command.description(),
            ),
    {
        let mut descriptions: Vec<CommandDescription> = Vec::new();
        let mut i: usize = 0;
        while i < self.commands.len()
            invariant
                i <= self.commands@.len(),
                descriptions@.len() == i,
                forall|j: int|
                    0 <= j < i ==> descriptions@[j]@ == self.commands@[j]@.description(),
            decreases self.commands@.len() - i,
        {
            descriptions.push(self.commands[i].describe());
            i += 1;
        }
        assert(descriptions.deep_view() =~= self@.commands.map_values(
            |command: CommandModel| command.description(),
        ));
        descriptions
    }

    /// Takes what happened outside, and tells what is to be done next: computes
    /// [`RunModel::step`].
    pub fn step(&mut self, event: Event) -> (action: Action)
        ensures
            (final(self)@, action@) == old(self)@.step(event@),
    {
        match (self.stage, event) {
            (Stage::Idle, Event::Started) => {
                self.stage = Stage::Diffing;
                Action::Fetch
            },
            (Stage::Diffing, Event::Fetched(live, wanted)) => {
                let calculator = DiffCalculator::new(DiffCommandFactory {  });
                match calculator.create_commands(live, wanted) {
                    Ok(commands) => {
                        self.commands = commands;
                        self.applied = 0;
                        if self.commands.len() == 0 {
                            self.stage = Stage::Done;
                            Action::Finish(Outcome::NoChange)
                        } else if self.dry_run {
                            self.stage = Stage::Done;
                            Action::Finish(Outcome::DryRun)
                        } else if self.force {
                            self.stage = Stage::Applying;
                            Action::Execute(self.commands[0].mutation())
                        } else {
                            self.stage = Stage::AwaitingConfirmation;
                            Action::Confirm
                        }
                    },
                    Err(error) => {
                        self.stage = Stage::Failed;
                        Action::Finish(Outcome::Invalid(error))
                    },
                }
            },
            (Stage::AwaitingConfirmation, Event::Confirmed) => {
                if self.commands.len() > 0 {
                    self.stage = Stage::Applying;
                    self.applied = 0;
                    Action::Execute(self.commands[0].mutation())
                } else {
                    self.stage = Stage::Done;
                    Action::Finish(Outcome::NoChange)
                }
            },
            (Stage::AwaitingConfirmation, Event::Declined) => {
                self.stage = Stage::Aborted;
                Action::Finish(Outcome::Aborted)
            },
            (Stage::Applying, Event::Succeeded) => {
                if self.applied < self.commands.len() && self.applied + 1 < self.commands.len() {
                    self.applied = self.applied + 1;
                    Action::Execute(self.commands[self.applied].mutation())
                } else {
                    self.stage = Stage::Done;
                    self.applied = self.commands.len();
                    Action::Finish(Outcome::Applied)
                }
            },
            (Stage::Applying, Event::Failed) => {
                if self.applied < self.commands.len() {
                    self.stage = Stage::Failed;
                    Action::Finish(Outcome::Failed(self.commands[self.applied].describe()))
                } else {
                    Action::Ignore
                }
            },
            _ => Action::Ignore,
        }
    }
}

} // verus!
