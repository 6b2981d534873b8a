//! What a listing's requests mean to the control program, and what the
//! control program's answers mean to the listing.
//!
//! The names of the services are asked for with one invocation; the report is
//! read if the invocation succeeded. The state of a service is asked for with
//! three: whether it is active and whether it is enabled are told by whether
//! the invocation succeeded, the memory in use by what the third one prints.

use vstd::prelude::*;
use crate::command::{invocation, CommandInvocation, CommandView, OperatingMode};
use crate::listing::{Answer, AnswerView, Request, RequestView, ServiceState};
use crate::report::{memory_in, memory_usage, names_in, service_names};

verus! {

/// What a run of an invocation gives, as contracts see it.
pub struct OutcomeView {
    pub success: bool,
    pub output: Seq<char>,
}

/// What a run of an invocation gives.
#[derive(Clone, Debug, PartialEq, Eq)]
pub struct Outcome {
    /// Whether the program ended with the exit status of success.
    pub success: bool,
    /// What the program printed.
    pub output: String,
}

impl View for Outcome {
    type V = OutcomeView;

    open spec fn view(&self) -> OutcomeView {
        OutcomeView { success: self.success, output: self.output@ }
    }
}

impl DeepView for Outcome {
    type V = OutcomeView;

    open spec fn deep_view(&self) -> OutcomeView {
        self@
    }
}

/// The scope in which a request is asked; a request for nothing has none,
/// and the scope of the host stands for it.
pub open spec fn scope_of(request: RequestView) -> OperatingMode {
    match request {
        RequestView::Services { mode } => mode,
        RequestView::State { mode, name } => mode,
        RequestView::Nothing => OperatingMode::System,
    }
}

/// The arguments, behind the scope arguments, of the invocations that ask
/// what `request` wants to know, in the order in which they are run.
pub open spec fn query_arguments(request: RequestView) -> Seq<Seq<Seq<char>>> {
    match request {
        RequestView::Services { mode } => seq![
            seq!["list-unit-files"@, "--type=service"@, "--no-legend"@, "--plain"@],
        ],
        RequestView::State { mode, name } => seq![
            seq!["is-active"@, "--quiet"@, name],
            seq!["is-enabled"@, "--quiet"@, name],
            seq!["show"@, "-p"@, "MemoryCurrent"@, "--value"@, name],
        ],
        RequestView::Nothing => seq![],
    }
}

/// The invocations that ask what `request` wants to know.
pub open spec fn queries(request: RequestView) -> Seq<CommandView> {
    Seq::new(
        query_arguments(request).len(),
        |i: int| invocation(scope_of(request), query_arguments(request)[i]),
    )
}

/// The answer that the outcomes of the invocations of `request` amount to.
/// An outcome is `None` where the program could not be run. The names are
/// answered if the one invocation ran and succeeded; the state is answered if
/// all three invocations ran. Everything else is a failure.
pub open spec fn answer_of(request: RequestView, outcomes: Seq<Option<OutcomeView>>) -> AnswerView {
    match request {
        RequestView::Services { mode } => if outcomes.len() == 1 && outcomes[0] is Some
            && outcomes[0]->0.success {
            AnswerView::Services(names_in(outcomes[0]->0.output))
        } else {
            AnswerView::Failure
        },
        RequestView::State { mode, name } => if outcomes.len() == 3 && outcomes[0] is Some
            && outcomes[1] is Some && outcomes[2] is Some {
            AnswerView::State(
                ServiceState {
                    is_active: outcomes[0]->0.success,
                    is_enabled: outcomes[1]->0.success,
                    memory: memory_in(outcomes[2]->0.output),
                },
            )
        } else {
            AnswerView::Failure
        },
        RequestView::Nothing => AnswerView::Failure,
    }
}

/// The invocations to run for `request`, in order.
pub fn queries_of(request: &Request) -> (commands: Vec<CommandInvocation>)
    ensures
        commands.deep_view() == queries(request@),
{
    let mut commands: Vec<CommandInvocation> = Vec::new();
    match request {
        Request::Services { mode } => {
            let args: Vec<&str> = vec!["list-unit-files", "--type=service", "--no-legend", "--plain"];
            assert(args.deep_view() =~= query_arguments(request@)[0]);
            commands.push(CommandInvocation::systemctl(*mode, args));
        },
        Request::State { mode, name } => {
            let active: Vec<&str> = vec!["is-active", "--quiet", name.as_str()];
            let enabled: Vec<&str> = vec!["is-enabled", "--quiet", name.as_str()];
            let memory: Vec<&str> = vec!["show", "-p", "MemoryCurrent", "--value", name.as_str()];
            assert(active.deep_view() =~= query_arguments(request@)[0]);
            assert(enabled.deep_view() =~= query_arguments(request@)[1]);
            assert(memory.deep_view() =~= query_arguments(request@)[2]);
            commands.push(CommandInvocation::systemctl(*mode, active));
            commands.push(CommandInvocation::systemctl(*mode, enabled));
            commands.push(CommandInvocation::systemctl(*mode, memory));
        },
        Request::Nothing => {},
    }
    commands
}

/// The answer to `request` that the outcomes of its invocations amount to.
pub fn read_answer(request: &Request, outcomes: &Vec<Option<Outcome>>) -> (answer: Answer)
    ensures
        answer@ == answer_of(request@, outcomes.deep_view()),
{
    match request {
        Request::Services { mode } => {
            if outcomes.len() != 1 {
                return Answer::Failure;
            }
            match &outcomes[0] {
                Some(outcome) => if outcome.success {
                    Answer::Services(service_names(outcome.output.as_str()))
                } else {
                    Answer::Failure
                },
                None => Answer::Failure,
            }
        },
        Request::State { mode, name } => {
            if outcomes.len() != 3 {
                return Answer::Failure;
            }
            match (&outcomes[0], &outcomes[1], &outcomes[2]) {
                (Some(active), Some(enabled), Some(memory)) => Answer::State(
                    ServiceState {
                        is_active: active.success,
                        is_enabled: enabled.success,
                        memory: memory_usage(memory.output.as_str()),
                    },
                ),
                _ => Answer::Failure,
            }
        },
        Request::Nothing => Answer::Failure,
    }
}

} // verus!
