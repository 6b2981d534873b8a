//! Listing the services that the service manager knows.
//!
//! A listing asks the service manager twice over: first for the names of all
//! services in the adapter's scope, then, name by name, for the state of each.
//! The asking itself is left to the caller. A `Listing` says what is to be
//! asked next, takes the answer, and ends with one record for each name, in the
//! order in which the names were reported, or with a failure and no record at
//! all.

use vstd::prelude::*;
use crate::command::OperatingMode;

verus! {

/// What the service manager reports of one service.
#[derive(Clone, Copy, Debug, PartialEq, Eq, Structural)]
pub struct ServiceState {
    pub is_active: bool,
    pub is_enabled: bool,
    /// Memory in use, in bytes.
    pub memory: u64,
}

/// What a `ServiceRecord` stands for in contracts.
pub struct ServiceRecordView {
    pub name: Seq<char>,
    pub is_active: bool,
    pub is_enabled: bool,
    pub memory: u64,
}

/// One service as a listing shows it.
#[derive(Clone, Debug, PartialEq, Eq)]
pub struct ServiceRecord {
    pub name: String,
    pub is_active: bool,
    pub is_enabled: bool,
    /// Memory in use, in bytes.
    pub memory: u64,
}

impl View for ServiceRecord {
    type V = ServiceRecordView;

    open spec fn view(&self) -> ServiceRecordView {
        ServiceRecordView {
            name: self.name@,
            is_active: self.is_active,
            is_enabled: self.is_enabled,
            memory: self.memory,
        }
    }
}

impl DeepView for ServiceRecord {
    type V = ServiceRecordView;

    open spec fn deep_view(&self) -> ServiceRecordView {
        self@
    }
}

/// What the caller is to ask of the service manager.
pub enum RequestView {
    Services { mode: OperatingMode },
    State { mode: OperatingMode, name: Seq<char> },
    Nothing,
}

/// What the caller is to ask of the service manager.
#[derive(Clone, Debug, PartialEq, Eq)]
pub enum Request {
    /// The names of all services in the scope of `mode`.
    Services { mode: OperatingMode },
    /// The state of the service `name` in the scope of `mode`.
    State { mode: OperatingMode, name: String },
    /// Nothing: the listing has come to its end.
    Nothing,
}

impl View for Request {
    type V = RequestView;

    open spec fn view(&self) -> RequestView {
        match self {
            Request::Services { mode } => RequestView::Services { mode: *mode },
            Request::State { mode, name } => RequestView::State { mode: *mode, name: name@ },
            Request::Nothing => RequestView::Nothing,
        }
    }
}

/// What the service manager answered.
pub enum AnswerView {
    Services(Seq<Seq<char>>),
    State(ServiceState),
    Failure,
}

/// What the service manager answered.
#[derive(Clone, Debug, PartialEq, Eq)]
pub enum Answer {
    /// The names of the services, in the order of the report.
    Services(Vec<String>),
    /// The state of the service that was asked about.
    State(ServiceState),
    /// No answer: the query failed.
    Failure,
}

impl View for Answer {
    type V = AnswerView;

    open spec fn view(&self) -> AnswerView {
        match self {
            Answer::Services(names) => AnswerView::Services(names.deep_view()),
            Answer::State(state) => AnswerView::State(*state),
            Answer::Failure => AnswerView::Failure,
        }
    }
}

/// How far a listing has come.
pub enum Progress {
    /// The names have not been reported yet.
    Asking,
    /// The names are known, and the state of the first `records.len()` of
    /// them.
    Resolving { names: Seq<Seq<char>>, records: Seq<ServiceRecordView> },
    /// Every service has its record.
    Done { records: Seq<ServiceRecordView> },
    /// A query failed, or an answer came that was not asked for.
    Failed,
}

/// What a `Listing` stands for in contracts.
pub struct ListingView {
    pub mode: OperatingMode,
    pub progress: Progress,
}

/// The record of the service `name` whose state is `state`.
pub open spec fn record_of(name: Seq<char>, state: ServiceState) -> ServiceRecordView {
    ServiceRecordView {
        name,
        is_active: state.is_active,
        is_enabled: state.is_enabled,
        memory: state.memory,
    }
}

/// The listing that has asked nothing yet.
pub open spec fn started(mode: OperatingMode) -> ListingView {
    ListingView { mode, progress: Progress::Asking }
}

/// What a listing waits for.
pub open spec fn request_of(listing: ListingView) -> RequestView {
    match listing.progress {
        Progress::Asking => RequestView::Services { mode: listing.mode },
        Progress::Resolving { names, records } => if records.len() < names.len() {
            RequestView::State { mode: listing.mode, name: names[records.len() as int] }
        } else {
            RequestView::Nothing
        },
        Progress::Done { records } => RequestView::Nothing,
        Progress::Failed => RequestView::Nothing,
    }
}

/// How far the names alone bring a listing: to its end if there is none, else
/// to the first of them.
pub open spec fn after_names(names: Seq<Seq<char>>) -> Progress {
    if names.len() == 0 {
        Progress::Done { records: seq![] }
    } else {
        Progress::Resolving { names, records: seq![] }
    }
}

/// How far one more record brings a listing: to its end if every name has its
/// record, else to the next name.
pub open spec fn after_record(names: Seq<Seq<char>>, records: Seq<ServiceRecordView>) -> Progress {
    if records.len() == names.len() {
        Progress::Done { records }
    } else {
        Progress::Resolving { names, records }
    }
}

/// The listing after an answer. The answer that was asked for brings it
/// forward; a failure, or an answer that was not asked for, makes it fail and
/// lose what it held. A listing that has come to its end stays as it is.
pub open spec fn answered(listing: ListingView, answer: AnswerView) -> ListingView {
    let progress = match listing.progress {
        Progress::Asking => match answer {
            AnswerView::Services(names) => after_names(names),
            _ => Progress::Failed,
        },
        Progress::Resolving { names, records } => match answer {
            AnswerView::State(state) => if records.len() < names.len() {
                after_record(names, records.push(record_of(names[records.len() as int], state)))
            } else {
                Progress::Failed
            },
            _ => Progress::Failed,
        },
        Progress::Done { records } => Progress::Done { records },
        Progress::Failed => Progress::Failed,
    };
    ListingView { mode: listing.mode, progress }
}

/// The listing after a run of answers, taken in order.
pub open spec fn answered_all(listing: ListingView, answers: Seq<AnswerView>) -> ListingView
    decreases answers.len(),
{
    if answers.len() == 0 {
        listing
    } else {
        answered_all(answered(listing, answers.first()), answers.drop_first())
    }
}

/// Why a listing has no records to give.
#[derive(Clone, Copy, Debug, PartialEq, Eq, Structural)]
pub enum ListingError {
    /// The listing still waits for an answer.
    Unfinished,
    /// A query failed, or an answer came that was not asked for.
    QueryFailed,
}

/// What a listing that is asked for its records gives.
pub open spec fn outcome(listing: ListingView) -> Result<Seq<ServiceRecordView>, ListingError> {
    match listing.progress {
        Progress::Done { records } => Ok(records),
        Progress::Failed => Err(ListingError::QueryFailed),
        _ => Err(ListingError::Unfinished),
    }
}

#[derive(Clone, Copy, Debug, PartialEq, Eq, Structural)]
enum Stage {
    Asking,
    Resolving,
    Done,
    Failed,
}

/// A listing under way.
#[derive(Debug)]
pub struct Listing {
    mode: OperatingMode,
    stage: Stage,
    names: Vec<String>,
    records: Vec<ServiceRecord>,
}

impl View for Listing {
    type V = ListingView;

    closed spec fn view(&self) -> ListingView {
        ListingView {
            mode: self.mode,
            progress: match self.stage {
                Stage::Asking => Progress::Asking,
                Stage::Resolving => Progress::Resolving {
                    names: self.names.deep_view(),
                    records: self.records.deep_view(),
                },
                Stage::Done => Progress::Done { records: self.records.deep_view() },
                Stage::Failed => Progress::Failed,
            },
        }
    }
}

impl Listing {
    /// The listing, in the scope of `mode`, that has asked nothing yet.
    pub fn begin(mode: OperatingMode) -> (listing: Listing)
        ensures
            listing@ == started(mode),
    {
        Listing { mode, stage: Stage::Asking, names: Vec::new(), records: Vec::new() }
    }

    /// What is to be asked of the service manager now.
    pub fn request(&self) -> (request: Request)
        ensures
            request@ == request_of(self@),
    {
        match self.stage {
            Stage::Asking => Request::Services { mode: self.mode },
            Stage::Resolving => {
                let at: usize = self.records.len();
                if at < self.names.len() {
                    Request::State { mode: self.mode, name: self.names[at].clone() }
                } else {
                    Request::Nothing
                }
            },
            Stage::Done => Request::Nothing,
            Stage::Failed => Request::Nothing,
        }
    }

    /// Takes the answer of the service manager.
    pub fn answer(self, answer: Answer) -> (next: Listing)
        ensures
            next@ == answered(self@, answer@),
    {
        let mode = self.mode;
        match self.stage {
            Stage::Asking => match answer {
                Answer::Services(names) => {
                    let stage = if names.len() == 0 {
                        Stage::Done
                    } else {
                        Stage::Resolving
                    };
                    let next = Listing { mode, stage, names, records: Vec::new() };
                    assert(next.records.deep_view() =~= Seq::empty());
                    next
                },
                _ => Listing { mode, stage: Stage::Failed, names: Vec::new(), records: Vec::new() },
            },
            Stage::Resolving => match answer {
                Answer::State(state) => {
                    let names = self.names;
                    let mut records = self.records;
                    let at: usize = records.len();
                    if at < names.len() {
                        let ghost before = records.deep_view();
                        records.push(
                            ServiceRecord {
                                name: names[at].clone(),
                                is_active: state.is_active,
                                is_enabled: state.is_enabled,
                                memory: state.memory,
                            },
                        );
                        assert(records.deep_view() =~= before.push(
                            record_of(names.deep_view()[at as int], state),
                        ));
                        let stage = if records.len() == names.len() {
                            Stage::Done
                        } else {
                            Stage::Resolving
                        };
                        Listing { mode, stage, names, records }
                    } else {
                        Listing {
                            mode,
                            stage: Stage::Failed,
                            names: Vec::new(),
                            records: Vec::new(),
                        }
                    }
                },
                _ => Listing { mode, stage: Stage::Failed, names: Vec::new(), records: Vec::new() },
            },
            Stage::Done => self,
            Stage::Failed => self,
        }
    }

    /// The records of a listing that has come to its end; no record, not even a
    /// part of them, of one that failed or still waits for an answer.
    pub fn finish(self) -> (records: Result<Vec<ServiceRecord>, ListingError>)
        ensures
            records is Ok <==> outcome(self@) is Ok,
            records matches Ok(found) ==> outcome(self@) == Ok::<
                Seq<ServiceRecordView>,
                ListingError,
            >(found.deep_view()),
            records matches Err(error) ==> outcome(self@) == Err::<
                Seq<ServiceRecordView>,
                ListingError,
            >(error),
    {
        match self.stage {
            Stage::Done => Ok(self.records),
            Stage::Failed => Err(ListingError::QueryFailed),
            _ => Err(ListingError::Unfinished),
        }
    }
}

/// The records of the services called `names` whose states are `states`, one
/// for each name, in the order of the names.
pub open spec fn reported(names: Seq<Seq<char>>, states: Seq<ServiceState>) -> Seq<
    ServiceRecordView,
> {
    Seq::new(names.len(), |i: int| record_of(names[i], states[i]))
}

/// The answers that report `states`, one after the other.
pub open spec fn state_answers(states: Seq<ServiceState>) -> Seq<AnswerView> {
    Seq::new(states.len(), |i: int| AnswerView::State(states[i]))
}

/// Answers taken in two runs are answers taken in one.
pub proof fn lemma_answered_in_turn(
    listing: ListingView,
    first: Seq<AnswerView>,
    second: Seq<AnswerView>,
)
    ensures
        answered_all(listing, first + second) == answered_all(
            answered_all(listing, first),
            second,
        ),
    decreases first.len(),
{
    if first.len() > 0 {
        assert((first + second).drop_first() =~= first.drop_first() + second);
        lemma_answered_in_turn(answered(listing, first.first()), first.drop_first(), second);
    }
}

/// A listing that knows the names and the first `known` states comes to its
/// end when it is told the other states.
proof fn lemma_resolves(
    mode: OperatingMode,
    names: Seq<Seq<char>>,
    states: Seq<ServiceState>,
    known: int,
)
    requires
        names.len() == states.len(),
        0 <= known < names.len(),
    ensures
        answered_all(
            ListingView {
                mode,
                progress: Progress::Resolving {
                    names,
                    records: reported(names, states).take(known),
                },
            },
            state_answers(states).skip(known),
        ) == (ListingView { mode, progress: Progress::Done { records: reported(names, states) } }),
    decreases names.len() - known,
{
    let records = reported(names, states).take(known);
    let listing = ListingView { mode, progress: Progress::Resolving { names, records } };
    let answers = state_answers(states).skip(known);
    let next = answered(listing, answers.first());
    assert(records.push(record_of(names[known], states[known])) =~= reported(names, states).take(
        known + 1,
    ));
    assert(answers.drop_first() =~= state_answers(states).skip(known + 1));
    if known + 1 == names.len() {
        assert(reported(names, states).take(known + 1) =~= reported(names, states));
        assert(answered_all(next, answers.drop_first()) == next);
    } else {
        lemma_resolves(mode, names, states, known + 1);
    }
}

/// A listing that is told the names of the services and then the state of
/// each, in that order, ends with one record for each name: the name with its
/// state, in the order in which the names were reported.
pub proof fn lemma_listing_completes(
    mode: OperatingMode,
    names: Seq<Seq<char>>,
    states: Seq<ServiceState>,
)
    requires
        names.len() == states.len(),
    ensures
        outcome(
            answered_all(started(mode), seq![AnswerView::Services(names)] + state_answers(states)),
        ) == Ok::<Seq<ServiceRecordView>, ListingError>(reported(names, states)),
{
    let answers = seq![AnswerView::Services(names)] + state_answers(states);
    let next = answered(started(mode), answers.first());
    assert(answers.drop_first() =~= state_answers(states));
    if names.len() == 0 {
        assert(reported(names, states) =~= Seq::empty());
        assert(answered_all(next, state_answers(states)) == next);
    } else {
        assert(reported(names, states).take(0) =~= Seq::empty());
        assert(state_answers(states).skip(0) =~= state_answers(states));
        lemma_resolves(mode, names, states, 0);
    }
}

/// A listing that has failed stays failed.
pub proof fn lemma_failed_stays(listing: ListingView, answers: Seq<AnswerView>)
    requires
        listing.progress is Failed,
    ensures
        answered_all(listing, answers).progress is Failed,
    decreases answers.len(),
{
    if answers.len() > 0 {
        lemma_failed_stays(answered(listing, answers.first()), answers.drop_first());
    }
}

/// A failure that reaches a listing before its end leaves it without records,
/// whatever was answered before and whatever is answered afterwards.
pub proof fn lemma_failure_leaves_nothing(
    listing: ListingView,
    before: Seq<AnswerView>,
    after: Seq<AnswerView>,
)
    requires
        !(answered_all(listing, before).progress is Done),
    ensures
        outcome(answered_all(listing, before + seq![AnswerView::Failure] + after)) == Err::<
            Seq<ServiceRecordView>,
            ListingError,
        >(ListingError::QueryFailed),
{
    let reached = answered_all(listing, before);
    let failed = answered(reached, AnswerView::Failure);
    lemma_answered_in_turn(listing, before, seq![AnswerView::Failure] + after);
    assert(before + seq![AnswerView::Failure] + after =~= before + (seq![AnswerView::Failure]
        + after));
    assert((seq![AnswerView::Failure] + after).drop_first() =~= after);
    lemma_failed_stays(failed, after);
}

/// The records that a listing ends with are decided by the answers alone: two
/// listings that are given the same answers, in whatever scope, end alike.
pub proof fn lemma_same_answers_same_records(
    first: OperatingMode,
    second: OperatingMode,
    answers: Seq<AnswerView>,
)
    ensures
        outcome(answered_all(started(first), answers)) == outcome(
            answered_all(started(second), answers),
        ),
{
    lemma_progress_apart_from_mode(started(first), started(second), answers);
}

/// Two listings that have come equally far come equally far with the same
/// answers.
proof fn lemma_progress_apart_from_mode(
    first: ListingView,
    second: ListingView,
    answers: Seq<AnswerView>,
)
    requires
        first.progress == second.progress,
    ensures
        answered_all(first, answers).progress == answered_all(second, answers).progress,
    decreases answers.len(),
{
    if answers.len() > 0 {
        lemma_progress_apart_from_mode(
            answered(first, answers.first()),
            answered(second, answers.first()),
            answers.drop_first(),
        );
    }
}

/// The services as they are reported: each name with its state, in the order
/// of the names.
pub open spec fn paired(names: Seq<Seq<char>>, states: Seq<ServiceState>) -> Seq<
    (Seq<char>, ServiceState),
> {
    Seq::new(names.len(), |i: int| (names[i], states[i]))
}

/// Two sequences that hold the same items equally often still do so after
/// every item was changed in the same way.
proof fn lemma_mapped_alike<A, B>(first: Seq<A>, second: Seq<A>, change: spec_fn(A) -> B)
    requires
        first.to_multiset() == second.to_multiset(),
    ensures
        first.map_values(change).to_multiset() == second.map_values(change).to_multiset(),
    decreases first.len(),
{
    let first_changed = first.map_values(change);
    let second_changed = second.map_values(change);
    first.to_multiset_ensures();
    second.to_multiset_ensures();
    if first.len() == 0 {
        assert(first_changed =~= second_changed);
    } else {
        let item = first.last();
        let shorter = first.drop_last();
        assert(first =~= shorter.push(item));
        shorter.to_multiset_ensures();
        assert(first.to_multiset().count(item) > 0);
        let at = choose|at: int| 0 <= at < second.len() && second[at] == item;
        assert(second.remove(at).to_multiset() =~= shorter.to_multiset());
        lemma_mapped_alike(shorter, second.remove(at), change);
        shorter.map_values(change).to_multiset_ensures();
        assert(first_changed =~= shorter.map_values(change).push(change(item)));
        second_changed.to_multiset_ensures();
        assert(second_changed.remove(at) =~= second.remove(at).map_values(change));
    }
}

/// The order in which the service manager reports the services decides the
/// order of the records and nothing else: reports that hold the same
/// services with the same states, in whatever order, give the same records,
/// each as often as the other.
pub proof fn lemma_records_whatever_the_order(
    names: Seq<Seq<char>>,
    states: Seq<ServiceState>,
    other_names: Seq<Seq<char>>,
    other_states: Seq<ServiceState>,
)
    requires
        names.len() == states.len(),
        other_names.len() == other_states.len(),
        paired(names, states).to_multiset() == paired(other_names, other_states).to_multiset(),
    ensures
        reported(names, states).to_multiset() == reported(other_names, other_states).to_multiset(),
{
    let record = |pair: (Seq<char>, ServiceState)| record_of(pair.0, pair.1);
    lemma_mapped_alike(paired(names, states), paired(other_names, other_states), record);
    assert(reported(names, states) =~= paired(names, states).map_values(record));
    assert(reported(other_names, other_states) =~= paired(other_names, other_states).map_values(
        record,
    ));
}

} // verus!
