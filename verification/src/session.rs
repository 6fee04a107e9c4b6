//! The order of work in a session: what to do next, given what was done.

use crate::execute::{execute_case, Execution};
use crate::prepare::{complete_case, prepare_case, BaselineAccount, CasePlan, PreparedCase};
use crate::protocol::{Mode, Request, ResultRecord, Workload, WorkloadCase};
use crate::record::{executed, failed, unsupported};
use crate::state::DatabaseState;
use crate::text::{quoted, same_text};
use vstd::prelude::*;

verus! {

/// What a session asks for next.
#[derive(Debug)]
pub enum Action {
    /// Write the record to the ledger.
    Write(ResultRecord),
    /// Put the accounts of the case at this index of the workload into a database.
    Load(usize),
    /// Execute the prepared case at this index of the workload.
    Execute(usize),
    /// Nothing is left to do.
    Finish,
}

/// What was done on an action.
#[derive(Debug)]
pub enum Event {
    /// The record was written.
    Written,
    /// The accounts are in a database with this state.
    Loaded(DatabaseState),
    /// The case was executed with this outcome.
    Executed(Execution),
}

/// What a session waits for.
#[derive(Debug)]
enum Stage {
    Writing,
    Loading(usize, CasePlan),
    Executing(usize),
    Done,
}

/// A session in progress: it takes the samples of its request in order, and prepares each case
/// once.
#[derive(Debug)]
pub struct Session {
    request: Request,
    workload: Result<Workload, String>,
    prepared: Vec<Option<Result<PreparedCase, String>>>,
    position: usize,
    stage: Stage,
}

/// What a session waits for: that a record is written, that the accounts of a planned case are
/// loaded, that a prepared case is executed, or nothing.
pub ghost enum StageModel {
    Writing,
    Loading(int, crate::prepare::PlanModel),
    Executing(int),
    Done,
}

/// A [`Session`] by its contents.
#[verifier::ext_equal]
pub ghost struct SessionModel {
    pub request: Request,
    /// The workload, or why there is none.
    pub workload: Result<Workload, String>,
    /// What came of preparing each case of the workload, where it was prepared.
    pub prepared: Seq<Option<Result<crate::prepare::PreparedModel, Seq<char>>>>,
    /// How many samples have been answered.
    pub position: int,
    pub stage: StageModel,
}

/// An [`Action`] by its contents.
pub ghost enum ActionModel {
    Write(crate::protocol::RecordModel),
    Load(int),
    Execute(int),
    Finish,
}

/// What came of preparing a case, by its contents.
pub open spec fn preparation_view(preparation: Option<Result<PreparedCase, String>>) -> Option<
    Result<crate::prepare::PreparedModel, Seq<char>>,
> {
    match preparation {
        Some(Ok(prepared)) => Some(Ok(prepared@)),
        Some(Err(message)) => Some(Err(message@)),
        None => None,
    }
}

/// What came of preparing cases, by its contents.
pub open spec fn preparations_view(
    preparations: Seq<Option<Result<PreparedCase, String>>>,
) -> Seq<Option<Result<crate::prepare::PreparedModel, Seq<char>>>> {
    preparations.map_values(
        |preparation: Option<Result<PreparedCase, String>>| preparation_view(preparation),
    )
}

impl View for Stage {
    type V = StageModel;

    closed spec fn view(&self) -> StageModel {
        match self {
            Stage::Writing => StageModel::Writing,
            Stage::Loading(index, plan) => StageModel::Loading(*index as int, plan@),
            Stage::Executing(index) => StageModel::Executing(*index as int),
            Stage::Done => StageModel::Done,
        }
    }
}

impl View for Session {
    type V = SessionModel;

    closed spec fn view(&self) -> SessionModel {
        SessionModel {
            request: self.request,
            workload: self.workload,
            prepared: preparations_view(self.prepared@),
            position: self.position as int,
            stage: self.stage@,
        }
    }
}

impl View for Action {
    type V = ActionModel;

    open spec fn view(&self) -> ActionModel {
        match self {
            Action::Write(record) => ActionModel::Write(record@),
            Action::Load(index) => ActionModel::Load(*index as int),
            Action::Execute(index) => ActionModel::Execute(*index as int),
            Action::Finish => ActionModel::Finish,
        }
    }
}

/// The last of the first `n` of `cases` that has the id `id`.
pub open spec fn case_index(cases: Seq<WorkloadCase>, n: int, id: Seq<char>) -> Option<int>
    decreases n,
{
    if n <= 0 {
        None
    } else if cases[n - 1].id@ == id {
        Some(n - 1)
    } else {
        case_index(cases, n - 1, id)
    }
}

/// Why a case is not supported.
pub open spec fn not_supported(case: WorkloadCase) -> Seq<char> {
    match case.reason {
        Some(reason) => reason@,
        None => "case is unsupported"@,
    }
}

/// A session asks for a record to be written.
pub open spec fn write(session: SessionModel, record: crate::protocol::RecordModel) -> (
    SessionModel,
    ActionModel,
) {
    (SessionModel { stage: StageModel::Writing, ..session }, ActionModel::Write(record))
}

/// What a session becomes when it turns to its next sample, and what it asks for then. A case that
/// is known and supported is planned, loaded, and then executed; what came of an earlier
/// preparation is used again.
#[verifier::opaque]
pub open spec fn turn(session: SessionModel) -> (SessionModel, ActionModel) {
    let request = session.request;
    let sample = request.samples@[session.position];
    if session.position >= request.samples@.len() {
        (SessionModel { stage: StageModel::Done, ..session }, ActionModel::Finish)
    } else {
        match session.workload {
            Err(message) => write(
                session,
                crate::record::failed_record(request, sample, "workload"@, message@),
            ),
            Ok(workload) => match case_index(
                workload.cases@,
                workload.cases@.len() as int,
                sample.case_id@,
            ) {
                None => write(
                    session,
                    crate::record::failed_record(
                        request,
                        sample,
                        "workload"@,
                        "sample references unknown workload case "@ + crate::text::debug_text(
                            sample.case_id@,
                        ),
                    ),
                ),
                Some(index) => if workload.cases@[index].status@ == "unsupported"@ {
                    write(
                        session,
                        crate::record::unsupported_record(
                            request,
                            sample,
                            not_supported(workload.cases@[index]),
                        ),
                    )
                } else {
                    match session.prepared[index] {
                        Some(Ok(_)) => (
                            SessionModel { stage: StageModel::Executing(index), ..session },
                            ActionModel::Execute(index),
                        ),
                        Some(Err(message)) => write(
                            session,
                            crate::record::failed_record(request, sample, "prepare"@, message),
                        ),
                        None => match crate::prepare::plan_of(workload.cases@[index]) {
                            Ok(plan) => (
                                SessionModel { stage: StageModel::Loading(index, plan), ..session },
                                ActionModel::Load(index),
                            ),
                            Err(message) => write(
                                SessionModel {
                                    prepared: session.prepared.update(index, Some(Err(message))),
                                    ..session
                                },
                                crate::record::failed_record(request, sample, "prepare"@, message),
                            ),
                        },
                    }
                },
            },
        }
    }
}

/// The record of a sample whose case was prepared and executed.
#[verifier::opaque]
pub open spec fn sample_record(
    request: Request,
    sample: crate::protocol::SampleSpec,
    prepared: crate::prepare::PreparedModel,
    execution: Execution,
) -> crate::protocol::RecordModel {
    crate::record::execution_record(
        request,
        sample,
        prepared,
        crate::execute::execution_outcome(prepared, request.mode == Mode::Diagnostic, execution),
    )
}

/// What a session becomes by an event and what it asks for then; `None` where the event is not what
/// the session waits for.
pub open spec fn transition(session: SessionModel, event: Event) -> Option<
    (SessionModel, ActionModel),
> {
    match (session.stage, event) {
        (StageModel::Writing, Event::Written) => Some(
            turn(
                SessionModel {
                    position: session.position + 1,
                    stage: StageModel::Done,
                    ..session
                },
            ),
        ),
        (StageModel::Loading(index, plan), Event::Loaded(database)) => {
            let prepared = crate::prepare::completed(
                session.workload->Ok_0.cases@[index],
                plan,
                database,
            );
            Some(
                (
                    SessionModel {
                        prepared: session.prepared.update(index, Some(Ok(prepared))),
                        stage: StageModel::Executing(index),
                        ..session
                    },
                    ActionModel::Execute(index),
                ),
            )
        },
        (StageModel::Executing(index), Event::Executed(execution)) => Some(
            write(
                session,
                sample_record(
                    session.request,
                    session.request.samples@[session.position],
                    session.prepared[index]->0->Ok_0,
                    execution,
                ),
            ),
        ),
        _ => None,
    }
}

/// `stepped` is what a session becomes by an event and what it asks for then; where the event is
/// not what it waits for, it stays as it was and asks for nothing.
pub open spec fn is_step(
    session: SessionModel,
    event: Event,
    stepped: (Session, Option<Action>),
) -> bool {
    match transition(session, event) {
        Some((next, action)) => {
            &&& stepped.0@ == next
            &&& stepped.1 is Some
            &&& stepped.1->0@ == action
        },
        None => stepped.0@ == session && stepped.1 is None,
    }
}

/// A session for a request before it turns to its first sample: no case is prepared.
pub open spec fn opened(request: Request, workload: Result<Workload, String>) -> SessionModel {
    SessionModel {
        request,
        workload,
        prepared: Seq::new(
            match workload {
                Ok(workload) => workload.cases@.len(),
                Err(_) => 0,
            },
            |i: int| None,
        ),
        position: 0,
        stage: StageModel::Done,
    }
}

proof fn lemma_case_index(cases: Seq<WorkloadCase>, n: int, id: Seq<char>)
    ensures
        case_index(cases, n, id) matches Some(index) ==> 0 <= index < n && cases[index].id@ == id,
    decreases n,
{
    if n > 0 {
        lemma_case_index(cases, n - 1, id);
    }
}

fn find_case(cases: &Vec<WorkloadCase>, id: &str) -> (index: Option<usize>)
    ensures
        match index {
            Some(index) => {
                &&& index < cases@.len()
                &&& case_index(cases@, cases@.len() as int, id@) == Some(index as int)
            },
            None => case_index(cases@, cases@.len() as int, id@) is None,
        },
{
    let mut n: usize = cases.len();
    while n > 0
        invariant
            n <= cases@.len(),
            case_index(cases@, cases@.len() as int, id@) == case_index(cases@, n as int, id@),
        decreases n,
    {
        if same_text(cases[n - 1].id.as_str(), id) {
            return Some(n - 1);
        }
        n -= 1;
    }
    None
}

/// What a session waits for fits its workload, its samples and what is prepared.
spec fn fits(
    request: Request,
    workload: Result<Workload, String>,
    prepared: Seq<Option<Result<PreparedCase, String>>>,
    position: usize,
    stage: Stage,
) -> bool {
    &&& position <= request.samples@.len()
    &&& workload matches Ok(workload) ==> prepared.len() == workload.cases@.len()
    &&& match stage {
        Stage::Writing => position < request.samples@.len(),
        Stage::Loading(index, _) => {
            &&& position < request.samples@.len()
            &&& workload is Ok
            &&& index < prepared.len()
        },
        Stage::Executing(index) => {
            &&& position < request.samples@.len()
            &&& index < prepared.len()
            &&& prepared[index as int] matches Some(Ok(_))
        },
        Stage::Done => true,
    }
}

impl Session {
    #[verifier::type_invariant]
    spec fn well_formed(self) -> bool {
        fits(self.request, self.workload, self.prepared@, self.position, self.stage)
    }

    /// A session for a request, with its workload or the reason why it has none, and what to do
    /// first.
    pub fn new(request: Request, workload: Result<Workload, String>) -> (started: (Session, Action))
        ensures
            (started.0@, started.1@) == turn(opened(request, workload)),
    {
        let count: usize = match &workload {
            Ok(workload) => workload.cases.len(),
            Err(_) => 0,
        };
        let mut prepared: Vec<Option<Result<PreparedCase, String>>> = Vec::new();
        let mut i: usize = 0;
        while i < count
            invariant
                i <= count,
                prepared@.len() == i,
                forall|j: int| 0 <= j < i ==> #[trigger] prepared@[j] is None,
            decreases count - i,
        {
            prepared.push(None);
            i += 1;
        }
        let session = Session { request, workload, prepared, position: 0, stage: Stage::Done };
        assert(session@ =~= opened(request, workload));
        session.turn_to_sample()
    }

    /// Turns to the next sample and says what to do for it.
    fn turn_to_sample(self) -> (turned: (Session, Action))
        ensures
            (turned.0@, turned.1@) == turn(self@),
    {
        proof {
            use_type_invariant(&self);
            reveal(turn);
        }
        let Session { request, workload, prepared, position, stage: _ } = self;
        if position >= request.samples.len() {
            let session = Session { request, workload, prepared, position, stage: Stage::Done };
            return (session, Action::Finish);
        }
        let sample = &request.samples[position];
        let cases = match &workload {
            Ok(workload) => &workload.cases,
            Err(message) => {
                let record = failed(&request, sample, "workload", message.clone());
                let stage = Stage::Writing;
                let session = Session { request, workload, prepared, position, stage };
                return (session, Action::Write(record));
            },
        };
        let index = match find_case(cases, sample.case_id.as_str()) {
            Some(index) => index,
            None => {
                let mut message = "sample references unknown workload case ".to_owned();
                message.append(quoted(sample.case_id.as_str()).as_str());
                let record = failed(&request, sample, "workload", message);
                let stage = Stage::Writing;
                let session = Session { request, workload, prepared, position, stage };
                return (session, Action::Write(record));
            },
        };
        let case = &cases[index];
        if same_text(case.status.as_str(), "unsupported") {
            let message = match &case.reason {
                Some(reason) => reason.clone(),
                None => "case is unsupported".to_owned(),
            };
            let record = unsupported(&request, sample, message);
            let session = Session { request, workload, prepared, position, stage: Stage::Writing };
            return (session, Action::Write(record));
        }
        assert(preparations_view(prepared@)[index as int] == preparation_view(
            prepared@[index as int],
        ));
        match &prepared[index] {
            Some(Ok(_)) => {
                let stage = Stage::Executing(index);
                let session = Session { request, workload, prepared, position, stage };
                (session, Action::Execute(index))
            },
            Some(Err(message)) => {
                let record = failed(&request, sample, "prepare", message.clone());
                let stage = Stage::Writing;
                let session = Session { request, workload, prepared, position, stage };
                (session, Action::Write(record))
            },
            None => match prepare_case(case) {
                Ok(plan) => {
                    let stage = Stage::Loading(index, plan);
                    let session = Session { request, workload, prepared, position, stage };
                    (session, Action::Load(index))
                },
                Err(message) => {
                    let record = failed(&request, sample, "prepare", message.clone());
                    let ghost before = prepared@;
                    let mut prepared = prepared;
                    prepared.set(index, Some(Err(message)));
                    assert(preparations_view(prepared@) =~= preparations_view(before).update(
                        index as int,
                        Some(Err(message@)),
                    ));
                    let stage = Stage::Writing;
                    let session = Session { request, workload, prepared, position, stage };
                    (session, Action::Write(record))
                },
            },
        }
    }

    /// The session takes note that its record was written.
    fn written(self) -> (stepped: (Session, Option<Action>))
        ensures
            is_step(self@, Event::Written, stepped),
    {
        proof {
            use_type_invariant(&self);
        }
        match &self.stage {
            Stage::Writing => {},
            _ => {
                return (self, None);
            },
        }
        let Session { request, workload, prepared, position, stage: _ } = self;
        let samples: usize = request.samples.len();
        assert(position < samples);
        let session = Session {
            request,
            workload,
            prepared,
            position: position + 1,
            stage: Stage::Done,
        };
        let (session, action) = session.turn_to_sample();
        (session, Some(action))
    }

    /// The session takes note that the accounts of a case are in a database.
    fn loaded(self, database: DatabaseState) -> (stepped: (Session, Option<Action>))
        ensures
            is_step(self@, Event::Loaded(database), stepped),
    {
        proof {
            use_type_invariant(&self);
        }
        let Session { request, workload, prepared, position, stage } = self;
        match (&workload, stage) {
            (Ok(known), Stage::Loading(index, plan)) => {
                let case = complete_case(&known.cases[index], plan, &database);
                let ghost before = prepared@;
                let ghost model = case@;
                let mut prepared = prepared;
                prepared.set(index, Some(Ok(case)));
                assert(preparations_view(prepared@) =~= preparations_view(before).update(
                    index as int,
                    Some(Ok(model)),
                ));
                let stage = Stage::Executing(index);
                let session = Session { request, workload, prepared, position, stage };
                (session, Some(Action::Execute(index)))
            },
            (_, stage) => (Session { request, workload, prepared, position, stage }, None),
        }
    }

    /// The session takes note of what came of executing a case.
    fn observed(self, execution: Execution) -> (stepped: (Session, Option<Action>))
        ensures
            is_step(self@, Event::Executed(execution), stepped),
    {
        proof {
            use_type_invariant(&self);
            reveal(sample_record);
        }
        let record = match self.case_to_execute() {
            Some(case) => {
                let outcome = execute_case(case, self.is_diagnostic(), execution);
                executed(&self.request, &self.request.samples[self.position], case, outcome)
            },
            None => {
                return (self, None);
            },
        };
        let Session { request, workload, prepared, position, stage: _ } = self;
        let session = Session { request, workload, prepared, position, stage: Stage::Writing };
        (session, Some(Action::Write(record)))
    }

    /// Takes note of what was done and says what to do next. An event that the session does not
    /// wait for leaves it as it was, and there is no action.
    pub fn step(self, event: Event) -> (stepped: (Session, Option<Action>))
        ensures
            is_step(self@, event, stepped),
    {
        match event {
            Event::Written => self.written(),
            Event::Loaded(database) => self.loaded(database),
            Event::Executed(execution) => self.observed(execution),
        }
    }

    /// Whether the session counts operations.
    pub fn is_diagnostic(&self) -> (diagnostic: bool)
        ensures
            diagnostic == (self@.request.mode == Mode::Diagnostic),
    {
        self.request.mode == Mode::Diagnostic
    }

    /// The accounts that the session waits to be loaded, in the order in which they go into the
    /// database.
    pub fn accounts_to_load(&self) -> (accounts: Option<&Vec<BaselineAccount>>)
        ensures
            match self@.stage {
                StageModel::Loading(_, plan) => {
                    &&& accounts is Some
                    &&& crate::prepare::baseline_view(accounts->0@) == plan.baseline
                },
                _ => accounts is None,
            },
    {
        match &self.stage {
            Stage::Loading(_, plan) => Some(&plan.baseline),
            _ => None,
        }
    }

    /// The case that the session waits to be executed.
    pub fn case_to_execute(&self) -> (case: Option<&PreparedCase>)
        ensures
            match self@.stage {
                StageModel::Executing(index) => {
                    &&& case is Some
                    &&& self@.prepared[index] == Some(
                        Ok::<crate::prepare::PreparedModel, Seq<char>>(case->0@),
                    )
                },
                _ => case is None,
            },
    {
        proof {
            use_type_invariant(self);
        }
        match &self.stage {
            Stage::Executing(index) => match &self.prepared[*index] {
                Some(Ok(case)) => Some(case),
                _ => None,
            },
            _ => None,
        }
    }
}

/// Where a session stands after some events, what it asks for, and which records were written.
pub ghost struct Progress {
    pub session: SessionModel,
    pub action: ActionModel,
    pub records: Seq<crate::protocol::RecordModel>,
}

/// The progress of a session by `events`, one after the other; `None` where one of them was not
/// what the session waited for.
pub open spec fn progress(
    request: Request,
    workload: Result<Workload, String>,
    events: Seq<Event>,
) -> Option<Progress>
    decreases events.len(),
{
    if events.len() == 0 {
        let (session, action) = turn(opened(request, workload));
        Some(Progress { session, action, records: Seq::empty() })
    } else {
        match progress(request, workload, events.drop_last()) {
            None => None,
            Some(before) => match transition(before.session, events.last()) {
                None => None,
                Some((session, action)) => Some(
                    Progress {
                        session,
                        action,
                        records: match (events.last(), before.action) {
                            (Event::Written, ActionModel::Write(record)) => before.records.push(
                                record,
                            ),
                            _ => before.records,
                        },
                    },
                ),
            },
        }
    }
}

/// The case that the sample at a position of a request is taken of: the one with the id that the
/// sample names, where the workload has one and it is supported.
pub open spec fn sample_case(
    request: Request,
    workload: Result<Workload, String>,
    position: int,
) -> Option<int> {
    match workload {
        Ok(workload) => match case_index(
            workload.cases@,
            workload.cases@.len() as int,
            request.samples@[position].case_id@,
        ) {
            Some(index) => if workload.cases@[index].status@ == "unsupported"@ {
                None
            } else {
                Some(index)
            },
            None => None,
        },
        Err(_) => None,
    }
}

/// The execution that was taken for the sample at a position, where there was one.
pub open spec fn execution_for(
    request: Request,
    workload: Result<Workload, String>,
    events: Seq<Event>,
    position: int,
) -> Option<Execution>
    decreases events.len(),
{
    if events.len() == 0 {
        None
    } else {
        let earlier = events.drop_last();
        match (events.last(), progress(request, workload, earlier)) {
            (Event::Executed(execution), Some(before)) => if before.session.position == position {
                Some(execution)
            } else {
                execution_for(request, workload, earlier, position)
            },
            _ => execution_for(request, workload, earlier, position),
        }
    }
}

/// The record that answers the sample at a position, given what is prepared and the execution that
/// was taken for the sample; `None` where its case is still to be prepared or executed.
#[verifier::opaque]
pub open spec fn answer(
    session: SessionModel,
    position: int,
    execution: Option<Execution>,
) -> Option<crate::protocol::RecordModel> {
    let request = session.request;
    let sample = request.samples@[position];
    match session.workload {
        Err(message) => Some(
            crate::record::failed_record(request, sample, "workload"@, message@),
        ),
        Ok(workload) => match case_index(
            workload.cases@,
            workload.cases@.len() as int,
            sample.case_id@,
        ) {
            None => Some(
                crate::record::failed_record(
                    request,
                    sample,
                    "workload"@,
                    "sample references unknown workload case "@ + crate::text::debug_text(
                        sample.case_id@,
                    ),
                ),
            ),
            Some(index) => if workload.cases@[index].status@ == "unsupported"@ {
                Some(
                    crate::record::unsupported_record(
                        request,
                        sample,
                        not_supported(workload.cases@[index]),
                    ),
                )
            } else {
                match (session.prepared[index], execution) {
                    (Some(Err(message)), _) => Some(
                        crate::record::failed_record(request, sample, "prepare"@, message),
                    ),
                    (Some(Ok(prepared)), Some(execution)) => Some(
                        sample_record(request, sample, prepared, execution),
                    ),
                    _ => None,
                }
            },
        },
    }
}

/// What came of preparing a case follows from the case: its plan with the hash of the case, or what
/// is wrong with it.
pub open spec fn follows_from(
    preparation: Option<Result<crate::prepare::PreparedModel, Seq<char>>>,
    case: WorkloadCase,
) -> bool {
    match preparation {
        Some(Ok(prepared)) => {
            &&& crate::prepare::plan_of(case) == Ok::<crate::prepare::PlanModel, Seq<char>>(
                prepared.plan,
            )
            &&& prepared.prepared_hash == crate::digest::json_hash(
                crate::prepare::identity_json(case),
            )
        },
        Some(Err(message)) => crate::prepare::plan_of(case) == Err::<
            crate::prepare::PlanModel,
            Seq<char>,
        >(message),
        None => true,
    }
}

/// What holds of a session between two samples.
spec fn is_settled(
    request: Request,
    workload: Result<Workload, String>,
    session: SessionModel,
) -> bool {
    &&& session.request == request
    &&& session.workload == workload
    &&& 0 <= session.position <= request.samples@.len()
    &&& session.prepared.len() == opened(request, workload).prepared.len()
    &&& forall|i: int|
        0 <= i < session.prepared.len() ==> follows_from(
            #[trigger] session.prepared[i],
            workload->Ok_0.cases@[i],
        )
}

/// A record answers the sample at a position of a request, and its parts agree.
spec fn is_answer(
    record: crate::protocol::RecordModel,
    request: Request,
    position: int,
) -> bool {
    &&& crate::record::answers(record, request, request.samples@[position])
    &&& crate::record::is_consistent(record)
}

/// What a session asks for is what it waits for.
spec fn is_asking(session: SessionModel, action: ActionModel) -> bool {
    let request = session.request;
    match session.stage {
        StageModel::Writing => {
            &&& session.position < request.samples@.len()
            &&& action matches ActionModel::Write(record) && is_answer(
                record,
                request,
                session.position,
            )
        },
        StageModel::Loading(index, plan) => {
            &&& session.position < request.samples@.len()
            &&& action == ActionModel::Load(index)
            &&& sample_case(request, session.workload, session.position) == Some(index)
            &&& 0 <= index < session.prepared.len()
            &&& session.prepared[index] is None
            &&& session.workload is Ok
            &&& crate::prepare::plan_of(session.workload->Ok_0.cases@[index]) == Ok::<
                crate::prepare::PlanModel,
                Seq<char>,
            >(plan)
        },
        StageModel::Executing(index) => {
            &&& session.position < request.samples@.len()
            &&& action == ActionModel::Execute(index)
            &&& sample_case(request, session.workload, session.position) == Some(index)
            &&& 0 <= index < session.prepared.len()
            &&& session.prepared[index] matches Some(Ok(_))
        },
        StageModel::Done => {
            &&& session.position == request.samples@.len()
            &&& action is Finish
        },
    }
}

proof fn lemma_turn(request: Request, workload: Result<Workload, String>, session: SessionModel)
    requires
        is_settled(request, workload, session),
    ensures
        is_settled(request, workload, turn(session).0),
        is_asking(turn(session).0, turn(session).1),
        turn(session).0.position == session.position,
        forall|i: int|
            0 <= i < session.prepared.len() && session.prepared[i] is Some ==> (
            #[trigger] turn(session).0.prepared[i]) == session.prepared[i],
        turn(session).1 matches ActionModel::Write(record) ==> forall|execution: Option<Execution>|
            #[trigger] answer(turn(session).0, session.position, execution) == Some(record),
{
    reveal(turn);
    reveal(answer);
    reveal_strlit("executed");
    reveal_strlit("failed");
    reveal_strlit("unsupported");
    assert("executed"@.len() == 8);
    assert("failed"@.len() == 6);
    assert("unsupported"@.len() == 11);
    if session.position < request.samples@.len() && workload is Ok {
        let cases = workload->Ok_0.cases@;
        lemma_case_index(
            cases,
            cases.len() as int,
            request.samples@[session.position].case_id@,
        );
    }
}

/// What holds of every progress: the session is settled and asks for what it waits for, and there
/// is a record for each answered sample, in order.
spec fn is_sound(request: Request, workload: Result<Workload, String>, now: Progress) -> bool {
    &&& is_settled(request, workload, now.session)
    &&& is_asking(now.session, now.action)
    &&& now.records.len() == now.session.position
    &&& forall|i: int|
        0 <= i < now.records.len() ==> is_answer(#[trigger] now.records[i], request, i)
}

/// A session has the request, the workload and all preparations that it had before.
spec fn keeps(before: SessionModel, after: SessionModel) -> bool {
    &&& after.request == before.request
    &&& after.workload == before.workload
    &&& after.prepared.len() == before.prepared.len()
    &&& forall|i: int|
        0 <= i < before.prepared.len() && before.prepared[i] is Some ==> (
        #[trigger] after.prepared[i]) == before.prepared[i]
}

/// The session that turns to its next sample once a record was written.
spec fn turning(session: SessionModel) -> SessionModel {
    SessionModel { position: session.position + 1, stage: StageModel::Done, ..session }
}

proof fn lemma_written(
    request: Request,
    workload: Result<Workload, String>,
    session: SessionModel,
    action: ActionModel,
)
    requires
        is_settled(request, workload, session),
        is_asking(session, action),
        session.stage is Writing,
    ensures
        is_settled(request, workload, turn(turning(session)).0),
        is_asking(turn(turning(session)).0, turn(turning(session)).1),
        turn(turning(session)).0.position == session.position + 1,
        keeps(session, turn(turning(session)).0),
        turn(turning(session)).1 matches ActionModel::Write(record) ==> forall|
            execution: Option<Execution>,
        | #[trigger]
            answer(turn(turning(session)).0, session.position + 1, execution) == Some(record),
{
    assert(is_settled(request, workload, turning(session)));
    lemma_turn(request, workload, turning(session));
}

proof fn lemma_loaded(
    request: Request,
    workload: Result<Workload, String>,
    session: SessionModel,
    action: ActionModel,
    database: DatabaseState,
)
    requires
        is_settled(request, workload, session),
        is_asking(session, action),
        session.stage is Loading,
    ensures
        ({
            let (next, asked) = transition(session, Event::Loaded(database))->0;
            &&& is_settled(request, workload, next)
            &&& is_asking(next, asked)
            &&& keeps(session, next)
            &&& next.position == session.position
            &&& asked is Execute
        }),
{
}

proof fn lemma_executed(
    request: Request,
    workload: Result<Workload, String>,
    session: SessionModel,
    action: ActionModel,
    execution: Execution,
)
    requires
        is_settled(request, workload, session),
        is_asking(session, action),
        session.stage is Executing,
    ensures
        ({
            let (next, asked) = transition(session, Event::Executed(execution))->0;
            &&& is_settled(request, workload, next)
            &&& is_asking(next, asked)
            &&& keeps(session, next)
            &&& next.position == session.position
            &&& asked matches ActionModel::Write(record) && answer(
                next,
                session.position,
                Some(execution),
            ) == Some(record)
        }),
{
    reveal(answer);
    reveal(sample_record);
    let prepared = session.prepared[session.stage->Executing_0]->0->Ok_0;
    crate::record::law_records_are_consistent(
        request,
        request.samples@[session.position],
        Seq::empty(),
        Seq::empty(),
        prepared,
        crate::execute::execution_outcome(prepared, request.mode == Mode::Diagnostic, execution),
    );
}

proof fn lemma_sound(request: Request, workload: Result<Workload, String>, events: Seq<Event>)
    requires
        progress(request, workload, events) is Some,
    ensures
        is_sound(request, workload, progress(request, workload, events)->0),
    decreases events.len(),
{
    if events.len() == 0 {
        lemma_turn(request, workload, opened(request, workload));
    } else {
        let before = progress(request, workload, events.drop_last())->0;
        lemma_sound(request, workload, events.drop_last());
        match events.last() {
            Event::Written => {
                lemma_written(request, workload, before.session, before.action);
            },
            Event::Loaded(database) => {
                lemma_loaded(request, workload, before.session, before.action, database);
            },
            Event::Executed(execution) => {
                lemma_executed(request, workload, before.session, before.action, execution);
            },
        }
    }
}

/// A session answers its samples in the order of the request, each with one record that names it:
/// at any time the records written are those of the samples so far, and a session that asks for
/// nothing more has answered them all.
pub proof fn law_one_record_per_sample(
    request: Request,
    workload: Result<Workload, String>,
    events: Seq<Event>,
)
    requires
        progress(request, workload, events) is Some,
    ensures
        ({
            let now = progress(request, workload, events)->0;
            &&& now.records.len() <= request.samples@.len()
            &&& now.action is Finish <==> now.records.len() == request.samples@.len()
            &&& forall|i: int|
                0 <= i < now.records.len() ==> crate::record::answers(
                    #[trigger] now.records[i],
                    request,
                    request.samples@[i],
                ) && crate::record::is_consistent(now.records[i])
        }),
{
    lemma_sound(request, workload, events);
    let now = progress(request, workload, events)->0;
    assert forall|i: int| 0 <= i < now.records.len() implies crate::record::answers(
        #[trigger] now.records[i],
        request,
        request.samples@[i],
    ) && crate::record::is_consistent(now.records[i]) by {
        assert(is_answer(now.records[i], request, i));
    }
}

/// What a session has of a case follows from the case: a case that is prepared has the plan and the
/// hash of the case of the workload, and one that cannot be prepared has what is wrong with it.
pub proof fn law_preparations_follow_from_cases(
    request: Request,
    workload: Workload,
    events: Seq<Event>,
    index: int,
)
    requires
        progress(request, Ok(workload), events) is Some,
        0 <= index < workload.cases@.len(),
    ensures
        progress(request, Ok(workload), events)->0.session.prepared.len() == workload.cases@.len(),
        follows_from(
            progress(request, Ok(workload), events)->0.session.prepared[index],
            workload.cases@[index],
        ),
{
    lemma_sound(request, Ok(workload), events);
}

/// What came of preparing a case is kept, and the case is not loaded again.
pub proof fn law_cases_are_prepared_once(
    request: Request,
    workload: Workload,
    events: Seq<Event>,
    n: int,
    index: int,
)
    requires
        progress(request, Ok(workload), events) is Some,
        0 <= n <= events.len(),
        0 <= index < workload.cases@.len(),
        progress(request, Ok(workload), events.take(n)) is Some,
        progress(request, Ok(workload), events.take(n))->0.session.prepared[index] is Some,
    ensures
        progress(request, Ok(workload), events)->0.session.prepared[index] == progress(
            request,
            Ok(workload),
            events.take(n),
        )->0.session.prepared[index],
        progress(request, Ok(workload), events)->0.action != ActionModel::Load(index),
    decreases events.len() - n,
{
    lemma_sound(request, Ok(workload), events);
    let now = progress(request, Ok(workload), events)->0;
    if n == events.len() {
        assert(events.take(n) =~= events);
    } else {
        let front = events.drop_last();
        assert(front.take(n) =~= events.take(n));
        law_cases_are_prepared_once(request, workload, front, n, index);
        let before = progress(request, Ok(workload), front)->0;
        lemma_sound(request, Ok(workload), front);
        if before.session.stage is Writing {
            lemma_written(request, Ok(workload), before.session, before.action);
        }
        assert(now.session.prepared[index] == before.session.prepared[index]);
    }
}

/// How far a session is from its end, in events.
pub open spec fn events_left(session: SessionModel) -> int {
    let samples = session.request.samples@.len() - session.position;
    match session.stage {
        StageModel::Writing => 3 * samples - 2,
        StageModel::Loading(_, _) => 3 * samples,
        StageModel::Executing(_) => 3 * samples - 1,
        StageModel::Done => 0,
    }
}

/// A session ends: each event brings it nearer to its end, so that it takes at most three events
/// for a sample.
pub proof fn law_sessions_end(
    request: Request,
    workload: Result<Workload, String>,
    events: Seq<Event>,
)
    requires
        progress(request, workload, events) is Some,
    ensures
        events_left(progress(request, workload, events)->0.session) >= 0,
        events.len() + events_left(progress(request, workload, events)->0.session) <= 3
            * request.samples@.len(),
    decreases events.len(),
{
    lemma_sound(request, workload, events);
    if events.len() > 0 {
        law_sessions_end(request, workload, events.drop_last());
        lemma_sound(request, workload, events.drop_last());
        let before = progress(request, workload, events.drop_last())->0;
        if before.session.stage is Writing {
            lemma_written(request, workload, before.session, before.action);
        }
    } else {
        lemma_turn(request, workload, opened(request, workload));
    }
}

/// A session waits for what it asks for: it takes the news that its record was written, and
/// whatever came of loading or executing a case that it asked for.
pub proof fn law_asked_events_are_taken(
    request: Request,
    workload: Result<Workload, String>,
    events: Seq<Event>,
)
    requires
        progress(request, workload, events) is Some,
    ensures
        ({
            let now = progress(request, workload, events)->0;
            match now.action {
                ActionModel::Write(_) => transition(now.session, Event::Written) is Some,
                ActionModel::Load(_) => forall|database: DatabaseState|
                    #[trigger] transition(now.session, Event::Loaded(database)) is Some,
                ActionModel::Execute(_) => forall|execution: Execution|
                    #[trigger] transition(now.session, Event::Executed(execution)) is Some,
                ActionModel::Finish => true,
            }
        }),
{
    lemma_sound(request, workload, events);
}

/// A session without a workload answers every sample with the reason, and asks for nothing else.
pub proof fn law_no_workload_fails_every_sample(
    request: Request,
    message: String,
    events: Seq<Event>,
)
    requires
        progress(request, Err(message), events) is Some,
    ensures
        ({
            let now = progress(request, Err(message), events)->0;
            &&& now.action is Write || now.action is Finish
            &&& forall|i: int|
                0 <= i < now.records.len() ==> #[trigger] now.records[i]
                    == crate::record::failed_record(
                    request,
                    request.samples@[i],
                    "workload"@,
                    message@,
                )
            &&& now.action matches ActionModel::Write(record) ==> record
                == crate::record::failed_record(
                request,
                request.samples@[now.records.len() as int],
                "workload"@,
                message@,
            )
        }),
    decreases events.len(),
{
    reveal(turn);
    lemma_sound(request, Err(message), events);
    if events.len() > 0 {
        law_no_workload_fails_every_sample(request, message, events.drop_last());
        lemma_sound(request, Err(message), events.drop_last());
    }
}

/// A sample passes exactly where its execution did what it should: no transaction was refused, the
/// gas that was used fits 64 bits, the receipts and the storage are those that the case expects,
/// and in a diagnostic session the target was counted.
pub proof fn law_passed_samples_did_what_they_should(
    request: Request,
    sample: crate::protocol::SampleSpec,
    prepared: crate::prepare::PreparedModel,
    execution: Execution,
)
    ensures
        sample_record(request, sample, prepared, execution).correctness_passed <==> {
            &&& execution.results matches Ok(results)
            &&& crate::execute::gas_used(results@) <= u64::MAX
            &&& crate::outcomes::outcome_problem(
                prepared.plan.expected,
                crate::execute::receipts_model(results@),
                execution.post,
            ) is None
            &&& request.mode == Mode::Diagnostic ==> {
                &&& execution.counts matches Some(counts)
                &&& counts.map().contains_key(prepared.plan.target_count_key)
            }
        },
{
    reveal(sample_record);
}

/// An answer stays what it is while further cases are prepared.
proof fn lemma_answer_stays(
    before: SessionModel,
    after: SessionModel,
    position: int,
    execution: Option<Execution>,
)
    requires
        keeps(before, after),
        before.workload matches Ok(workload) ==> before.prepared.len() == workload.cases@.len(),
        answer(before, position, execution) is Some,
    ensures
        answer(after, position, execution) == answer(before, position, execution),
{
    reveal(answer);
    if before.workload is Ok {
        let cases = before.workload->Ok_0.cases@;
        lemma_case_index(
            cases,
            cases.len() as int,
            before.request.samples@[position].case_id@,
        );
    }
}

/// Each record is the answer to its sample, and so is the record that is to be written next.
spec fn is_answered(
    request: Request,
    workload: Result<Workload, String>,
    events: Seq<Event>,
    now: Progress,
) -> bool {
    &&& forall|i: int|
        0 <= i < now.records.len() ==> answer(
            now.session,
            i,
            execution_for(request, workload, events, i),
        ) == Some(#[trigger] now.records[i])
    &&& now.action matches ActionModel::Write(record) ==> answer(
        now.session,
        now.session.position,
        execution_for(request, workload, events, now.session.position),
    ) == Some(record)
}

proof fn lemma_answered(request: Request, workload: Result<Workload, String>, events: Seq<Event>)
    requires
        progress(request, workload, events) is Some,
    ensures
        is_answered(request, workload, events, progress(request, workload, events)->0),
    decreases events.len(),
{
    let now = progress(request, workload, events)->0;
    if events.len() == 0 {
        lemma_turn(request, workload, opened(request, workload));
    } else {
        let earlier = events.drop_last();
        let before = progress(request, workload, earlier)->0;
        lemma_sound(request, workload, earlier);
        lemma_answered(request, workload, earlier);
        match events.last() {
            Event::Written => {
                lemma_written(request, workload, before.session, before.action);
            },
            Event::Loaded(database) => {
                lemma_loaded(request, workload, before.session, before.action, database);
            },
            Event::Executed(execution) => {
                lemma_executed(request, workload, before.session, before.action, execution);
            },
        }
        assert forall|i: int| 0 <= i < now.records.len() implies answer(
            now.session,
            i,
            execution_for(request, workload, events, i),
        ) == Some(#[trigger] now.records[i]) by {
            if i < before.records.len() {
                assert(now.records[i] == before.records[i]);
            }
            lemma_answer_stays(
                before.session,
                now.session,
                i,
                execution_for(request, workload, earlier, i),
            );
        }
    }
}

/// The ledger says what was done: each record is the answer to its sample that follows from the
/// workload, from what came of preparing the case, and from the execution taken for the sample.
pub proof fn law_records_say_what_was_done(
    request: Request,
    workload: Result<Workload, String>,
    events: Seq<Event>,
    i: int,
)
    requires
        progress(request, workload, events) is Some,
        0 <= i < progress(request, workload, events)->0.records.len(),
    ensures
        answer(
            progress(request, workload, events)->0.session,
            i,
            execution_for(request, workload, events, i),
        ) == Some(progress(request, workload, events)->0.records[i]),
{
    lemma_answered(request, workload, events);
}

/// A sample is answered from its own case: what a session waits to be loaded or executed is the
/// case with the id that the next sample names.
pub proof fn law_samples_are_taken_of_their_case(
    request: Request,
    workload: Workload,
    events: Seq<Event>,
)
    requires
        progress(request, Ok(workload), events) is Some,
    ensures
        ({
            let now = progress(request, Ok(workload), events)->0;
            let id = request.samples@[now.session.position].case_id@;
            let own = case_index(workload.cases@, workload.cases@.len() as int, id);
            match now.session.stage {
                StageModel::Loading(index, plan) => {
                    &&& own == Some(index)
                    &&& 0 <= index < workload.cases@.len()
                    &&& workload.cases@[index].id@ == id
                    &&& now.action == ActionModel::Load(index)
                    &&& crate::prepare::plan_of(workload.cases@[index]) == Ok::<
                        crate::prepare::PlanModel,
                        Seq<char>,
                    >(plan)
                },
                StageModel::Executing(index) => {
                    &&& own == Some(index)
                    &&& 0 <= index < workload.cases@.len()
                    &&& workload.cases@[index].id@ == id
                    &&& now.action == ActionModel::Execute(index)
                    &&& now.session.prepared[index] matches Some(Ok(prepared))
                    &&& follows_from(Some(Ok(prepared)), workload.cases@[index])
                },
                _ => true,
            }
        }),
{
    lemma_sound(request, Ok(workload), events);
    let now = progress(request, Ok(workload), events)->0;
    lemma_case_index(
        workload.cases@,
        workload.cases@.len() as int,
        request.samples@[now.session.position].case_id@,
    );
}

/// Two records differ in nothing but which sample they answer and the duration.
pub open spec fn same_but_for_sample(
    a: crate::protocol::RecordModel,
    b: crate::protocol::RecordModel,
) -> bool {
    b == crate::protocol::RecordModel {
        sample_id: b.sample_id,
        repetition: b.repetition,
        phase: b.phase,
        execution_duration_ns: b.execution_duration_ns,
        ..a
    }
}

proof fn lemma_sample_records_agree(
    request: Request,
    s: crate::protocol::SampleSpec,
    t: crate::protocol::SampleSpec,
    prepared: crate::prepare::PreparedModel,
    a: Execution,
    b: Execution,
)
    requires
        s.case_id@ == t.case_id@,
        crate::execute::is_valid(a),
        crate::execute::is_valid(b),
        crate::execute::same_but_for_time(a, b),
    ensures
        same_but_for_sample(
            sample_record(request, s, prepared, a),
            sample_record(request, t, prepared, b),
        ),
{
    reveal(sample_record);
    let diagnostic = request.mode == Mode::Diagnostic;
    let outcomes = (
        crate::execute::execution_outcome(prepared, diagnostic, a),
        crate::execute::execution_outcome(prepared, diagnostic, b),
    );
    crate::execute::law_time_shows_only_in_the_duration(prepared, diagnostic, a, b);
    lemma_execution_records_agree(request, s, t, prepared, outcomes.0, outcomes.1);
}

proof fn lemma_execution_records_agree(
    request: Request,
    s: crate::protocol::SampleSpec,
    t: crate::protocol::SampleSpec,
    prepared: crate::prepare::PreparedModel,
    a: Result<crate::execute::ObservationModel, Seq<char>>,
    b: Result<crate::execute::ObservationModel, Seq<char>>,
)
    requires
        s.case_id@ == t.case_id@,
        crate::execute::same_but_for_duration(a, b),
    ensures
        same_but_for_sample(
            crate::record::execution_record(request, s, prepared, a),
            crate::record::execution_record(request, t, prepared, b),
        ),
{
}

proof fn lemma_answers_agree(
    session: SessionModel,
    i: int,
    j: int,
    a: Option<Execution>,
    b: Option<Execution>,
)
    requires
        session.request.samples@[i].case_id@ == session.request.samples@[j].case_id@,
        answer(session, i, a) is Some,
        answer(session, j, b) is Some,
        a is Some && b is Some ==> {
            &&& crate::execute::is_valid(a->0)
            &&& crate::execute::is_valid(b->0)
            &&& crate::execute::same_but_for_time(a->0, b->0)
        },
    ensures
        same_but_for_sample(answer(session, i, a)->0, answer(session, j, b)->0),
{
    reveal(answer);
    if let Some(index) = sample_case(session.request, session.workload, i) {
        if let Some(Ok(prepared)) = session.prepared[index] {
            let (s, t) = (session.request.samples@[i], session.request.samples@[j]);
            lemma_sample_records_agree(session.request, s, t, prepared, a->0, b->0);
        }
    }
}

/// Repeated samples agree: the records of two samples of one case differ in nothing but which
/// sample they answer and the duration, where the executions taken for them, if there were any,
/// differ in nothing but the time that they took.
pub proof fn law_repeated_samples_agree(
    request: Request,
    workload: Result<Workload, String>,
    events: Seq<Event>,
    i: int,
    j: int,
)
    requires
        progress(request, workload, events) is Some,
        0 <= i < progress(request, workload, events)->0.records.len(),
        0 <= j < progress(request, workload, events)->0.records.len(),
        request.samples@[i].case_id@ == request.samples@[j].case_id@,
        match (
            execution_for(request, workload, events, i),
            execution_for(request, workload, events, j),
        ) {
            (Some(a), Some(b)) => {
                &&& crate::execute::is_valid(a)
                &&& crate::execute::is_valid(b)
                &&& crate::execute::same_but_for_time(a, b)
            },
            _ => true,
        },
    ensures
        same_but_for_sample(
            progress(request, workload, events)->0.records[i],
            progress(request, workload, events)->0.records[j],
        ),
{
    let session = progress(request, workload, events)->0.session;
    let a = execution_for(request, workload, events, i);
    let b = execution_for(request, workload, events, j);
    law_records_say_what_was_done(request, workload, events, i);
    law_records_say_what_was_done(request, workload, events, j);
    assert(session.request == request) by {
        lemma_sound(request, workload, events);
    }
    lemma_answers_agree(session, i, j, a, b);
}

/// The record of an executed sample ties each of its figures to the execution and the prepared
/// case, in either mode and whether or not the sample passed: the gas that was charged is the sum
/// of what the transactions used, the gas that was declared is that of the case, and the hashes are
/// those of the prepared case and of what the execution left.
pub proof fn law_records_report_the_execution(
    request: Request,
    sample: crate::protocol::SampleSpec,
    prepared: crate::prepare::PreparedModel,
    execution: Execution,
)
    requires
        0 <= prepared.plan.declared_gas <= u64::MAX,
    ensures
        ({
            let record = sample_record(request, sample, prepared, execution);
            let uncounted = request.mode == Mode::Diagnostic && execution.counts is None;
            let observed = execution.results is Ok && !uncounted && crate::execute::total_gas(
                execution.results->Ok_0@,
            ) <= u64::MAX;
            &&& record.session_id == request.session_id@
            &&& record.sample_id == sample.sample_id@
            &&& record.case_id == sample.case_id@
            &&& record.repetition == sample.repetition
            &&& record.phase == sample.phase@
            &&& record.baseline_hash == Some(prepared.baseline_hash)
            &&& record.prepared_hash == Some(prepared.prepared_hash)
            &&& record.declared_gas is Some
            &&& record.declared_gas->0 == prepared.plan.declared_gas
            &&& record.commitment_hash is Some <==> observed
            &&& record.charged_gas is Some <==> observed
            &&& observed ==> {
                &&& record.charged_gas->0 == crate::execute::total_gas(execution.results->Ok_0@)
                &&& crate::hex::decoded(record.commitment_hash->0) == crate::digest::sha256_digest(
                    vstd::utf8::encode_utf8(
                        crate::execute::commitment_json(
                            crate::execute::receipts_model(execution.results->Ok_0@),
                            execution.post,
                        ),
                    ),
                )
            }
        }),
{
    reveal(sample_record);
    let diagnostic = request.mode == Mode::Diagnostic;
    let outcome = crate::execute::execution_outcome(prepared, diagnostic, execution);
    crate::execute::law_executions_that_come_to_nothing(prepared, diagnostic, execution);
    match outcome {
        Ok(observation) => {
            crate::execute::law_observations_report_the_execution(prepared, diagnostic, execution);
            crate::record::law_records_report_what_was_observed(
                request,
                sample,
                prepared,
                observation,
            );
        },
        Err(message) => {
            crate::record::law_records_of_executions_that_came_to_nothing(
                request,
                sample,
                prepared,
                message,
            );
        },
    }
}

/// The mode of a request does not show in the gas and the hashes: where both records of one
/// execution have a commitment hash, they have the same hashes and the same gas.
pub proof fn law_figures_do_not_depend_on_the_mode(
    a: Request,
    b: Request,
    sample: crate::protocol::SampleSpec,
    prepared: crate::prepare::PreparedModel,
    execution: Execution,
)
    requires
        0 <= prepared.plan.declared_gas <= u64::MAX,
        sample_record(a, sample, prepared, execution).commitment_hash is Some,
        sample_record(b, sample, prepared, execution).commitment_hash is Some,
    ensures
        ({
            let r = sample_record(a, sample, prepared, execution);
            let s = sample_record(b, sample, prepared, execution);
            &&& r.charged_gas == s.charged_gas
            &&& r.declared_gas == s.declared_gas
            &&& r.commitment_hash == s.commitment_hash
            &&& r.baseline_hash == s.baseline_hash
            &&& r.prepared_hash == s.prepared_hash
        }),
{
    law_records_report_the_execution(a, sample, prepared, execution);
    law_records_report_the_execution(b, sample, prepared, execution);
    reveal(sample_record);
}

/// The record of a session that counts has the counts, and the count of the target; that of a
/// session that measures time has the duration.
pub proof fn law_records_report_counts_or_time(
    request: Request,
    sample: crate::protocol::SampleSpec,
    prepared: crate::prepare::PreparedModel,
    execution: Execution,
)
    requires
        execution.results is Ok,
        crate::execute::total_gas(execution.results->Ok_0@) <= u64::MAX,
    ensures
        ({
            let record = sample_record(request, sample, prepared, execution);
            let key = prepared.plan.target_count_key;
            let nanos = execution.elapsed_nanos;
            &&& request.mode == Mode::Performance ==> {
                &&& record.opcode_counts is None
                &&& record.target_count is None
                &&& record.execution_duration_ns is Some
                &&& 1 <= nanos <= u64::MAX ==> record.execution_duration_ns->0 == nanos
                &&& nanos == 0 ==> record.execution_duration_ns->0 == 1
                &&& nanos > u64::MAX ==> record.execution_duration_ns->0 == u64::MAX
            }
            &&& request.mode == Mode::Diagnostic && execution.counts is Some ==> {
                let counts = execution.counts->0;
                &&& record.execution_duration_ns is None
                &&& record.opcode_counts == Some(counts@)
                &&& counts.map().contains_key(key) ==> record.target_count == Some(
                    counts.map()[key],
                )
                &&& !counts.map().contains_key(key) ==> record.target_count is None
            }
        }),
{
    reveal(sample_record);
    let diagnostic = request.mode == Mode::Diagnostic;
    crate::execute::law_executions_that_come_to_nothing(prepared, diagnostic, execution);
    if let Ok(observation) = crate::execute::execution_outcome(prepared, diagnostic, execution) {
        crate::execute::law_observations_report_the_execution(prepared, diagnostic, execution);
        crate::execute::law_observations_report_the_counts(prepared, diagnostic, execution);
        crate::record::law_records_report_what_was_observed(
            request,
            sample,
            prepared,
            observation,
        );
    }
}

/// The case of a sample is the last of the workload with the id that the sample names; there is
/// none exactly where no case has it.
pub proof fn law_cases_are_found_by_their_id(cases: Seq<WorkloadCase>, id: Seq<char>)
    ensures
        match case_index(cases, cases.len() as int, id) {
            Some(index) => {
                &&& 0 <= index < cases.len()
                &&& cases[index].id@ == id
                &&& forall|j: int| index < j < cases.len() ==> (#[trigger] cases[j]).id@ != id
            },
            None => forall|j: int| 0 <= j < cases.len() ==> (#[trigger] cases[j]).id@ != id,
        },
{
    lemma_last_case(cases, cases.len() as int, id);
}

proof fn lemma_last_case(cases: Seq<WorkloadCase>, n: int, id: Seq<char>)
    ensures
        match case_index(cases, n, id) {
            Some(index) => {
                &&& 0 <= index < n
                &&& cases[index].id@ == id
                &&& forall|j: int| index < j < n ==> (#[trigger] cases[j]).id@ != id
            },
            None => forall|j: int| 0 <= j < n ==> (#[trigger] cases[j]).id@ != id,
        },
    decreases n,
{
    if n > 0 {
        lemma_last_case(cases, n - 1, id);
    }
}

/// The case of a sample is the only one with the id that the sample names, where ids are distinct.
proof fn lemma_own_case(cases: Seq<WorkloadCase>, id: Seq<char>, index: int)
    requires
        0 <= index < cases.len(),
        cases[index].id@ == id,
        forall|j: int| index < j < cases.len() ==> (#[trigger] cases[j]).id@ != id,
    ensures
        case_index(cases, cases.len() as int, id) == Some(index),
{
    law_cases_are_found_by_their_id(cases, id);
    match case_index(cases, cases.len() as int, id) {
        Some(found) => {
            if found < index {
                assert(cases[index].id@ != id);
            }
            if found > index {
                assert(cases[found].id@ != id);
            }
        },
        None => {
            assert(cases[index].id@ != id);
        },
    }
}

/// A sample that names no case of the workload is answered with a failure that says so, and nothing
/// is loaded or executed for it.
pub proof fn law_unknown_cases_are_named(session: SessionModel, workload: Workload)
    requires
        session.workload == Ok::<Workload, String>(workload),
        0 <= session.position < session.request.samples@.len(),
        forall|j: int|
            0 <= j < workload.cases@.len() ==> (#[trigger] workload.cases@[j]).id@
                != session.request.samples@[session.position].case_id@,
    ensures
        ({
            let sample = session.request.samples@[session.position];
            turn(session).1 == ActionModel::Write(
                crate::record::failed_record(
                    session.request,
                    sample,
                    "workload"@,
                    "sample references unknown workload case "@ + crate::text::debug_text(
                        sample.case_id@,
                    ),
                ),
            )
        }),
        turn(session).0.prepared == session.prepared,
        turn(session).0.position == session.position,
{
    reveal(turn);
    law_cases_are_found_by_their_id(
        workload.cases@,
        session.request.samples@[session.position].case_id@,
    );
}

/// A sample of a case that is not supported is answered with the reason, and nothing is loaded or
/// executed for it.
pub proof fn law_unsupported_cases_are_answered(
    session: SessionModel,
    workload: Workload,
    index: int,
)
    requires
        session.workload == Ok::<Workload, String>(workload),
        0 <= session.position < session.request.samples@.len(),
        0 <= index < workload.cases@.len(),
        workload.cases@[index].id@ == session.request.samples@[session.position].case_id@,
        forall|j: int|
            index < j < workload.cases@.len() ==> (#[trigger] workload.cases@[j]).id@
                != session.request.samples@[session.position].case_id@,
        workload.cases@[index].status@ == "unsupported"@,
    ensures
        turn(session).1 == ActionModel::Write(
            crate::record::unsupported_record(
                session.request,
                session.request.samples@[session.position],
                match workload.cases@[index].reason {
                    Some(reason) => reason@,
                    None => "case is unsupported"@,
                },
            ),
        ),
        turn(session).0.prepared == session.prepared,
        turn(session).0.position == session.position,
{
    reveal(turn);
    lemma_own_case(
        workload.cases@,
        session.request.samples@[session.position].case_id@,
        index,
    );
}

/// A sample of any other case has it loaded and executed, where it can be prepared: it is executed
/// at once where it was prepared before, and loaded first where it was not. Where it cannot be
/// prepared, the sample is answered with the reason.
pub proof fn law_supported_cases_are_executed(
    session: SessionModel,
    workload: Workload,
    index: int,
)
    requires
        session.workload == Ok::<Workload, String>(workload),
        0 <= session.position < session.request.samples@.len(),
        session.prepared.len() == workload.cases@.len(),
        0 <= index < workload.cases@.len(),
        workload.cases@[index].id@ == session.request.samples@[session.position].case_id@,
        forall|j: int|
            index < j < workload.cases@.len() ==> (#[trigger] workload.cases@[j]).id@
                != session.request.samples@[session.position].case_id@,
        workload.cases@[index].status@ != "unsupported"@,
        follows_from(session.prepared[index], workload.cases@[index]),
    ensures
        ({
            let sample = session.request.samples@[session.position];
            let plan = crate::prepare::plan_of(workload.cases@[index]);
            let (next, action) = turn(session);
            &&& next.request == session.request
            &&& next.workload == session.workload
            &&& next.position == session.position
            &&& session.prepared[index] matches Some(Ok(_)) ==> action == ActionModel::Execute(
                index,
            ) && next.stage == StageModel::Executing(index) && next.prepared == session.prepared
            &&& session.prepared[index] is None && plan is Ok ==> action == ActionModel::Load(index)
                && next.stage == StageModel::Loading(index, plan->Ok_0) && next.prepared
                == session.prepared
            &&& plan matches Err(message) ==> action == ActionModel::Write(
                crate::record::failed_record(session.request, sample, "prepare"@, message),
            )
        }),
{
    reveal(turn);
    lemma_own_case(
        workload.cases@,
        session.request.samples@[session.position].case_id@,
        index,
    );
}

/// Once the accounts of a case are loaded, the case is executed, with the plan that was loaded and
/// the hashes of the case and of the state; nothing else changes.
pub proof fn law_loaded_cases_are_executed(
    session: SessionModel,
    workload: Workload,
    index: int,
    plan: crate::prepare::PlanModel,
    database: DatabaseState,
)
    requires
        session.workload == Ok::<Workload, String>(workload),
        session.stage == StageModel::Loading(index, plan),
        0 <= index < session.prepared.len(),
    ensures
        ({
            let stepped = transition(session, Event::Loaded(database));
            let (next, action) = stepped->0;
            let case = workload.cases@[index];
            &&& stepped is Some
            &&& action == ActionModel::Execute(index)
            &&& next.stage == StageModel::Executing(index)
            &&& next.request == session.request
            &&& next.workload == session.workload
            &&& next.position == session.position
            &&& next.prepared.len() == session.prepared.len()
            &&& forall|j: int|
                0 <= j < session.prepared.len() && j != index ==> #[trigger] next.prepared[j]
                    == session.prepared[j]
            &&& next.prepared[index] matches Some(Ok(prepared)) && {
                &&& prepared.plan == plan
                &&& prepared.baseline_hash == crate::digest::json_hash(
                    crate::state::snapshot_json(crate::state::snapshot_model(database)),
                )
                &&& prepared.prepared_hash == crate::digest::json_hash(
                    crate::prepare::identity_json(case),
                )
            }
        }),
{
}

/// An executed case is answered with the record of its own sample, its own preparation and its own
/// execution, and once a record is written the session turns to the next sample; neither changes
/// what is prepared.
pub proof fn law_executed_cases_are_answered(
    session: SessionModel,
    index: int,
    execution: Execution,
)
    requires
        session.stage == StageModel::Executing(index),
        session.prepared[index] matches Some(Ok(_)),
    ensures
        ({
            let stepped = transition(session, Event::Executed(execution));
            let (next, action) = stepped->0;
            &&& stepped is Some
            &&& action == ActionModel::Write(
                sample_record(
                    session.request,
                    session.request.samples@[session.position],
                    session.prepared[index]->0->Ok_0,
                    execution,
                ),
            )
            &&& next.stage is Writing
            &&& next.request == session.request
            &&& next.workload == session.workload
            &&& next.prepared == session.prepared
            &&& next.position == session.position
            &&& transition(next, Event::Written) matches Some((turned, _)) && turned.position
                == session.position + 1
        }),
{
    reveal(turn);
}

/// A session starts with its first sample, with nothing prepared but what it found wrong with the
/// case of that sample.
pub proof fn law_sessions_start_with_the_first_sample(
    request: Request,
    workload: Result<Workload, String>,
    index: int,
)
    ensures
        turn(opened(request, workload)).0.request == request,
        turn(opened(request, workload)).0.workload == workload,
        turn(opened(request, workload)).0.position == 0,
        turn(opened(request, workload)).0.prepared.len() == match workload {
            Ok(workload) => workload.cases@.len(),
            Err(_) => 0,
        },
        0 <= index < turn(opened(request, workload)).0.prepared.len() ==> !(turn(
            opened(request, workload),
        ).0.prepared[index] matches Some(Ok(_))),
        request.samples@.len() == 0 <==> turn(opened(request, workload)).1 is Finish,
{
    reveal(turn);
    if let Ok(known) = workload {
        lemma_case_index(known.cases@, known.cases@.len() as int, request.samples@[0].case_id@);
    }
}

/// What a session asks for, and what came of preparing a case, by their contents.
pub proof fn law_contents_of_actions(
    record: ResultRecord,
    index: usize,
    prepared: PreparedCase,
    message: String,
)
    ensures
        Action::Write(record)@ == ActionModel::Write(record@),
        Action::Load(index)@ == ActionModel::Load(index as int),
        Action::Execute(index)@ == ActionModel::Execute(index as int),
        Action::Finish@ == ActionModel::Finish,
        preparation_view(None) is None,
        preparation_view(Some(Ok(prepared))) == Some(
            Ok::<crate::prepare::PreparedModel, Seq<char>>(prepared@),
        ),
        preparation_view(Some(Err(message))) == Some(
            Err::<crate::prepare::PreparedModel, Seq<char>>(message@),
        ),
{
}

/// A session takes an event only where it waits for it: that a record is written while it writes,
/// that accounts are loaded while it loads, and that a case is executed while it executes. Any
/// other event leaves it as it was, and it asks for nothing.
pub proof fn law_other_events_change_nothing(
    session: SessionModel,
    event: Event,
    stepped: (Session, Option<Action>),
)
    requires
        is_step(session, event, stepped),
    ensures
        ({
            let taken = match event {
                Event::Written => session.stage is Writing,
                Event::Loaded(_) => session.stage is Loading,
                Event::Executed(_) => session.stage is Executing,
            };
            &&& taken <==> stepped.1 is Some
            &&& !taken ==> stepped.0@ == session
            &&& taken ==> transition(session, event) == Some((stepped.0@, stepped.1->0@))
        }),
{
}

/// Once a record is written the session turns to the next sample, and to no other.
pub proof fn law_written_records_lead_to_the_next_sample(session: SessionModel)
    requires
        session.stage is Writing,
    ensures
        ({
            let stepped = transition(session, Event::Written);
            let (next, action) = stepped->0;
            &&& stepped is Some
            &&& next.request == session.request
            &&& next.workload == session.workload
            &&& next.position == session.position + 1
            &&& session.position + 1 >= session.request.samples@.len() <==> action is Finish
            &&& action matches ActionModel::Write(record) ==> record.sample_id
                == session.request.samples@[session.position + 1].sample_id@ && record.session_id
                == session.request.session_id@
        }),
{
    reveal(turn);
}

/// A session starts with its first sample and nothing prepared.
pub proof fn law_starting_a_session(
    request: Request,
    workload: Result<Workload, String>,
    started: (Session, Action),
    index: int,
)
    requires
        call_ensures(Session::new, (request, workload), started),
    ensures
        started.0@.request == request,
        started.0@.workload == workload,
        started.0@.position == 0,
        0 <= index < started.0@.prepared.len() ==> !(started.0@.prepared[index] matches Some(
            Ok(_),
        )),
        progress(request, workload, Seq::empty()) == Some(
            Progress { session: started.0@, action: started.1@, records: Seq::empty() },
        ),
{
    law_sessions_start_with_the_first_sample(request, workload, index);
}

/// Each step of a session is the progress by one more event, and the record of a sample is added to
/// the ledger as the session asked for it.
pub proof fn law_stepping_a_session(
    request: Request,
    workload: Result<Workload, String>,
    events: Seq<Event>,
    session: Session,
    event: Event,
    stepped: (Session, Option<Action>),
)
    requires
        progress(request, workload, events) is Some,
        progress(request, workload, events)->0.session == session@,
        call_ensures(Session::step, (session, event), stepped),
        stepped.1 is Some,
    ensures
        ({
            let before = progress(request, workload, events)->0;
            let now = progress(request, workload, events.push(event));
            &&& now is Some
            &&& now->0.session == stepped.0@
            &&& now->0.action == stepped.1->0@
            &&& event is Written ==> before.action is Write && now->0.records
                == before.records.push(before.action->Write_0)
            &&& !(event is Written) ==> now->0.records == before.records
        }),
{
    assert(events.push(event).drop_last() =~= events);
    lemma_sound(request, workload, events);
}

/// A session shows what it waits for: the accounts of the plan that is to be loaded, the prepared
/// case that is to be executed, and whether operations are to be counted.
pub proof fn law_sessions_show_what_they_wait_for(
    session: &Session,
    diagnostic: bool,
    accounts: Option<&Vec<BaselineAccount>>,
    case: Option<&PreparedCase>,
    k: int,
)
    requires
        call_ensures(Session::is_diagnostic, (session,), diagnostic),
        call_ensures(Session::accounts_to_load, (session,), accounts),
        call_ensures(Session::case_to_execute, (session,), case),
    ensures
        diagnostic <==> session@.request.mode == Mode::Diagnostic,
        accounts is Some <==> session@.stage is Loading,
        case is Some <==> session@.stage is Executing,
        session@.stage matches StageModel::Loading(_, plan) ==> accounts->0@.len()
            == plan.baseline.len() && (0 <= k < plan.baseline.len() ==> accounts->0@[k]@
            == plan.baseline[k]),
        session@.stage matches StageModel::Executing(index) ==> session@.prepared[index] == Some(
            Ok::<crate::prepare::PreparedModel, Seq<char>>(case->0@),
        ),
{
    if accounts is Some {
        assert(crate::prepare::baseline_view(accounts->0@).len() == accounts->0@.len());
    }
}

} // verus!
