//! Which workloads are accepted.

use crate::protocol::{Request, Workload, WorkloadCase, OSAKA_FORK, SCHEMA_VERSION};
use crate::sorted_map::SortedMap;
use crate::text::{blank, decimal, quoted, same_text};
use vstd::prelude::*;

verus! {

/// What came of reading a workload file: the error that the file could not be read for, the error
/// that its contents could not be parsed for, or the workload.
#[derive(Debug)]
pub enum WorkloadSource {
    Unreadable(String),
    Unparsable(String),
    Parsed(Workload),
}

/// One of the first `n` of `cases` has the id `id`.
pub open spec fn has_case_id(cases: Seq<WorkloadCase>, n: int, id: Seq<char>) -> bool {
    exists|j: int| 0 <= j < n && (#[trigger] cases[j]).id@ == id
}

/// What is wrong with the case at `i` of a workload, where nothing is wrong with those before it.
pub open spec fn case_problem(cases: Seq<WorkloadCase>, i: int) -> Option<Seq<char>> {
    if cases[i].id@.len() == 0 {
        Some("workload contains a case with an empty id"@)
    } else if has_case_id(cases, i, cases[i].id@) {
        Some("workload contains duplicate case id "@ + crate::text::debug_text(cases[i].id@))
    } else {
        None
    }
}

/// What is wrong with the first of the first `n` cases that something is wrong with.
pub open spec fn cases_problem(cases: Seq<WorkloadCase>, n: int) -> Option<Seq<char>>
    decreases n,
{
    if n <= 0 {
        None
    } else {
        match cases_problem(cases, n - 1) {
            Some(problem) => Some(problem),
            None => case_problem(cases, n - 1),
        }
    }
}

/// Why a workload is refused, or `None` where it is accepted.
pub open spec fn workload_problem(workload: Workload) -> Option<Seq<char>> {
    if workload.schema_version != SCHEMA_VERSION {
        Some(
            "workload schema_version "@ + crate::text::decimal_text(workload.schema_version as nat)
                + " is unsupported; expected "@ + crate::text::decimal_text(SCHEMA_VERSION as nat),
        )
    } else if workload.fork@ != OSAKA_FORK@ {
        Some(
            "workload fork "@ + crate::text::debug_text(workload.fork@)
                + " is unsupported; expected "@ + crate::text::debug_text(OSAKA_FORK@),
        )
    } else if crate::text::is_blank(workload.generator.revision@) {
        Some("workload generator revision is empty"@)
    } else if workload.cases@.len() == 0 {
        Some("workload contains no cases"@)
    } else {
        cases_problem(workload.cases@, workload.cases@.len() as int)
    }
}

/// Why a session has no workload, or `None` where it has one.
pub open spec fn source_problem(request: Request, source: WorkloadSource) -> Option<Seq<char>> {
    let path = crate::text::debug_text(request.workload_path@);
    match source {
        WorkloadSource::Unreadable(error) => Some("reading workload "@ + path + ": "@ + error@),
        WorkloadSource::Unparsable(error) => Some("parsing workload "@ + path + ": "@ + error@),
        WorkloadSource::Parsed(workload) => workload_problem(workload),
    }
}

fn check_cases(cases: &Vec<WorkloadCase>) -> (result: Result<(), String>)
    ensures
        match result {
            Ok(_) => cases_problem(cases@, cases@.len() as int) is None,
            Err(message) => cases_problem(cases@, cases@.len() as int) == Some(message@),
        },
{
    let mut ids: SortedMap<String, ()> = SortedMap::new();
    let mut i: usize = 0;
    while i < cases.len()
        invariant
            i <= cases@.len(),
            cases_problem(cases@, i as int) is None,
            forall|id: Seq<char>| #[trigger]
                ids.map().contains_key(id) <==> has_case_id(cases@, i as int, id),
        decreases cases@.len() - i,
    {
        let case = &cases[i];
        if case.id.as_str().is_empty() {
            proof {
                lemma_cases_problem_stays(cases@, i + 1, cases@.len() as int);
            }
            return Err("workload contains a case with an empty id".to_owned());
        }
        if ids.get(&case.id).is_some() {
            let mut message = "workload contains duplicate case id ".to_owned();
            message.append(quoted(case.id.as_str()).as_str());
            proof {
                lemma_cases_problem_stays(cases@, i + 1, cases@.len() as int);
            }
            return Err(message);
        }
        let ghost before = ids.map();
        ids.insert(case.id.clone(), ());
        assert forall|id: Seq<char>| #[trigger]
            ids.map().contains_key(id) <==> has_case_id(cases@, i + 1, id) by {
            assert(before.contains_key(id) <==> has_case_id(cases@, i as int, id));
            if id == cases@[i as int].id@ {
                assert(has_case_id(cases@, i + 1, id));
            }
        }
        i += 1;
    }
    Ok(())
}

fn check_workload(workload: &Workload) -> (result: Result<(), String>)
    ensures
        match result {
            Ok(_) => workload_problem(*workload) is None,
            Err(message) => workload_problem(*workload) == Some(message@),
        },
{
    if workload.schema_version != SCHEMA_VERSION {
        let mut message = "workload schema_version ".to_owned();
        message.append(decimal(workload.schema_version as u64).as_str());
        message.append(" is unsupported; expected ");
        message.append(decimal(SCHEMA_VERSION as u64).as_str());
        return Err(message);
    }
    if !same_text(workload.fork.as_str(), OSAKA_FORK) {
        let mut message = "workload fork ".to_owned();
        message.append(quoted(workload.fork.as_str()).as_str());
        message.append(" is unsupported; expected ");
        message.append(quoted(OSAKA_FORK).as_str());
        return Err(message);
    }
    if blank(workload.generator.revision.as_str()) {
        return Err("workload generator revision is empty".to_owned());
    }
    if workload.cases.len() == 0 {
        return Err("workload contains no cases".to_owned());
    }
    check_cases(&workload.cases)
}

/// The workload of a session, given what came of reading its file.
pub fn load_workload(request: &Request, source: WorkloadSource) -> (result: Result<
    Workload,
    String,
>)
    ensures
        match result {
            Ok(workload) => source == WorkloadSource::Parsed(workload) && source_problem(
                *request,
                source,
            ) is None,
            Err(message) => source_problem(*request, source) == Some(message@),
        },
{
    match source {
        WorkloadSource::Unreadable(error) => {
            let mut message = "reading workload ".to_owned();
            message.append(quoted(request.workload_path.as_str()).as_str());
            message.append(": ");
            message.append(error.as_str());
            Err(message)
        },
        WorkloadSource::Unparsable(error) => {
            let mut message = "parsing workload ".to_owned();
            message.append(quoted(request.workload_path.as_str()).as_str());
            message.append(": ");
            message.append(error.as_str());
            Err(message)
        },
        WorkloadSource::Parsed(workload) => match check_workload(&workload) {
            Ok(_) => Ok(workload),
            Err(message) => Err(message),
        },
    }
}

proof fn lemma_cases_problem_stays(cases: Seq<WorkloadCase>, n: int, m: int)
    requires
        0 <= n <= m,
        cases_problem(cases, n) is Some,
    ensures
        cases_problem(cases, m) == cases_problem(cases, n),
    decreases m - n,
{
    if n < m {
        lemma_cases_problem_stays(cases, n, m - 1);
    }
}

/// An accepted workload is for the one fork, says where it comes from, and has cases with ids that
/// are not empty and each its own.
pub proof fn law_accepted_workload(workload: Workload)
    requires
        workload_problem(workload) is None,
    ensures
        workload.schema_version == SCHEMA_VERSION,
        workload.fork@ == OSAKA_FORK@,
        !crate::text::is_blank(workload.generator.revision@),
        workload.cases@.len() > 0,
        forall|i: int|
            0 <= i < workload.cases@.len() ==> (#[trigger] workload.cases@[i]).id@.len() > 0,
        forall|i: int, j: int|
            #![trigger workload.cases@[i], workload.cases@[j]]
            0 <= i < j < workload.cases@.len() ==> workload.cases@[i].id@
                != workload.cases@[j].id@,
{
    let cases = workload.cases@;
    assert forall|i: int| 0 <= i < cases.len() implies case_problem(cases, i) is None by {
        if cases_problem(cases, i + 1) is Some {
            lemma_cases_problem_stays(cases, i + 1, cases.len() as int);
        }
    }
    assert forall|i: int| 0 <= i < cases.len() implies (#[trigger] cases[i]).id@.len() > 0 by {
        assert(case_problem(cases, i) is None);
    }
    assert forall|i: int, j: int|
        #![trigger cases[i], cases[j]]
        0 <= i < j < cases.len() implies cases[i].id@ != cases[j].id@ by {
        assert(case_problem(cases, j) is None);
    }
}

/// A workload has nothing wrong with it: it has the right version and fork, a revision that is not
/// blank, and cases, each with an id of its own.
pub open spec fn is_good_workload(workload: Workload) -> bool {
    &&& workload.schema_version == 2
    &&& workload.fork@ == "Osaka"@
    &&& exists|i: int|
        0 <= i < workload.generator.revision@.len() && !crate::text::is_white_space(
            #[trigger] workload.generator.revision@[i],
        )
    &&& workload.cases@.len() > 0
    &&& forall|i: int|
        0 <= i < workload.cases@.len() ==> (#[trigger] workload.cases@[i]).id@.len() > 0
    &&& forall|i: int, j: int|
        #![trigger workload.cases@[i], workload.cases@[j]]
        0 <= i < j < workload.cases@.len() ==> workload.cases@[i].id@ != workload.cases@[j].id@
}

/// A workload is refused for nothing but its version, its fork, a blank revision, and cases that
/// are missing or have an id that is empty or not their own: whatever else its cases hold, it is
/// accepted.
pub proof fn law_workloads_with_distinct_cases_are_accepted(workload: Workload)
    requires
        is_good_workload(workload),
    ensures
        workload_problem(workload) is None,
        forall|request: Request|
            #[trigger] source_problem(request, WorkloadSource::Parsed(workload)) is None,
{
    lemma_distinct_cases(workload.cases@, workload.cases@.len() as int);
}

proof fn lemma_distinct_cases(cases: Seq<WorkloadCase>, n: int)
    requires
        0 <= n <= cases.len(),
        forall|i: int| 0 <= i < n ==> (#[trigger] cases[i]).id@.len() > 0,
        forall|i: int, j: int|
            #![trigger cases[i], cases[j]]
            0 <= i < j < n ==> cases[i].id@ != cases[j].id@,
    ensures
        cases_problem(cases, n) is None,
    decreases n,
{
    if n > 0 {
        lemma_distinct_cases(cases, n - 1);
        assert(cases[n - 1].id@.len() > 0);
    }
}

/// A workload that is not accepted is refused for the first of its faults, in this order: the
/// version, the fork, the revision, that there is no case, and then the first case with a fault.
pub proof fn law_workload_faults_are_named(workload: Workload)
    ensures
        workload.schema_version != 2 ==> workload_problem(workload) == Some(
            "workload schema_version "@ + crate::text::decimal_text(workload.schema_version as nat)
                + " is unsupported; expected "@ + crate::text::decimal_text(2),
        ),
        workload.schema_version == 2 && workload.fork@ != "Osaka"@ ==> workload_problem(workload)
            == Some(
            "workload fork "@ + crate::text::debug_text(workload.fork@)
                + " is unsupported; expected "@ + crate::text::debug_text("Osaka"@),
        ),
        workload.schema_version == 2 && workload.fork@ == "Osaka"@ && (forall|i: int|
            0 <= i < workload.generator.revision@.len() ==> crate::text::is_white_space(
                #[trigger] workload.generator.revision@[i],
            )) ==> workload_problem(workload) == Some("workload generator revision is empty"@),
        workload.schema_version == 2 && workload.fork@ == "Osaka"@ && !crate::text::is_blank(
            workload.generator.revision@,
        ) && workload.cases@.len() == 0 ==> workload_problem(workload) == Some(
            "workload contains no cases"@,
        ),
{
}

/// The first case with an empty id, or with the id of an earlier one, is what a workload is refused
/// for where nothing else is wrong with it.
pub proof fn law_the_first_faulty_case_is_named(workload: Workload, n: int)
    requires
        workload.schema_version == 2,
        workload.fork@ == "Osaka"@,
        !crate::text::is_blank(workload.generator.revision@),
        0 <= n < workload.cases@.len(),
        forall|i: int| 0 <= i < n ==> (#[trigger] workload.cases@[i]).id@.len() > 0,
        forall|i: int, j: int|
            #![trigger workload.cases@[i], workload.cases@[j]]
            0 <= i < j < n ==> workload.cases@[i].id@ != workload.cases@[j].id@,
    ensures
        workload.cases@[n].id@.len() == 0 ==> workload_problem(workload) == Some(
            "workload contains a case with an empty id"@,
        ),
        workload.cases@[n].id@.len() > 0 && (exists|i: int|
            0 <= i < n && (#[trigger] workload.cases@[i]).id@ == workload.cases@[n].id@)
            ==> workload_problem(workload) == Some(
            "workload contains duplicate case id "@ + crate::text::debug_text(
                workload.cases@[n].id@,
            ),
        ),
{
    let cases = workload.cases@;
    lemma_distinct_cases(cases, n);
    if cases_problem(cases, n + 1) is Some {
        lemma_cases_problem_stays(cases, n + 1, cases.len() as int);
    }
}

/// A file that cannot be read or parsed is refused with its path and the error.
pub proof fn law_unusable_files_are_named(request: Request, error: String)
    ensures
        source_problem(request, WorkloadSource::Unreadable(error)) == Some(
            "reading workload "@ + crate::text::debug_text(request.workload_path@) + ": "@ + error@,
        ),
        source_problem(request, WorkloadSource::Unparsable(error)) == Some(
            "parsing workload "@ + crate::text::debug_text(request.workload_path@) + ": "@ + error@,
        ),
{
}

/// Loading gives a workload back as it was parsed, where it is of the right version and fork, says
/// where it comes from, and has cases with ids that are not empty and each its own.
pub proof fn law_loading_gives_good_workloads_back(
    request: &Request,
    workload: Workload,
    result: Result<Workload, String>,
)
    requires
        call_ensures(load_workload, (request, WorkloadSource::Parsed(workload)), result),
        is_good_workload(workload),
    ensures
        result == Ok::<Workload, String>(workload),
{
    law_workloads_with_distinct_cases_are_accepted(workload);
}

/// A workload that is loaded is the one that was parsed, and has nothing wrong with it.
pub proof fn law_loading_refuses_faulty_workloads(
    request: &Request,
    source: WorkloadSource,
    result: Result<Workload, String>,
)
    requires
        call_ensures(load_workload, (request, source), result),
    ensures
        result is Ok ==> source == WorkloadSource::Parsed(result->Ok_0) && is_good_workload(
            result->Ok_0,
        ),
        source matches WorkloadSource::Unreadable(error) ==> result is Err && result->Err_0@
            == "reading workload "@ + crate::text::debug_text(request.workload_path@) + ": "@
            + error@,
        source matches WorkloadSource::Unparsable(error) ==> result is Err && result->Err_0@
            == "parsing workload "@ + crate::text::debug_text(request.workload_path@) + ": "@
            + error@,
        source matches WorkloadSource::Parsed(workload) ==> (result is Err ==> workload_problem(
            workload,
        ) == Some(result->Err_0@)),
{
    if result is Ok {
        law_accepted_workload(result->Ok_0);
    }
}

} // verus!
