//! Which requests are accepted.

use crate::protocol::{Mode, Request, SampleSpec, SCHEMA_VERSION};
use crate::sorted_map::SortedMap;
use crate::text::{decimal, quoted, same_text};
use vstd::prelude::*;

verus! {

/// Why a request is refused.
#[derive(Debug)]
pub struct RequestError {
    pub message: String,
}

/// `phase` is one in which time is measured.
pub open spec fn is_timing_phase(phase: Seq<char>) -> bool {
    phase == "pilot"@ || phase == "warmup"@ || phase == "qualification"@
}

/// A mode as it is named in messages.
pub open spec fn mode_text(mode: Mode) -> Seq<char> {
    match mode {
        Mode::Diagnostic => "Diagnostic"@,
        Mode::Performance => "Performance"@,
    }
}

/// One of the first `n` of `samples` has the id `id`.
pub open spec fn has_sample_id(samples: Seq<SampleSpec>, n: int, id: Seq<char>) -> bool {
    exists|j: int| 0 <= j < n && (#[trigger] samples[j]).sample_id@ == id
}

/// What is wrong with the sample at `i` of a request, where nothing is wrong with those before it.
pub open spec fn sample_problem(samples: Seq<SampleSpec>, i: int, mode: Mode) -> Option<Seq<char>> {
    let sample = samples[i];
    let diagnostic = sample.phase@ == "diagnostic"@;
    if sample.sample_id@.len() == 0 || sample.case_id@.len() == 0 {
        Some("request samples require non-empty sample_id and case_id"@)
    } else if has_sample_id(samples, i, sample.sample_id@) {
        Some("duplicate sample_id "@ + crate::text::debug_text(sample.sample_id@))
    } else if !diagnostic && !is_timing_phase(sample.phase@) {
        Some("unknown sample phase "@ + crate::text::debug_text(sample.phase@))
    } else if diagnostic != (mode == Mode::Diagnostic) {
        Some(
            "sample "@ + crate::text::debug_text(sample.sample_id@) + " phase "@
                + crate::text::debug_text(sample.phase@) + " is incompatible with request mode "@
                + mode_text(mode),
        )
    } else {
        None
    }
}

/// What is wrong with the first of the first `n` samples that something is wrong with.
pub open spec fn samples_problem(samples: Seq<SampleSpec>, n: int, mode: Mode) -> Option<Seq<char>>
    decreases n,
{
    if n <= 0 {
        None
    } else {
        match samples_problem(samples, n - 1, mode) {
            Some(problem) => Some(problem),
            None => sample_problem(samples, n - 1, mode),
        }
    }
}

/// Why a request is refused, or `None` where it is accepted.
pub open spec fn request_problem(request: Request) -> Option<Seq<char>> {
    if request.schema_version != SCHEMA_VERSION {
        Some(
            "request schema_version "@ + crate::text::decimal_text(request.schema_version as nat)
                + " is unsupported; expected "@ + crate::text::decimal_text(SCHEMA_VERSION as nat),
        )
    } else if request.workload_path@.len() == 0 || request.session_id@.len() == 0
        || request.samples@.len() == 0 {
        Some("request requires workload_path, session_id, and at least one sample"@)
    } else {
        samples_problem(request.samples@, request.samples@.len() as int, request.mode)
    }
}

/// The refusal of a request.
pub fn other(message: String) -> (error: RequestError)
    ensures
        error.message@ == message@,
{
    RequestError { message }
}

fn mode_name(mode: Mode) -> (name: &'static str)
    ensures
        name@ == mode_text(mode),
{
    match mode {
        Mode::Diagnostic => "Diagnostic",
        Mode::Performance => "Performance",
    }
}

/// Checks the sample at `index`, given the ids of the samples before it.
fn check_sample(
    samples: &Vec<SampleSpec>,
    index: usize,
    mode: Mode,
    ids: &SortedMap<String, ()>,
) -> (result: Result<(), RequestError>)
    requires
        index < samples@.len(),
        forall|id: Seq<char>| #[trigger]
            ids.map().contains_key(id) <==> has_sample_id(samples@, index as int, id),
    ensures
        match result {
            Ok(_) => sample_problem(samples@, index as int, mode) is None,
            Err(error) => sample_problem(samples@, index as int, mode) == Some(error.message@),
        },
{
    let sample = &samples[index];
    if sample.sample_id.as_str().is_empty() || sample.case_id.as_str().is_empty() {
        return Err(
            other("request samples require non-empty sample_id and case_id".to_owned()),
        );
    }
    if ids.get(&sample.sample_id).is_some() {
        let mut message = "duplicate sample_id ".to_owned();
        message.append(quoted(sample.sample_id.as_str()).as_str());
        return Err(other(message));
    }
    let diagnostic_phase = same_text(sample.phase.as_str(), "diagnostic");
    let timing_phase = same_text(sample.phase.as_str(), "pilot") || same_text(
        sample.phase.as_str(),
        "warmup",
    ) || same_text(sample.phase.as_str(), "qualification");
    if !diagnostic_phase && !timing_phase {
        let mut message = "unknown sample phase ".to_owned();
        message.append(quoted(sample.phase.as_str()).as_str());
        return Err(other(message));
    }
    if diagnostic_phase != (mode == Mode::Diagnostic) {
        let mut message = "sample ".to_owned();
        message.append(quoted(sample.sample_id.as_str()).as_str());
        message.append(" phase ");
        message.append(quoted(sample.phase.as_str()).as_str());
        message.append(" is incompatible with request mode ");
        message.append(mode_name(mode));
        return Err(other(message));
    }
    Ok(())
}

/// Accepts or refuses a request.
pub fn validate_request(request: &Request) -> (result: Result<(), RequestError>)
    ensures
        match result {
            Ok(_) => request_problem(*request) is None,
            Err(error) => request_problem(*request) == Some(error.message@),
        },
{
    if request.schema_version != SCHEMA_VERSION {
        let mut message = "request schema_version ".to_owned();
        message.append(decimal(request.schema_version as u64).as_str());
        message.append(" is unsupported; expected ");
        message.append(decimal(SCHEMA_VERSION as u64).as_str());
        return Err(other(message));
    }
    if request.workload_path.as_str().is_empty() || request.session_id.as_str().is_empty()
        || request.samples.len() == 0 {
        return Err(
            other(
                "request requires workload_path, session_id, and at least one sample".to_owned(),
            ),
        );
    }
    let samples = &request.samples;
    let mut ids: SortedMap<String, ()> = SortedMap::new();
    let mut i: usize = 0;
    while i < samples.len()
        invariant
            i <= samples@.len(),
            samples_problem(samples@, i as int, request.mode) is None,
            forall|id: Seq<char>| #[trigger]
                ids.map().contains_key(id) <==> has_sample_id(samples@, i as int, id),
            *samples == request.samples,
            request.schema_version == SCHEMA_VERSION,
            request.workload_path@.len() > 0,
            request.session_id@.len() > 0,
            request.samples@.len() > 0,
        decreases samples@.len() - i,
    {
        match check_sample(samples, i, request.mode, &ids) {
            Ok(_) => {},
            Err(error) => {
                proof {
                    lemma_samples_problem_stays(
                        samples@,
                        i + 1,
                        samples@.len() as int,
                        request.mode,
                    );
                }
                return Err(error);
            },
        }
        let ghost before = ids.map();
        ids.insert(samples[i].sample_id.clone(), ());
        assert forall|id: Seq<char>| #[trigger]
            ids.map().contains_key(id) <==> has_sample_id(samples@, i + 1, id) by {
            assert(before.contains_key(id) <==> has_sample_id(samples@, i as int, id));
            if id == samples@[i as int].sample_id@ {
                assert(has_sample_id(samples@, i + 1, id));
            }
        }
        i += 1;
    }
    Ok(())
}

proof fn lemma_samples_problem_stays(samples: Seq<SampleSpec>, n: int, m: int, mode: Mode)
    requires
        0 <= n <= m,
        samples_problem(samples, n, mode) is Some,
    ensures
        samples_problem(samples, m, mode) == samples_problem(samples, n, mode),
    decreases m - n,
{
    if n < m {
        lemma_samples_problem_stays(samples, n, m - 1, mode);
    }
}

/// An accepted request has samples, with ids that are not empty and each its own, that name a case,
/// and whose phase is known and fits the mode.
pub proof fn law_accepted_request(request: Request)
    requires
        request_problem(request) is None,
    ensures
        request.schema_version == SCHEMA_VERSION,
        request.workload_path@.len() > 0,
        request.session_id@.len() > 0,
        request.samples@.len() > 0,
        forall|i: int|
            0 <= i < request.samples@.len() ==> {
                let sample = #[trigger] request.samples@[i];
                &&& sample.sample_id@.len() > 0
                &&& sample.case_id@.len() > 0
                &&& request.mode == Mode::Diagnostic ==> sample.phase@ == "diagnostic"@
                &&& request.mode == Mode::Performance ==> is_timing_phase(sample.phase@)
            },
        forall|i: int, j: int|
            #![trigger request.samples@[i], request.samples@[j]]
            0 <= i < j < request.samples@.len() ==> request.samples@[i].sample_id@
                != request.samples@[j].sample_id@,
{
    let samples = request.samples@;
    assert forall|i: int| 0 <= i < samples.len() implies sample_problem(
        samples,
        i,
        request.mode,
    ) is None by {
        if samples_problem(samples, i + 1, request.mode) is Some {
            lemma_samples_problem_stays(samples, i + 1, samples.len() as int, request.mode);
        }
    }
    assert forall|i: int| 0 <= i < samples.len() implies {
        let sample = #[trigger] samples[i];
        &&& sample.sample_id@.len() > 0
        &&& sample.case_id@.len() > 0
        &&& request.mode == Mode::Diagnostic ==> sample.phase@ == "diagnostic"@
        &&& request.mode == Mode::Performance ==> is_timing_phase(sample.phase@)
    } by {
        assert(sample_problem(samples, i, request.mode) is None);
    }
    assert forall|i: int, j: int|
        #![trigger samples[i], samples[j]]
        0 <= i < j < samples.len() implies samples[i].sample_id@ != samples[j].sample_id@ by {
        assert(sample_problem(samples, j, request.mode) is None);
    }
}

/// `phase` is one that a sample of a request in this mode may have.
pub open spec fn fits_mode(phase: Seq<char>, mode: Mode) -> bool {
    match mode {
        Mode::Diagnostic => phase == "diagnostic"@,
        Mode::Performance => phase == "pilot"@ || phase == "warmup"@ || phase == "qualification"@,
    }
}

proof fn lemma_phases_differ()
    ensures
        "diagnostic"@ != "pilot"@,
        "diagnostic"@ != "warmup"@,
        "diagnostic"@ != "qualification"@,
{
    reveal_strlit("diagnostic");
    reveal_strlit("pilot");
    reveal_strlit("warmup");
    reveal_strlit("qualification");
    assert("diagnostic"@.len() == 10);
    assert("pilot"@.len() == 5);
    assert("warmup"@.len() == 6);
    assert("qualification"@.len() == 13);
}

proof fn lemma_good_samples(samples: Seq<SampleSpec>, n: int, mode: Mode)
    requires
        0 <= n <= samples.len(),
        forall|i: int|
            0 <= i < n ==> (#[trigger] samples[i]).sample_id@.len() > 0
                && samples[i].case_id@.len() > 0 && fits_mode(samples[i].phase@, mode),
        forall|i: int, j: int|
            #![trigger samples[i], samples[j]]
            0 <= i < j < n ==> samples[i].sample_id@ != samples[j].sample_id@,
    ensures
        samples_problem(samples, n, mode) is None,
    decreases n,
{
    if n > 0 {
        lemma_good_samples(samples, n - 1, mode);
        lemma_phases_differ();
        assert(samples[n - 1].sample_id@.len() > 0);
    }
}

/// A request has nothing wrong with it: it has the right version, a path, a session and samples,
/// and each sample has an id of its own, names a case, and has a phase that fits the mode.
pub open spec fn is_good_request(request: Request) -> bool {
    &&& request.schema_version == 2
    &&& request.workload_path@.len() > 0
    &&& request.session_id@.len() > 0
    &&& request.samples@.len() > 0
    &&& forall|i: int|
        0 <= i < request.samples@.len() ==> (#[trigger] request.samples@[i]).sample_id@.len() > 0
            && request.samples@[i].case_id@.len() > 0 && fits_mode(
            request.samples@[i].phase@,
            request.mode,
        )
    &&& forall|i: int, j: int|
        #![trigger request.samples@[i], request.samples@[j]]
        0 <= i < j < request.samples@.len() ==> request.samples@[i].sample_id@
            != request.samples@[j].sample_id@
}

/// A request with nothing wrong is accepted.
pub proof fn law_good_requests_are_accepted(request: Request)
    requires
        is_good_request(request),
    ensures
        request_problem(request) is None,
{
    lemma_good_samples(request.samples@, request.samples@.len() as int, request.mode);
}

/// A request with a fault in itself is refused for the first: the version, then what is missing.
pub proof fn law_request_faults_are_named(request: Request)
    ensures
        request.schema_version != 2 ==> request_problem(request) == Some(
            "request schema_version "@ + crate::text::decimal_text(request.schema_version as nat)
                + " is unsupported; expected "@ + crate::text::decimal_text(2),
        ),
        request.schema_version == 2 && (request.workload_path@.len() == 0
            || request.session_id@.len() == 0 || request.samples@.len() == 0) ==> request_problem(
            request,
        ) == Some("request requires workload_path, session_id, and at least one sample"@),
{
}

/// A request with nothing wrong in itself is refused for its first faulty sample: for an empty id
/// or case, then for an id that an earlier sample has, then for an unknown phase, and then for one
/// that does not fit the mode.
pub proof fn law_the_first_faulty_sample_is_named(request: Request, n: int)
    requires
        request.schema_version == 2,
        request.workload_path@.len() > 0,
        request.session_id@.len() > 0,
        0 <= n < request.samples@.len(),
        forall|i: int|
            0 <= i < n ==> (#[trigger] request.samples@[i]).sample_id@.len() > 0
                && request.samples@[i].case_id@.len() > 0 && fits_mode(
                request.samples@[i].phase@,
                request.mode,
            ),
        forall|i: int, j: int|
            #![trigger request.samples@[i], request.samples@[j]]
            0 <= i < j < n ==> request.samples@[i].sample_id@ != request.samples@[j].sample_id@,
    ensures
        ({
            let sample = request.samples@[n];
            let missing = sample.sample_id@.len() == 0 || sample.case_id@.len() == 0;
            let repeated = exists|i: int|
                0 <= i < n && (#[trigger] request.samples@[i]).sample_id@ == sample.sample_id@;
            let known = fits_mode(sample.phase@, Mode::Diagnostic) || fits_mode(
                sample.phase@,
                Mode::Performance,
            );
            &&& missing ==> request_problem(request) == Some(
                "request samples require non-empty sample_id and case_id"@,
            )
            &&& !missing && repeated ==> request_problem(request) == Some(
                "duplicate sample_id "@ + crate::text::debug_text(sample.sample_id@),
            )
            &&& !missing && !repeated && !known ==> request_problem(request) == Some(
                "unknown sample phase "@ + crate::text::debug_text(sample.phase@),
            )
            &&& !missing && !repeated && known && !fits_mode(sample.phase@, request.mode)
                ==> request_problem(request) == Some(
                "sample "@ + crate::text::debug_text(sample.sample_id@) + " phase "@
                    + crate::text::debug_text(sample.phase@)
                    + " is incompatible with request mode "@ + match request.mode {
                    Mode::Diagnostic => "Diagnostic"@,
                    Mode::Performance => "Performance"@,
                },
            )
        }),
{
    let samples = request.samples@;
    lemma_phases_differ();
    lemma_good_samples(samples, n, request.mode);
    if samples_problem(samples, n + 1, request.mode) is Some {
        lemma_samples_problem_stays(samples, n + 1, samples.len() as int, request.mode);
    }
}

/// A request is accepted exactly where nothing is wrong with it.
pub proof fn law_validating_accepts_good_requests(
    request: &Request,
    result: Result<(), RequestError>,
)
    requires
        call_ensures(validate_request, (request,), result),
    ensures
        result is Ok <==> is_good_request(*request),
        result is Err ==> request_problem(*request) == Some(result->Err_0.message@),
{
    if result is Ok {
        law_accepted_request(*request);
    } else if is_good_request(*request) {
        law_good_requests_are_accepted(*request);
    }
}

} // verus!
