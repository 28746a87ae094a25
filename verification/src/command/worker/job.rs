//! A job of a worker: its input and what is told of it.
use crate::command::crf_search::Sample;
use crate::command::sample_encode::Status;
use crate::command::worker_protocol::{
    CrfSearchProgressPayload, CrfSearchResultPayload, EncoderParams, FailureContext,
    FailureReportPayload, JobAssignedPayload, ServerReply, TransferFailurePayload, TransferStage,
    WorkStatus,
};
use crate::float::{Double, Single};
use crate::path;
use crate::text;
use vstd::prelude::*;

verus! {

broadcast use vstd::string::group_string_axioms;

/// A job and where its input is.
#[derive(Debug, PartialEq, Eq)]
pub struct WorkerJob {
    pub assignment: JobAssignedPayload,
    pub input_dir: String,
    pub input_path: String,
}

/// The arguments of a crf search without the names of the program and of the
/// command.
pub open spec fn plain_args(args: Seq<Seq<char>>) -> Seq<Seq<char>> {
    let rest = if args.len() > 0 && args[0] == "ab-av1"@ {
        args.skip(1)
    } else {
        args
    };
    if rest.len() > 0 && rest[0] == "crf-search"@ {
        rest.skip(1)
    } else {
        rest
    }
}

/// The arguments behind one name of the command.
pub open spec fn command_args(args: Seq<Seq<char>>) -> Seq<Seq<char>> {
    seq!["crf-search"@] + plain_args(args)
}

/// What the server's arguments name at their front makes no difference: with
/// and without the name of the command they come to the same.
pub proof fn law_command_args_idempotent(args: Seq<Seq<char>>)
    ensures
        command_args(command_args(args)) == command_args(args),
{
    reveal_strlit("ab-av1");
    reveal_strlit("crf-search");
    let once = command_args(args);
    assert(once[0] == "crf-search"@);
    assert("crf-search"@.len() != "ab-av1"@.len());
    assert(once.skip(1) =~= plain_args(args));
}

/// Whether a report has all that is told of an attempt of a job.
pub open spec fn result_of(
    p: CrfSearchResultPayload,
    job: WorkerJob,
    sample: Sample,
    time_secs: Double,
    chosen: bool,
) -> bool {
    &&& p.job_id == job.assignment.job_id
    &&& p.video_id == job.assignment.video_id
    &&& p.source_name == job.assignment.source_name
    &&& p.crf == sample.crf
    &&& p.vmaf_score == sample.enc.vmaf_score
    &&& p.xpsnr_score == sample.enc.xpsnr_score
    &&& p.predicted_encode_size == sample.enc.predicted_encode_size
    &&& p.encode_percent == sample.enc.encode_percent
    &&& p.predicted_encode_time_secs == time_secs
    &&& p.from_cache == sample.enc.from_cache
    &&& p.score == sample.enc.one_score()
    &&& p.percent == sample.enc.encode_percent
    &&& p.size == sample.enc.predicted_encode_size
    &&& p.time == time_secs
    &&& p.params.encoder@ == "libsvtav1"@
    &&& p.params.preset == 8
    &&& p.target == job.assignment.target_vmaf
    &&& p.chosen == chosen
}

impl WorkerJob {
    /// The job with its input at this place.
    pub fn new(assignment: JobAssignedPayload, input_dir: String, input_path: String) -> (r: Self)
        ensures
            r.assignment == assignment,
            r.input_dir == input_dir,
            r.input_path == input_path,
    {
        Self { assignment, input_dir, input_path }
    }

    /// Where the input is.
    pub fn input_path(&self) -> (r: &str)
        ensures
            r@ == self.input_path@,
    {
        self.input_path.as_str()
    }

    /// The command line of the job's crf search. The server has to give one.
    pub fn crf_search_argv(&self) -> (r: Result<Vec<String>, String>)
        ensures
            match r {
                Ok(argv) => self.assignment.crf_search_args@.len() > 0 && text::views(argv@)
                    == command_args(text::views(self.assignment.crf_search_args@)),
                Err(e) => self.assignment.crf_search_args@.len() == 0 && e@ == "job "@
                    + self.assignment.job_id@
                    + " missing crf_search_args; server must provide CRF search arguments"@,
            },
    {
        let args = &self.assignment.crf_search_args;
        if args.len() == 0 {
            return Err(
                text::cat3(
                    "job ",
                    self.assignment.job_id.as_str(),
                    " missing crf_search_args; server must provide CRF search arguments",
                ),
            );
        }
        let ghost all = text::views(args@);
        let mut from: usize = 0;
        if text::same(args[0].as_str(), "ab-av1") {
            from = 1;
        }
        let ghost rest = all.skip(from as int);
        assert(all.skip(0) =~= all);
        if from < args.len() && text::same(args[from].as_str(), "crf-search") {
            assert(rest[0] == all[from as int]);
            assert(rest.skip(1) =~= all.skip(from + 1));
            from += 1;
        } else {
            assert(rest.len() > 0 ==> rest[0] == all[from as int]);
        }
        assert(plain_args(all) =~= all.skip(from as int));
        let mut argv: Vec<String> = Vec::new();
        argv.push("crf-search".to_owned());
        assert(text::views(argv@) =~= seq!["crf-search"@]);
        let mut i: usize = from;
        while i < args.len()
            invariant
                from <= i <= args.len(),
                all == text::views(args@),
                text::views(argv@) =~= seq!["crf-search"@] + all.subrange(from as int, i as int),
            decreases args.len() - i,
        {
            let ghost before = text::views(argv@);
            argv.push(args[i].clone());
            assert(text::views(argv@) =~= before.push(all[i as int]));
            i += 1;
        }
        assert(all.subrange(from as int, i as int) =~= all.skip(from as int));
        Ok(argv)
    }

    /// How far the search has come. `percent` is the status's progress in
    /// percent, between 0 and 100.
    pub fn progress_payload(&self, crf: Single, status: &Status, percent: Single) -> (r:
        CrfSearchProgressPayload)
        ensures
            r.video_id == self.assignment.video_id,
            r.percent == percent,
            r.filename == self.assignment.source_name,
            r.eta is None,
            r.fps == status.fps,
            r.crf == crf,
            r.sample_num == status.sample,
            r.total_samples == status.samples,
    {
        CrfSearchProgressPayload {
            video_id: self.assignment.video_id,
            percent,
            filename: self.assignment.source_name.clone(),
            eta: None,
            fps: status.fps,
            crf,
            sample_num: status.sample,
            total_samples: status.samples,
        }
    }

    /// The result of an attempt. `time_secs` is the predicted time in seconds.
    pub fn crf_result_payload(&self, sample: &Sample, time_secs: Double, chosen: bool) -> (r:
        CrfSearchResultPayload)
        ensures
            result_of(r, *self, *sample, time_secs, chosen),
    {
        CrfSearchResultPayload {
            job_id: self.assignment.job_id.clone(),
            video_id: self.assignment.video_id,
            source_name: self.assignment.source_name.clone(),
            crf: sample.crf,
            vmaf_score: sample.enc.vmaf_score,
            xpsnr_score: sample.enc.xpsnr_score,
            predicted_encode_size: sample.enc.predicted_encode_size,
            encode_percent: sample.enc.encode_percent,
            predicted_encode_time_secs: time_secs,
            from_cache: sample.enc.from_cache,
            score: sample.enc.single_score(),
            percent: sample.enc.encode_percent,
            size: sample.enc.predicted_encode_size,
            time: time_secs,
            params: EncoderParams { encoder: "libsvtav1".to_owned(), preset: 8 },
            target: self.assignment.target_vmaf,
            chosen,
        }
    }

    /// The failure of the job, by the message of the error and by that of it
    /// and all its causes.
    pub fn failure_payload(&self, message: &str, chain: &str) -> (r: FailureReportPayload)
        ensures
            r.video_id == self.assignment.video_id,
            r.stage@ == "crf_search"@,
            r.category@ == "process_failure"@,
            r.message@ == message@,
            r.code@ == "worker_crf_search_failed"@,
            r.context.job_id == self.assignment.job_id,
            r.context.source_name == self.assignment.source_name,
            r.context.error_chain@ == chain@,
            !r.retriable,
            r.stderr_excerpt matches Some(e) && e@ == chain@,
    {
        FailureReportPayload {
            video_id: self.assignment.video_id,
            stage: "crf_search".to_owned(),
            category: "process_failure".to_owned(),
            message: message.to_owned(),
            code: "worker_crf_search_failed".to_owned(),
            context: FailureContext {
                job_id: self.assignment.job_id.clone(),
                source_name: self.assignment.source_name.clone(),
                error_chain: chain.to_owned(),
            },
            retriable: false,
            stderr_excerpt: Some(chain.to_owned()),
        }
    }

    /// The input that is to be removed when the job is done: none where it is
    /// the user's own file.
    pub fn input_to_remove(&self, local_path: &Option<String>) -> (r: Option<&str>)
        ensures
            match r {
                Some(p) => local_path is None && p@ == self.input_path@,
                None => local_path is Some,
            },
    {
        if local_path.is_some() {
            None
        } else {
            Some(self.input_path.as_str())
        }
    }

    /// The report of a job in progress whose input is missing.
    pub fn missing_input_report(&self) -> (r: TransferFailurePayload)
        ensures
            r.job_id == self.assignment.job_id,
            r.stage == TransferStage::ReceiveChunk,
            r.retriable,
            r.reason@ == "worker input is missing at "@ + self.input_path@
                + "; worker cannot resume job_in_progress without local file"@,
    {
        TransferFailurePayload {
            job_id: self.assignment.job_id.clone(),
            stage: TransferStage::ReceiveChunk,
            retriable: true,
            reason: text::cat3(
                "worker input is missing at ",
                self.input_path.as_str(),
                "; worker cannot resume job_in_progress without local file",
            ),
        }
    }
}

/// Why the server's answer to a report of a missing input is no use, if it is
/// not.
pub open spec fn resend_refusal(job_id: Seq<char>, reply: ServerReply) -> Option<Seq<char>> {
    match reply {
        ServerReply::NoWork(_) => Some(
            "server returned no_work after input_missing for job "@ + job_id,
        ),
        ServerReply::JobAssigned(a) => if a.job_id@ != job_id {
            Some(
                "server reassigned job "@ + a.job_id@ + " after input_missing for job "@ + job_id,
            )
        } else if a.status != WorkStatus::JobAssigned {
            Some(
                "server kept job "@ + a.job_id@ + " in "@ + a.status.name()
                    + " after input_missing; refusing to wait without transfer"@,
            )
        } else {
            None
        },
    }
}

/// Takes the server's answer to a report of a missing input: the same job, newly
/// assigned.
pub fn accept_resend(job_id: &str, reply: ServerReply) -> (r: Result<JobAssignedPayload, String>)
    ensures
        match (resend_refusal(job_id@, reply), r) {
            (None, Ok(a)) => reply == ServerReply::JobAssigned(a),
            (Some(m), Err(e)) => e@ == m,
            _ => false,
        },
{
    match reply {
        ServerReply::NoWork(_) => Err(
            text::cat2("server returned no_work after input_missing for job ", job_id),
        ),
        ServerReply::JobAssigned(a) => {
            if !text::same(a.job_id.as_str(), job_id) {
                return Err(
                    text::cat4(
                        "server reassigned job ",
                        a.job_id.as_str(),
                        " after input_missing for job ",
                        job_id,
                    ),
                );
            }
            match a.status {
                WorkStatus::JobAssigned => Ok(a),
                _ => {
                    let mut out = text::cat4(
                        "server kept job ",
                        a.job_id.as_str(),
                        " in ",
                        a.status.as_str(),
                    );
                    out.append(" after input_missing; refusing to wait without transfer");
                    Err(out)
                },
            }
        },
    }
}

// ---- inputs ----

/// The directory of a job's input, in the directory of the process.
pub fn worker_job_input_dir(current_dir: &str, job_id: &str) -> (r: String)
    ensures
        r@ == path::joined(current_dir@, "ab-av1-worker-"@ + job_id@),
{
    let name = text::cat2("ab-av1-worker-", job_id);
    path::path_join(current_dir, name.as_str())
}

/// The first argument behind an `--input`.
pub open spec fn input_arg(args: Seq<Seq<char>>, i: int) -> Option<Seq<char>>
    decreases args.len() - i,
{
    if i < 0 || i + 1 >= args.len() {
        None
    } else if args[i] == "--input"@ {
        Some(args[i + 1])
    } else {
        input_arg(args, i + 1)
    }
}

/// The name of a job's source: that of its file, else that of the file that
/// the search is told to read.
pub open spec fn source_file(source_name: Seq<char>, args: Seq<Seq<char>>) -> Option<Seq<char>> {
    match path::file_name(source_name) {
        Some(name) => Some(name),
        None => match input_arg(args, 0) {
            Some(arg) => path::file_name(arg),
            None => None,
        },
    }
}

fn find_input_arg(args: &[String]) -> (r: Option<&String>)
    ensures
        match r {
            Some(a) => input_arg(text::views(args@), 0) == Some(a@),
            None => input_arg(text::views(args@), 0) is None,
        },
{
    let ghost all = text::views(args@);
    let mut i: usize = 0;
    while i < args.len() && i + 1 < args.len()
        invariant
            i <= args.len(),
            all == text::views(args@),
            input_arg(all, 0) == input_arg(all, i as int),
        decreases args.len() - i,
    {
        if text::same(args[i].as_str(), "--input") {
            return Some(&args[i + 1]);
        }
        i += 1;
    }
    None
}

/// The name of a job's source.
pub fn worker_source_file_name(assignment: &JobAssignedPayload) -> (r: Result<String, String>)
    ensures
        match (source_file(assignment.source_name@, text::views(assignment.crf_search_args@)), r) {
            (Some(name), Ok(n)) => n@ == name,
            (None, Err(e)) => e@ == "job "@ + assignment.job_id@
                + " has no source filename in source_name or crf_search_args --input"@,
            _ => false,
        },
{
    if let Some(name) = path::path_file_name(assignment.source_name.as_str()) {
        return Ok(name);
    }
    let named = match find_input_arg(assignment.crf_search_args.as_slice()) {
        Some(arg) => path::path_file_name(arg.as_str()),
        None => None,
    };
    match named {
        Some(name) => Ok(name),
        None => Err(
            text::cat3(
                "job ",
                assignment.job_id.as_str(),
                " has no source filename in source_name or crf_search_args --input",
            ),
        ),
    }
}

/// Something in the directory of a job.
#[derive(Debug, PartialEq, Eq)]
pub struct DirEntry {
    pub path: String,
    pub is_file: bool,
    pub len: u64,
}

/// Whether an entry can be the complete input of a job.
pub open spec fn may_be_input(entry: DirEntry, size: u64) -> bool {
    entry.is_file && entry.len == size && path::file_name(entry.path@) != Some(
        ".ab-av1-worker.part"@,
    )
}

/// The entries that can be the input, in order.
pub open spec fn candidates(entries: Seq<DirEntry>, size: u64) -> Seq<Seq<char>>
    decreases entries.len(),
{
    if entries.len() == 0 {
        Seq::empty()
    } else if may_be_input(entries.last(), size) {
        candidates(entries.drop_last(), size).push(entries.last().path@)
    } else {
        candidates(entries.drop_last(), size)
    }
}

/// Where the input of a job is or will be: under the name of its source, unless
/// that is not there and a single other file can be the input.
pub open spec fn chosen_input(
    expected: Seq<char>,
    expected_exists: bool,
    entries: Seq<DirEntry>,
    size: u64,
) -> Seq<char> {
    let found = candidates(entries, size);
    if !expected_exists && found.len() == 1 {
        found[0]
    } else {
        expected
    }
}

/// Chooses the input of a job among what its directory holds.
pub fn worker_job_input_path(
    expected: &str,
    expected_exists: bool,
    entries: &[DirEntry],
    size_bytes: u64,
) -> (r: String)
    ensures
        r@ == chosen_input(expected@, expected_exists, entries@, size_bytes),
{
    if expected_exists {
        return expected.to_owned();
    }
    let mut found: Option<usize> = None;
    let mut many = false;
    let mut i: usize = 0;
    while i < entries.len()
        invariant
            i <= entries.len(),
            match found {
                None => candidates(entries@.take(i as int), size_bytes).len() == 0 && !many,
                Some(at) => {
                    let c = candidates(entries@.take(i as int), size_bytes);
                    &&& at < i
                    &&& c.len() > 0
                    &&& c[0] == entries@[at as int].path@
                    &&& many == (c.len() > 1)
                },
            },
        decreases entries.len() - i,
    {
        proof {
            assert(entries@.take(i + 1).drop_last() =~= entries@.take(i as int));
            assert(entries@.take(i + 1).last() == entries@[i as int]);
        }
        let entry = &entries[i];
        let partial = match path::path_file_name(entry.path.as_str()) {
            Some(name) => text::same(name.as_str(), ".ab-av1-worker.part"),
            None => false,
        };
        if entry.is_file && entry.len == size_bytes && !partial {
            if found.is_some() {
                many = true;
            } else {
                found = Some(i);
            }
        }
        i += 1;
    }
    assert(entries@.take(i as int) =~= entries@);
    match found {
        Some(at) => if many {
            expected.to_owned()
        } else {
            entries[at].path.clone()
        },
        None => expected.to_owned(),
    }
}

/// Where the input of a job is expected: in the job's directory, under the name
/// of its source.
pub fn expected_input(input_dir: &str, assignment: &JobAssignedPayload) -> (r: Result<String, String>)
    ensures
        match (source_file(assignment.source_name@, text::views(assignment.crf_search_args@)), r) {
            (Some(name), Ok(p)) => p@ == path::joined(input_dir@, name),
            (None, Err(e)) => e@ == "job "@ + assignment.job_id@
                + " has no source filename in source_name or crf_search_args --input"@,
            _ => false,
        },
{
    match worker_source_file_name(assignment) {
        Ok(name) => Ok(path::path_join(input_dir, name.as_str())),
        Err(e) => Err(e),
    }
}

/// The job of an assignment. Its input is the user's own file where there is
/// one, else it is chosen among what the job's directory holds.
pub fn build_worker_job(
    assignment: JobAssignedPayload,
    input_dir: String,
    local_path: &Option<String>,
    expected_exists: bool,
    entries: &[DirEntry],
) -> (r: Result<WorkerJob, String>)
    ensures
        match r {
            Ok(job) => {
                &&& job.assignment == assignment
                &&& job.input_dir == input_dir
                &&& job.input_path@ == (match *local_path {
                    Some(p) => p@,
                    None => chosen_input(
                        path::joined(
                            input_dir@,
                            source_file(
                                assignment.source_name@,
                                text::views(assignment.crf_search_args@),
                            )->0,
                        ),
                        expected_exists,
                        entries@,
                        assignment.size_bytes,
                    ),
                })
            },
            Err(e) => e@ == "job "@ + assignment.job_id@
                + " has no source filename in source_name or crf_search_args --input"@,
        },
        r is Ok <==> local_path is Some || source_file(
            assignment.source_name@,
            text::views(assignment.crf_search_args@),
        ) is Some,
{
    let input_path = match local_path {
        Some(p) => p.clone(),
        None => match expected_input(input_dir.as_str(), &assignment) {
            Ok(expected) => worker_job_input_path(
                expected.as_str(),
                expected_exists,
                entries,
                assignment.size_bytes,
            ),
            Err(e) => return Err(e),
        },
    };
    Ok(WorkerJob::new(assignment, input_dir, input_path))
}

// ---- phases ----

/// How an input comes to a worker.
#[derive(Debug, Clone, Copy, PartialEq, Eq, Structural)]
pub enum InputDelivery {
    Http,
    Resend,
    Websocket,
}

/// How far a job is.
#[derive(Debug, Clone, Copy, PartialEq, Eq, Structural)]
pub enum WorkerJobPhase {
    AwaitingInput(InputDelivery),
    InputReady,
    CrfSearching,
}

/// How far a job is, by whether its input is there and is the user's own file.
/// `None` stands for a job without work, or for a file of the user's that is
/// missing.
pub open spec fn phase_of(assignment: JobAssignedPayload, local: bool, present: bool) -> Option<
    WorkerJobPhase,
> {
    if present {
        match assignment.status {
            WorkStatus::JobAssigned => Some(WorkerJobPhase::InputReady),
            WorkStatus::JobInProgress => Some(WorkerJobPhase::CrfSearching),
            WorkStatus::NoWork => None,
        }
    } else if local {
        None
    } else if assignment.transfer is Some {
        Some(WorkerJobPhase::AwaitingInput(InputDelivery::Http))
    } else {
        match assignment.status {
            WorkStatus::JobAssigned => Some(
                WorkerJobPhase::AwaitingInput(InputDelivery::Websocket),
            ),
            WorkStatus::JobInProgress => Some(WorkerJobPhase::AwaitingInput(InputDelivery::Resend)),
            WorkStatus::NoWork => None,
        }
    }
}

/// How far a job is.
pub fn worker_job_phase(job: &WorkerJob, local: bool, present: bool) -> (r: Result<
    WorkerJobPhase,
    String,
>)
    ensures
        match (phase_of(job.assignment, local, present), r) {
            (Some(phase), Ok(p)) => p == phase,
            (None, Err(e)) => e@ == (if !present && local {
                "local input path does not exist: "@ + job.input_path@
            } else {
                "assigned job "@ + job.assignment.job_id@ + " has invalid no_work status"@
            }),
            _ => false,
        },
{
    if present {
        return match job.assignment.status {
            WorkStatus::JobAssigned => Ok(WorkerJobPhase::InputReady),
            WorkStatus::JobInProgress => Ok(WorkerJobPhase::CrfSearching),
            WorkStatus::NoWork => Err(no_work_error(job)),
        };
    }
    if local {
        return Err(text::cat2("local input path does not exist: ", job.input_path.as_str()));
    }
    if job.assignment.transfer.is_some() {
        return Ok(WorkerJobPhase::AwaitingInput(InputDelivery::Http));
    }
    match job.assignment.status {
        WorkStatus::JobAssigned => Ok(WorkerJobPhase::AwaitingInput(InputDelivery::Websocket)),
        WorkStatus::JobInProgress => Ok(WorkerJobPhase::AwaitingInput(InputDelivery::Resend)),
        WorkStatus::NoWork => Err(no_work_error(job)),
    }
}

fn no_work_error(job: &WorkerJob) -> (r: String)
    ensures
        r@ == "assigned job "@ + job.assignment.job_id@ + " has invalid no_work status"@,
{
    text::cat3("assigned job ", job.assignment.job_id.as_str(), " has invalid no_work status")
}

/// A job's arguments are run as they are: only the names of the program and of
/// the command are taken off their front, and the command is put there.
pub proof fn law_command_runs_given_args(args: Seq<Seq<char>>)
    ensures
        ({
            let run = command_args(args);
            let n = args.len() - (run.len() - 1);
            &&& run.len() >= 1
            &&& run[0] == "crf-search"@
            &&& 0 <= n <= 2
            &&& run.skip(1) == args.skip(n)
            &&& n == 2 ==> args[0] == "ab-av1"@ && args[1] == "crf-search"@
            &&& n == 1 ==> (args[0] == "ab-av1"@ && !(args.len() > 1 && args[1] == "crf-search"@))
                || args[0] == "crf-search"@
            &&& n == 0 ==> args.len() == 0 || args[0] != "ab-av1"@ && args[0] != "crf-search"@
        }),
{
    reveal_strlit("ab-av1");
    reveal_strlit("crf-search");
    assert("ab-av1"@.len() == 6 && "crf-search"@.len() == 10);
    let run = command_args(args);
    assert(run.skip(1) =~= plain_args(args));
    assert(args.skip(0) =~= args);
    assert(args.len() > 1 ==> args.skip(1)[0] == args[1]);
    assert(args.len() >= 2 ==> args.skip(1).skip(1) =~= args.skip(2));
}

/// A worker waits for an input that it asked for again only where the server
/// assigns the same job anew.
pub proof fn law_resend_accepted_iff(job_id: Seq<char>, reply: ServerReply)
    ensures
        resend_refusal(job_id, reply) is None <==> (reply matches ServerReply::JobAssigned(a)
            && a.job_id@ == job_id && a.status == WorkStatus::JobAssigned),
{
}

proof fn lemma_input_arg(args: Seq<Seq<char>>, i: int, k: int)
    requires
        0 <= i <= k,
        k + 1 < args.len(),
        args[k] == "--input"@,
        forall|j: int| i <= j < k ==> args[j] != "--input"@,
    ensures
        input_arg(args, i) == Some(args[k + 1]),
    decreases k - i,
{
    if i < k {
        lemma_input_arg(args, i + 1, k);
    }
}

proof fn lemma_no_input_arg(args: Seq<Seq<char>>, i: int)
    requires
        0 <= i,
        forall|j: int| i <= j && j + 1 < args.len() ==> #[trigger] args[j] != "--input"@,
    ensures
        input_arg(args, i) is None,
    decreases args.len() - i,
{
    if i + 1 < args.len() {
        lemma_no_input_arg(args, i + 1);
    }
}

/// An input is called by the name of its source; where that has none, by that of
/// the first input among the arguments; and else by none.
pub proof fn law_source_names_the_input(source_name: Seq<char>, args: Seq<Seq<char>>, k: int)
    ensures
        path::file_name(source_name) is Some ==> source_file(source_name, args) == path::file_name(
            source_name,
        ),
        path::file_name(source_name) is None && 0 <= k && k + 1 < args.len() && args[k]
            == "--input"@ && (forall|j: int| 0 <= j < k ==> args[j] != "--input"@) ==> source_file(
            source_name,
            args,
        ) == path::file_name(args[k + 1]),
        path::file_name(source_name) is None && !args.contains("--input"@) ==> source_file(
            source_name,
            args,
        ) is None,
{
    if 0 <= k && k + 1 < args.len() && args[k] == "--input"@ && (forall|j: int|
        0 <= j < k ==> args[j] != "--input"@) {
        lemma_input_arg(args, 0, k);
    }
    if !args.contains("--input"@) {
        assert forall|j: int| 0 <= j && j + 1 < args.len() implies #[trigger] args[j]
            != "--input"@ by {
            assert(args.contains(args[j]));
        }
        lemma_no_input_arg(args, 0);
    }
}

proof fn lemma_no_candidate(entries: Seq<DirEntry>, size: u64)
    requires
        forall|i: int| 0 <= i < entries.len() ==> !may_be_input(#[trigger] entries[i], size),
    ensures
        candidates(entries, size).len() == 0,
    decreases entries.len(),
{
    if entries.len() > 0 {
        assert(!may_be_input(entries[entries.len() - 1], size));
        assert forall|i: int| 0 <= i < entries.drop_last().len() implies !may_be_input(
            #[trigger] entries.drop_last()[i],
            size,
        ) by {
            assert(entries.drop_last()[i] == entries[i]);
        }
        lemma_no_candidate(entries.drop_last(), size);
    }
}

proof fn lemma_one_candidate(entries: Seq<DirEntry>, size: u64, i: int)
    requires
        0 <= i < entries.len(),
        may_be_input(entries[i], size),
        forall|j: int|
            0 <= j < entries.len() && j != i ==> !may_be_input(#[trigger] entries[j], size),
    ensures
        candidates(entries, size) == seq![entries[i].path@],
    decreases entries.len(),
{
    let front = entries.drop_last();
    let n = entries.len() - 1;
    assert forall|j: int| 0 <= j < front.len() && j != i implies !may_be_input(
        #[trigger] front[j],
        size,
    ) by {
        assert(front[j] == entries[j]);
    }
    if i < n {
        assert(!may_be_input(entries[n], size));
        assert(front[i] == entries[i]);
        lemma_one_candidate(front, size, i);
    } else {
        lemma_no_candidate(front, size);
        assert(candidates(entries, size) =~= seq![entries[i].path@]);
    }
}

proof fn lemma_a_candidate(entries: Seq<DirEntry>, size: u64, i: int)
    requires
        0 <= i < entries.len(),
        may_be_input(entries[i], size),
    ensures
        candidates(entries, size).len() >= 1,
    decreases entries.len(),
{
    let front = entries.drop_last();
    if i < front.len() {
        assert(front[i] == entries[i]);
        lemma_a_candidate(front, size, i);
    }
}

proof fn lemma_two_candidates(entries: Seq<DirEntry>, size: u64, i: int, j: int)
    requires
        0 <= i < j < entries.len(),
        may_be_input(entries[i], size),
        may_be_input(entries[j], size),
    ensures
        candidates(entries, size).len() >= 2,
    decreases entries.len(),
{
    let front = entries.drop_last();
    assert(front[i] == entries[i]);
    if j < front.len() {
        assert(front[j] == entries[j]);
        lemma_two_candidates(front, size, i, j);
    } else {
        lemma_a_candidate(front, size, i);
    }
}

/// The input is looked for where it is expected. Where it is not there, another
/// file of its size takes its place, but only where there is one alone and it is
/// not a part that is still being received.
pub proof fn law_input_found_by_size(
    expected: Seq<char>,
    expected_exists: bool,
    entries: Seq<DirEntry>,
    size: u64,
)
    ensures
        expected_exists ==> chosen_input(expected, expected_exists, entries, size) == expected,
        forall|i: int|
            !expected_exists && 0 <= i < entries.len() && #[trigger] may_be_input(entries[i], size)
                && (forall|j: int|
                0 <= j < entries.len() && j != i ==> !may_be_input(#[trigger] entries[j], size))
                ==> chosen_input(expected, expected_exists, entries, size) == entries[i].path@,
        (forall|i: int| 0 <= i < entries.len() ==> !may_be_input(#[trigger] entries[i], size))
            ==> chosen_input(expected, expected_exists, entries, size) == expected,
        forall|i: int, j: int|
            0 <= i < j < entries.len() && #[trigger] may_be_input(entries[i], size)
                && #[trigger] may_be_input(entries[j], size) ==> chosen_input(
                expected,
                expected_exists,
                entries,
                size,
            ) == expected,
        forall|e: DirEntry| #[trigger]
            may_be_input(e, size) ==> e.is_file && e.len == size && path::file_name(e.path@) != Some(
                ".ab-av1-worker.part"@,
            ),
        forall|e: DirEntry|
            e.is_file && e.len == size && path::file_name(e.path@) != Some(".ab-av1-worker.part"@)
                ==> #[trigger] may_be_input(e, size),
{
    assert forall|i: int|
        !expected_exists && 0 <= i < entries.len() && #[trigger] may_be_input(entries[i], size) && (
        forall|j: int|
            0 <= j < entries.len() && j != i ==> !may_be_input(
                #[trigger] entries[j],
                size,
            )) implies chosen_input(expected, expected_exists, entries, size) == entries[i].path@ by {
        lemma_one_candidate(entries, size, i);
    }
    if forall|i: int| 0 <= i < entries.len() ==> !may_be_input(#[trigger] entries[i], size) {
        lemma_no_candidate(entries, size);
    }
    assert forall|i: int, j: int|
        0 <= i < j < entries.len() && #[trigger] may_be_input(entries[i], size)
            && #[trigger] may_be_input(entries[j], size) implies chosen_input(
        expected,
        expected_exists,
        entries,
        size,
    ) == expected by {
        lemma_two_candidates(entries, size, i, j);
    }
}

/// A job whose input is there is never waited for: it is run from the start or
/// taken up again, as the server says. One whose input is missing is fetched:
/// over HTTP where the server offers that, else as the server sends it. An input
/// that has to be local is never fetched.
pub proof fn law_phase_by_input(assignment: JobAssignedPayload, local: bool, present: bool)
    ensures
        ({
            let phase = phase_of(assignment, local, present);
            &&& phase == Some(WorkerJobPhase::InputReady) <==> present && assignment.status
                == WorkStatus::JobAssigned
            &&& phase == Some(WorkerJobPhase::CrfSearching) <==> present && assignment.status
                == WorkStatus::JobInProgress
            &&& phase == Some(WorkerJobPhase::AwaitingInput(InputDelivery::Http)) <==> !present
                && !local && assignment.transfer is Some
            &&& phase == Some(WorkerJobPhase::AwaitingInput(InputDelivery::Websocket)) <==> !present
                && !local && assignment.transfer is None && assignment.status
                == WorkStatus::JobAssigned
            &&& phase == Some(WorkerJobPhase::AwaitingInput(InputDelivery::Resend)) <==> !present
                && !local && assignment.transfer is None && assignment.status
                == WorkStatus::JobInProgress
        }),
{
}

/// A result tells of the job it belongs to and of the attempt it is of: each
/// number stands in its own place, and the score, the size, the percentage and
/// the time once more under their short names.
pub proof fn law_result_tells_of_its_attempt(
    p: CrfSearchResultPayload,
    job: WorkerJob,
    sample: Sample,
    time_secs: Double,
    chosen: bool,
)
    requires
        result_of(p, job, sample, time_secs, chosen),
    ensures
        p.job_id@ == job.assignment.job_id@,
        p.video_id == job.assignment.video_id,
        p.source_name == job.assignment.source_name,
        p.crf == sample.crf,
        p.vmaf_score == sample.enc.vmaf_score,
        p.xpsnr_score == sample.enc.xpsnr_score,
        p.predicted_encode_size == sample.enc.predicted_encode_size,
        p.size == p.predicted_encode_size,
        p.encode_percent == sample.enc.encode_percent,
        p.percent == p.encode_percent,
        p.predicted_encode_time_secs == time_secs,
        p.time == p.predicted_encode_time_secs,
        p.from_cache == sample.enc.from_cache,
        sample.enc.vmaf_score is Some ==> p.score == sample.enc.vmaf_score->0,
        sample.enc.vmaf_score is None && sample.enc.xpsnr_score is Some ==> p.score
            == sample.enc.xpsnr_score->0,
        p.target == job.assignment.target_vmaf,
        p.chosen == chosen,
        p.params.encoder@ == "libsvtav1"@,
        p.params.preset == 8,
{
}

} // verus!
