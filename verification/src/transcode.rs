//! The transcode pass: which files are lossless, what the encoder is asked
//! to do with each, and in which order the encodings are started and
//! awaited so that no more than a fixed number run at once.

use crate::file_sorter::{FileSorter, WalkEntry, WalkEntryView};
use crate::path::{extension, extension_of, file_name, file_name_of, replace_extension, with_extension};
use vstd::prelude::*;

verus! {

/// How many encodings may run at once.
pub const TRANSCODE_LIMIT: usize = 18;

/// One call of the encoder: the lossless file, and the compressed file
/// beside it that the encoder is to write.
#[derive(Debug, Clone, PartialEq, Eq)]
pub struct EncodeJob {
    pub input: String,
    pub output: String,
}

/// What an `EncodeJob` holds.
pub struct EncodeJobView {
    pub input: Seq<char>,
    pub output: Seq<char>,
}

/// What follows an encoding.
#[derive(Debug, Clone, PartialEq, Eq)]
pub enum AfterEncode {
    /// The encoder succeeded: the lossless file is deleted.
    RemoveSource(String),
    /// The encoder failed: the lossless file stays, and the failure is reported.
    ReportFailure { input: String, output: String },
}

/// What an `AfterEncode` holds.
pub enum AfterEncodeView {
    RemoveSource(Seq<char>),
    ReportFailure { input: Seq<char>, output: Seq<char> },
}

/// One step of the schedule. Jobs are numbered from 0 in the order of the walk.
#[derive(Debug, Clone, Copy, PartialEq, Eq)]
pub enum TranscodeStep {
    /// Start the encoding of this job.
    Launch(usize),
    /// Wait until the encoding of this job has ended.
    Wait(usize),
    /// Every job was started and awaited.
    Finished,
}

/// The sliding window over the jobs: jobs below `awaited` have ended, jobs
/// from `awaited` up to `launched` are running, the others were not started.
#[derive(Debug, Clone, Copy, PartialEq, Eq)]
pub struct TranscodeWindow {
    pub total: usize,
    pub limit: usize,
    pub launched: usize,
    pub awaited: usize,
}

/// The jobs of a transcode pass and the order of their steps.
#[derive(Debug, Clone, PartialEq, Eq)]
pub struct TranscodePlan {
    pub jobs: Vec<EncodeJob>,
    pub steps: Vec<TranscodeStep>,
}

impl View for EncodeJob {
    type V = EncodeJobView;

    open spec fn view(&self) -> EncodeJobView {
        EncodeJobView { input: self.input@, output: self.output@ }
    }
}

impl DeepView for EncodeJob {
    type V = EncodeJobView;

    open spec fn deep_view(&self) -> EncodeJobView {
        self@
    }
}

impl View for AfterEncode {
    type V = AfterEncodeView;

    open spec fn view(&self) -> AfterEncodeView {
        match self {
            AfterEncode::RemoveSource(input) => AfterEncodeView::RemoveSource(input@),
            AfterEncode::ReportFailure { input, output } => AfterEncodeView::ReportFailure {
                input: input@,
                output: output@,
            },
        }
    }
}

/// The extension `flac`.
pub open spec fn flac() -> Seq<char> {
    seq!['f', 'l', 'a', 'c']
}

/// The extension `m4a`.
pub open spec fn m4a() -> Seq<char> {
    seq!['m', '4', 'a']
}

/// The extension `mp3`.
pub open spec fn mp3() -> Seq<char> {
    seq!['m', 'p', '3']
}

/// The file at `p` is in one of the two lossless formats, by its extension.
pub open spec fn is_lossless(p: Seq<char>) -> bool {
    let ext = extension_of(file_name_of(p));
    ext == Some(flac()) || ext == Some(m4a())
}

/// The entry is a file in a lossless format.
pub open spec fn is_lossless_file(e: WalkEntryView) -> bool {
    !e.is_dir && is_lossless(e.path)
}

/// The paths of the lossless files of a walk, in the order of the walk.
pub open spec fn lossless_of(entries: Seq<WalkEntryView>) -> Seq<Seq<char>> {
    entries.filter(|e: WalkEntryView| is_lossless_file(e)).map_values(|e: WalkEntryView| e.path)
}

/// The encoding of the file at `p`: the output stands beside it, with the
/// extension `mp3`.
pub open spec fn encode_job_for(p: Seq<char>) -> EncodeJobView {
    EncodeJobView { input: p, output: with_extension(p, mp3()) }
}

/// The arguments that the encoder is started with: the input, a bitrate of
/// 320k, the output.
pub open spec fn encoder_arguments(job: EncodeJobView) -> Seq<Seq<char>> {
    seq![seq!['-', 'i'], job.input, seq!['-', 'a', 'b'], seq!['3', '2', '0', 'k'], job.output]
}

/// What follows an encoding that succeeded (`encoded`) or failed.
pub open spec fn after_encode(job: EncodeJobView, encoded: bool) -> AfterEncodeView {
    if encoded {
        AfterEncodeView::RemoveSource(job.input)
    } else {
        AfterEncodeView::ReportFailure { input: job.input, output: job.output }
    }
}

impl TranscodeWindow {
    /// The window before any step, over `total` jobs.
    pub open spec fn initial(total: usize, limit: usize) -> TranscodeWindow {
        TranscodeWindow { total, limit, launched: 0, awaited: 0 }
    }

    /// The window's invariant: at least one job may run, what was awaited
    /// was launched, and no more jobs run than the limit allows.
    pub open spec fn wf(self) -> bool {
        &&& self.limit >= 1
        &&& self.awaited <= self.launched <= self.total
        &&& self.launched - self.awaited <= self.limit
    }

    /// Every job was launched and awaited.
    pub open spec fn finished(self) -> bool {
        self.awaited == self.total
    }

    /// The next step and the window after it. While jobs are left to
    /// launch, the next one is launched unless the window is full; then the
    /// oldest running job is awaited first. Once all are launched, those
    /// still running are awaited, oldest first.
    pub open spec fn next(self) -> (TranscodeWindow, TranscodeStep) {
        if self.launched < self.total && self.launched - self.awaited < self.limit {
            (
                TranscodeWindow { launched: (self.launched + 1) as usize, ..self },
                TranscodeStep::Launch(self.launched),
            )
        } else if self.awaited < self.launched {
            (
                TranscodeWindow { awaited: (self.awaited + 1) as usize, ..self },
                TranscodeStep::Wait(self.awaited),
            )
        } else {
            (self, TranscodeStep::Finished)
        }
    }

    /// The window after `k` steps.
    pub open spec fn after(self, k: nat) -> TranscodeWindow
        decreases k,
    {
        if k == 0 {
            self
        } else {
            self.after((k - 1) as nat).next().0
        }
    }

    /// A window over `total` jobs of which at most `limit` run at once.
    /// There is none for a limit of zero.
    pub fn new(total: usize, limit: usize) -> (r: Option<TranscodeWindow>)
        ensures
            r == if limit >= 1 {
                Some(TranscodeWindow::initial(total, limit))
            } else {
                None
            },
            r matches Some(w) ==> w.wf(),
    {
        if limit >= 1 {
            Some(TranscodeWindow { total, limit, launched: 0, awaited: 0 })
        } else {
            None
        }
    }

    /// Takes the next step.
    pub fn next_step(&mut self) -> (step: TranscodeStep)
        requires
            old(self).wf(),
        ensures
            (*final(self), step) == old(self).next(),
            final(self).wf(),
            step is Finished <==> old(self).finished(),
    {
        if self.launched < self.total && self.launched - self.awaited < self.limit {
            let job: usize = self.launched;
            self.launched = self.launched + 1;
            TranscodeStep::Launch(job)
        } else if self.awaited < self.launched {
            let job: usize = self.awaited;
            self.awaited = self.awaited + 1;
            TranscodeStep::Wait(job)
        } else {
            TranscodeStep::Finished
        }
    }
}

/// The steps of a whole pass over `total` jobs: each job is launched and
/// awaited, which makes two steps a job.
pub open spec fn schedule_of(total: usize, limit: usize) -> Seq<TranscodeStep> {
    Seq::new(
        2 * (total as nat),
        |k: int| TranscodeWindow::initial(total, limit).after(k as nat).next().1,
    )
}

/// How many of the steps launch a job.
pub open spec fn launches_in(steps: Seq<TranscodeStep>) -> nat
    decreases steps.len(),
{
    if steps.len() == 0 {
        0
    } else {
        launches_in(steps.drop_last()) + if steps.last() is Launch {
            1nat
        } else {
            0nat
        }
    }
}

/// How many of the steps wait for a job.
pub open spec fn waits_in(steps: Seq<TranscodeStep>) -> nat
    decreases steps.len(),
{
    if steps.len() == 0 {
        0
    } else {
        waits_in(steps.drop_last()) + if steps.last() is Wait {
            1nat
        } else {
            0nat
        }
    }
}

/// After any number of steps of a pass the window holds its invariant and
/// has counted the steps taken so far: as many jobs launched as there were
/// launches, as many awaited as there were waits.
pub proof fn lemma_window_counts(total: usize, limit: usize, k: nat)
    requires
        limit >= 1,
        k <= 2 * total,
    ensures
        ({
            let w = TranscodeWindow::initial(total, limit).after(k);
            let done = schedule_of(total, limit).take(k as int);
            &&& w.wf()
            &&& w.total == total
            &&& w.limit == limit
            &&& w.launched == launches_in(done)
            &&& w.awaited == waits_in(done)
            &&& w.launched + w.awaited == k
        }),
    decreases k,
{
    let steps = schedule_of(total, limit);
    let start = TranscodeWindow::initial(total, limit);
    if k > 0 {
        let j = (k - 1) as nat;
        lemma_window_counts(total, limit, j);
        let before = start.after(j);
        let done = steps.take(k as int);
        assert(start.after(k) == before.next().0);
        assert(done.drop_last() =~= steps.take(j as int));
        assert(done.last() == steps[j as int]);
        assert(steps[j as int] == before.next().1);
        assert(before.launched + before.awaited < 2 * total);
        assert(!(before.next().1 is Finished));
    } else {
        assert(steps.take(0).len() == 0);
    }
}

/// At no point of a pass do more jobs run than the limit allows, and none
/// is awaited before it was launched: after each number of steps the
/// launches exceed the waits by no more than the limit.
pub proof fn lemma_bounded_concurrency(total: usize, limit: usize, k: int)
    requires
        limit >= 1,
        0 <= k <= 2 * total,
    ensures
        waits_in(schedule_of(total, limit).take(k)) <= launches_in(
            schedule_of(total, limit).take(k),
        ) <= waits_in(schedule_of(total, limit).take(k)) + limit,
{
    lemma_window_counts(total, limit, k as nat);
}

/// By the end of a pass every job was launched and awaited.
pub proof fn lemma_all_awaited(total: usize, limit: usize)
    requires
        limit >= 1,
    ensures
        schedule_of(total, limit).len() == 2 * total,
        launches_in(schedule_of(total, limit)) == total,
        waits_in(schedule_of(total, limit)) == total,
        TranscodeWindow::initial(total, limit).after(2 * (total as nat)).finished(),
{
    let steps = schedule_of(total, limit);
    lemma_window_counts(total, limit, 2 * (total as nat));
    assert(steps.take(2 * total) =~= steps);
}

/// The jobs are launched in their order and awaited in their order: the
/// step at position `k` launches the job whose number is the count of the
/// launches before it, or waits for the job whose number is the count of
/// the waits before it. A job that is launched finds fewer than `limit`
/// jobs running, and one that is awaited was launched before.
pub proof fn lemma_step_order(total: usize, limit: usize, k: int)
    requires
        limit >= 1,
        0 <= k < 2 * total,
    ensures
        ({
            let steps = schedule_of(total, limit);
            let before = steps.take(k);
            match steps[k] {
                TranscodeStep::Launch(job) => job == launches_in(before) && launches_in(before)
                    < waits_in(before) + limit,
                TranscodeStep::Wait(job) => job == waits_in(before) && waits_in(before)
                    < launches_in(before),
                TranscodeStep::Finished => false,
            }
        }),
{
    lemma_window_counts(total, limit, k as nat);
}

/// The steps of a whole pass over `total` jobs of which at most `limit`
/// run at once. There is no such pass for a limit of zero.
pub fn schedule(total: usize, limit: usize) -> (r: Option<Vec<TranscodeStep>>)
    ensures
        limit >= 1 <==> r is Some,
        r matches Some(steps) ==> steps@ == schedule_of(total, limit),
{
    let mut window = match TranscodeWindow::new(total, limit) {
        Some(w) => w,
        None => {
            return None;
        },
    };
    let mut steps: Vec<TranscodeStep> = Vec::new();
    let ghost all = schedule_of(total, limit);
    let ghost start = TranscodeWindow::initial(total, limit);
    assert(steps@ =~= all.take(0));
    loop
        invariant_except_break
            steps.len() <= 2 * total,
            steps@ == all.take(steps.len() as int),
        invariant
            limit >= 1,
            all == schedule_of(total, limit),
            start == TranscodeWindow::initial(total, limit),
            window == start.after(steps.len() as nat),
            window.wf(),
            window.total == total,
            window.limit == limit,
            window.launched + window.awaited == steps.len(),
        ensures
            steps@ == all,
        decreases 2 * total - steps.len(),
    {
        let ghost k = steps.len() as nat;
        let ghost before = steps@;
        let step = window.next_step();
        match step {
            TranscodeStep::Finished => {
                assert(all.take(2 * total) =~= all);
                break ;
            },
            _ => {
                steps.push(step);
                assert(start.after(k + 1) == start.after(k).next().0);
                assert(k < 2 * total);
                assert(all[k as int] == step);
                assert(steps@ =~= all.take(k as int + 1));
            },
        }
    }
    Some(steps)
}

impl EncodeJob {
    /// The arguments that the encoder is started with.
    pub fn arguments(&self) -> (r: Vec<String>)
        ensures
            r.deep_view() == encoder_arguments(self@),
    {
        let mut args: Vec<String> = Vec::new();
        proof {
            reveal_strlit("-i");
            reveal_strlit("-ab");
            reveal_strlit("320k");
        }
        args.push(String::from_str("-i"));
        args.push(self.input.clone());
        args.push(String::from_str("-ab"));
        args.push(String::from_str("320k"));
        args.push(self.output.clone());
        assert(args[0]@ =~= seq!['-', 'i']);
        assert(args[2]@ =~= seq!['-', 'a', 'b']);
        assert(args[3]@ =~= seq!['3', '2', '0', 'k']);
        assert(args.deep_view() =~= encoder_arguments(self@));
        args
    }

    /// Decides what follows the encoding: the lossless file is deleted
    /// where the encoder succeeded, and stays where it failed.
    pub fn conclude(&self, encoded: bool) -> (r: AfterEncode)
        ensures
            r@ == after_encode(self@, encoded),
    {
        if encoded {
            AfterEncode::RemoveSource(self.input.clone())
        } else {
            AfterEncode::ReportFailure { input: self.input.clone(), output: self.output.clone() }
        }
    }
}

/// Tells whether the file at `path` is in a lossless format, by its extension.
pub fn lossless(path: &str) -> (r: bool)
    ensures
        r == is_lossless(path@),
{
    match extension(file_name(path)) {
        Some(ext) => {
            proof {
                reveal_strlit("flac");
                reveal_strlit("m4a");
                assert("flac"@ =~= flac());
                assert("m4a"@ =~= m4a());
            }
            let ext = String::from_str(ext);
            ext == String::from_str("flac") || ext == String::from_str("m4a")
        },
        None => false,
    }
}

impl FileSorter {
    /// The lossless files of a walk, in the order of the walk.
    pub fn get_all_lossless(&self, entries: &Vec<WalkEntry>) -> (r: Vec<String>)
        ensures
            r.deep_view() == lossless_of(entries.deep_view()),
    {
        let n: usize = entries.len();
        let mut res: Vec<String> = Vec::new();
        let mut i: usize = 0;
        let ghost all = entries.deep_view();
        let ghost keep = |e: WalkEntryView| is_lossless_file(e);
        proof {
            reveal(Seq::filter);
            assert(all.take(0).filter(keep) =~= Seq::<WalkEntryView>::empty());
            assert(res.deep_view() =~= lossless_of(all.take(0)));
        }
        while i < n
            invariant
                n == entries.len(),
                i <= n,
                all == entries.deep_view(),
                res.deep_view() == lossless_of(all.take(i as int)),
            decreases n - i,
        {
            let ghost before = res.deep_view();
            let ghost keep = |e: WalkEntryView| is_lossless_file(e);
            proof {
                assert(all[i as int] == entries[i as int]@);
                assert(all.take(i + 1) =~= all.take(i as int).push(all[i as int]));
                all.take(i as int).lemma_filter_push(all[i as int], keep);
            }
            if !entries[i].is_dir && lossless(entries[i].path.as_str()) {
                res.push(entries[i].path.clone());
                assert(res.deep_view() =~= before.push(all[i as int].path));
                assert(lossless_of(all.take(i + 1)) =~= before.push(all[i as int].path));
            }
            i += 1;
        }
        assert(all.take(n as int) =~= all);
        res
    }

    /// The encoding of one lossless file.
    pub fn convert_to_mp3(full_path: &String) -> (r: EncodeJob)
        ensures
            r@ == encode_job_for(full_path@),
    {
        proof {
            reveal_strlit("mp3");
            assert("mp3"@ =~= mp3());
        }
        EncodeJob { input: full_path.clone(), output: replace_extension(full_path.as_str(), "mp3") }
    }

    /// Plans the transcode pass over a walk: one job for each lossless
    /// file, and the steps that run them with at most `TRANSCODE_LIMIT` at
    /// once. In a dry run the jobs are listed and no step is taken.
    pub fn convert_all_flac_to_mp3(&self, entries: &Vec<WalkEntry>) -> (r: TranscodePlan)
        ensures
            r.jobs.deep_view() == lossless_of(entries.deep_view()).map_values(
                |p: Seq<char>| encode_job_for(p),
            ),
            r.steps@ == if self.dry_run {
                Seq::<TranscodeStep>::empty()
            } else {
                schedule_of(r.jobs.len(), TRANSCODE_LIMIT)
            },
    {
        let vec = self.get_all_lossless(entries);
        let n: usize = vec.len();
        let mut jobs: Vec<EncodeJob> = Vec::new();
        let mut i: usize = 0;
        let ghost paths = vec.deep_view();
        let ghost job_of = |p: Seq<char>| encode_job_for(p);
        assert(jobs.deep_view() =~= paths.take(0).map_values(job_of));
        while i < n
            invariant
                n == vec.len(),
                i <= n,
                paths == vec.deep_view(),
                job_of == (|p: Seq<char>| encode_job_for(p)),
                jobs.len() == i,
                jobs.deep_view() == paths.take(i as int).map_values(job_of),
            decreases n - i,
        {
            let ghost before = jobs.deep_view();
            let job = FileSorter::convert_to_mp3(&vec[i]);
            jobs.push(job);
            assert(paths[i as int] == vec[i as int]@);
            assert(jobs.deep_view() =~= before.push(job@));
            assert(paths.take(i + 1).map_values(job_of) =~= before.push(job_of(paths[i as int])));
            i += 1;
        }
        assert(paths.take(n as int) =~= paths);
        let steps = if self.dry_run {
            Vec::new()
        } else {
            match schedule(jobs.len(), TRANSCODE_LIMIT) {
                Some(steps) => steps,
                None => Vec::new(),
            }
        };
        TranscodePlan { jobs, steps }
    }
}

} // verus!
