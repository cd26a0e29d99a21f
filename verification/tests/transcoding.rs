use music_sorter::file_sorter::{ActionOnFile, FileSorter, WalkEntry};
use music_sorter::transcode::{
    lossless, schedule, AfterEncode, EncodeJob, TranscodeStep, TranscodeWindow, TRANSCODE_LIMIT,
};

fn sorter(dry_run: bool) -> FileSorter {
    FileSorter::new(&"/music".to_string(), ActionOnFile::MoveFiles, dry_run)
}

fn entry(path: &str, is_dir: bool) -> WalkEntry {
    WalkEntry { path: path.to_string(), is_dir, tag_block: None }
}

fn max_outstanding(steps: &[TranscodeStep], total: usize) -> usize {
    let mut launched = vec![false; total];
    let mut awaited = vec![false; total];
    let mut running: usize = 0;
    let mut peak: usize = 0;
    for step in steps {
        match *step {
            TranscodeStep::Launch(k) => {
                assert!(!launched[k]);
                launched[k] = true;
                running += 1;
            }
            TranscodeStep::Wait(k) => {
                assert!(launched[k] && !awaited[k]);
                awaited[k] = true;
                running -= 1;
            }
            TranscodeStep::Finished => panic!("no step follows the end"),
        }
        peak = peak.max(running);
    }
    assert!(launched.iter().all(|x| *x) && awaited.iter().all(|x| *x));
    assert_eq!(running, 0);
    peak
}

#[test]
fn the_limit_is_eighteen() {
    assert_eq!(TRANSCODE_LIMIT, 18);
}

#[test]
fn lossless_goes_by_the_extension() {
    assert!(lossless("/music/A/B/C.flac"));
    assert!(lossless("C.m4a"));
    assert!(!lossless("/music/A/B/C.mp3"));
    assert!(!lossless("/music/A/B/C.FLAC"));
    assert!(!lossless("/music/A/B/.flac"));
    assert!(!lossless("/music/a.flac/C"));
    assert!(!lossless("/music/flac"));
}

#[test]
fn get_all_lossless_collects_files_in_walk_order() {
    let entries = vec![
        entry("/music", true),
        entry("/music/b.m4a", false),
        entry("/music/dir.flac", true),
        entry("/music/a.mp3", false),
        entry("/music/a.flac", false),
    ];
    assert_eq!(sorter(false).get_all_lossless(&entries), vec!["/music/b.m4a", "/music/a.flac"]);
    assert_eq!(sorter(false).get_all_lossless(&Vec::new()), Vec::<String>::new());
}

#[test]
fn convert_to_mp3_writes_beside_the_source() {
    let job = FileSorter::convert_to_mp3(&"/music/A/B/C.flac".to_string());
    assert_eq!(
        job,
        EncodeJob { input: "/music/A/B/C.flac".to_string(), output: "/music/A/B/C.mp3".to_string() }
    );
    assert_eq!(job.arguments(), vec!["-i", "/music/A/B/C.flac", "-ab", "320k", "/music/A/B/C.mp3"]);
}

#[test]
fn conclude_removes_the_source_only_after_success() {
    let job = FileSorter::convert_to_mp3(&"/m/x.m4a".to_string());
    assert_eq!(job.conclude(true), AfterEncode::RemoveSource("/m/x.m4a".to_string()));
    assert_eq!(
        job.conclude(false),
        AfterEncode::ReportFailure { input: "/m/x.m4a".to_string(), output: "/m/x.mp3".to_string() }
    );
}

#[test]
fn scenario_bounded_transcode_concurrency() {
    let entries: Vec<WalkEntry> =
        (0..40).map(|i| entry(&format!("/music/A/B/{}.flac", i), false)).collect();
    let plan = sorter(false).convert_all_flac_to_mp3(&entries);
    assert_eq!(plan.jobs.len(), 40);
    assert_eq!(plan.jobs[39].output, "/music/A/B/39.mp3");
    assert_eq!(plan.steps.len(), 80);
    assert_eq!(max_outstanding(&plan.steps, 40), 18);
    assert_eq!(plan.steps[17], TranscodeStep::Launch(17));
    assert_eq!(plan.steps[18], TranscodeStep::Wait(0));
    assert_eq!(plan.steps[19], TranscodeStep::Launch(18));
    assert_eq!(plan.steps[79], TranscodeStep::Wait(39));
}

#[test]
fn a_dry_run_lists_the_jobs_and_takes_no_step() {
    let entries = vec![entry("/music/a.flac", false), entry("/music/b.m4a", false)];
    let plan = sorter(true).convert_all_flac_to_mp3(&entries);
    assert_eq!(plan.jobs.len(), 2);
    assert_eq!(plan.steps, Vec::new());
}

#[test]
fn schedule_of_few_jobs_launches_all_then_waits() {
    assert_eq!(
        schedule(2, 18),
        Some(vec![
            TranscodeStep::Launch(0),
            TranscodeStep::Launch(1),
            TranscodeStep::Wait(0),
            TranscodeStep::Wait(1),
        ])
    );
    assert_eq!(schedule(0, 18), Some(Vec::new()));
}

#[test]
fn schedule_with_limit_one_runs_in_turn() {
    assert_eq!(
        schedule(3, 1),
        Some(vec![
            TranscodeStep::Launch(0),
            TranscodeStep::Wait(0),
            TranscodeStep::Launch(1),
            TranscodeStep::Wait(1),
            TranscodeStep::Launch(2),
            TranscodeStep::Wait(2),
        ])
    );
}

#[test]
fn schedule_needs_a_limit_above_zero() {
    assert_eq!(schedule(3, 0), None);
    assert_eq!(TranscodeWindow::new(3, 0), None);
}

#[test]
fn schedule_never_exceeds_the_limit() {
    for (total, limit) in [(1usize, 1usize), (5, 2), (18, 18), (19, 18), (100, 7), (7, 100)] {
        let steps = schedule(total, limit).unwrap();
        assert_eq!(steps.len(), 2 * total);
        assert_eq!(max_outstanding(&steps, total), total.min(limit));
    }
}

#[test]
fn window_steps_until_finished() {
    let mut w = TranscodeWindow::new(2, 1).unwrap();
    assert_eq!(w, TranscodeWindow { total: 2, limit: 1, launched: 0, awaited: 0 });
    assert_eq!(w.next_step(), TranscodeStep::Launch(0));
    assert_eq!(w.next_step(), TranscodeStep::Wait(0));
    assert_eq!(w.next_step(), TranscodeStep::Launch(1));
    assert_eq!(w.next_step(), TranscodeStep::Wait(1));
    assert_eq!(w.next_step(), TranscodeStep::Finished);
    assert_eq!(w.next_step(), TranscodeStep::Finished);
    assert_eq!(w, TranscodeWindow { total: 2, limit: 1, launched: 2, awaited: 2 });
}
