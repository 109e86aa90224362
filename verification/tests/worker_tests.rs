use nonogram_fetcher::nonogram::FetchError;
use nonogram_fetcher::protocol::Message;
use nonogram_fetcher::worker::{FetchWorker, Phase, WorkerAction, WorkerEvent};

fn texts(ms: &[Message]) -> Vec<(u32, String)> {
    ms.iter().map(|m| (m.msg_type, m.contents.clone())).collect()
}

#[test]
fn happy_path() {
    let mut w = FetchWorker::new();
    let s = w.step(WorkerEvent::Start);
    assert_eq!(s.action, WorkerAction::Search);
    assert_eq!(texts(&s.messages), vec![(3, "Searching for nonograms...".to_string())]);

    let s = w.step(WorkerEvent::SearchDone { result: Ok(vec![11, 22, 33]), seed: 7 });
    // 7 % 3 == 1
    assert_eq!(s.action, WorkerAction::Download(22));
    assert_eq!(texts(&s.messages), vec![(3, "Downloading puzzle #22...".to_string())]);
    assert_eq!(w.phase(), Phase::Downloading);

    let s = w.step(WorkerEvent::PuzzleDownloaded { title: "Nonogram #22".to_string() });
    assert_eq!(s.action, WorkerAction::GeneratePdf);
    assert_eq!(texts(&s.messages), vec![(3, "Generating PDF for 'Nonogram #22'...".to_string())]);

    let s = w.step(WorkerEvent::PdfSaved { path: "/x/y.pdf".to_string() });
    assert_eq!(s.action, WorkerAction::RestartLibrary);
    assert_eq!(texts(&s.messages), vec![(1, "SAVED:/x/y.pdf".to_string())]);
    assert_eq!(w.phase(), Phase::Finished);
}

#[test]
fn retries_wrap_round_and_stop_after_all_found() {
    let mut w = FetchWorker::new();
    w.step(WorkerEvent::Start);
    let s = w.step(WorkerEvent::SearchDone { result: Ok(vec![5, 6, 7]), seed: 2 });
    assert_eq!(s.action, WorkerAction::Download(7));
    let s = w.step(WorkerEvent::PuzzleFailed);
    assert_eq!(s.action, WorkerAction::Download(5));
    assert_eq!(
        texts(&s.messages),
        vec![
            (3, "Puzzle #7 unavailable, trying another...".to_string()),
            (3, "Downloading puzzle #5...".to_string())
        ]
    );
    let s = w.step(WorkerEvent::PuzzleFailed);
    assert_eq!(s.action, WorkerAction::Download(6));
    let s = w.step(WorkerEvent::PuzzleFailed);
    assert_eq!(s.action, WorkerAction::Stop);
    assert_eq!(
        texts(&s.messages),
        vec![(2, "Could not download any puzzle after multiple attempts.".to_string())]
    );
}

#[test]
fn at_most_five_attempts() {
    let mut w = FetchWorker::new();
    w.step(WorkerEvent::Start);
    let ids: Vec<u32> = (1..=20).collect();
    let mut s = w.step(WorkerEvent::SearchDone { result: Ok(ids), seed: 18 });
    let mut tried = Vec::new();
    while let WorkerAction::Download(id) = s.action {
        tried.push(id);
        s = w.step(WorkerEvent::PuzzleFailed);
    }
    assert_eq!(tried, vec![19, 20, 1, 2, 3]);
    assert_eq!(s.action, WorkerAction::Stop);
}

#[test]
fn search_failures() {
    let mut w = FetchWorker::new();
    w.step(WorkerEvent::Start);
    let s = w.step(WorkerEvent::SearchDone { result: Err(FetchError::Http("dns".to_string())), seed: 0 });
    assert_eq!(s.action, WorkerAction::Stop);
    assert_eq!(texts(&s.messages), vec![(2, "Search error: dns".to_string())]);

    let mut w = FetchWorker::new();
    w.step(WorkerEvent::Start);
    let s = w.step(WorkerEvent::SearchDone { result: Ok(vec![]), seed: 0 });
    assert_eq!(s.action, WorkerAction::Stop);
    assert_eq!(texts(&s.messages), vec![(2, "No puzzles found.".to_string())]);
}

#[test]
fn pdf_failure_and_stray_events() {
    let mut w = FetchWorker::new();
    let s = w.step(WorkerEvent::PuzzleFailed);
    assert_eq!(s.action, WorkerAction::Ignore);
    assert!(s.messages.is_empty());
    assert_eq!(w.phase(), Phase::Idle);
    w.step(WorkerEvent::Start);
    w.step(WorkerEvent::SearchDone { result: Ok(vec![4]), seed: 99 });
    w.step(WorkerEvent::PuzzleDownloaded { title: "T".to_string() });
    let s = w.step(WorkerEvent::PdfFailed { error: "disk full".to_string() });
    assert_eq!(s.action, WorkerAction::Stop);
    assert_eq!(texts(&s.messages), vec![(2, "PDF error: disk full".to_string())]);
    let s = w.step(WorkerEvent::Start);
    assert_eq!(s.action, WorkerAction::Ignore);
}
