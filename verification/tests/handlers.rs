use sd_core::error::{ErrorCode, IndexerError};
use sd_core::explorer::{
    ExplorerAction, ExplorerContext, ExplorerEvent, ExplorerItem, LocationExplorerArgs,
};
use sd_core::file_path::MaterializedPath;
use sd_core::handler::{
    Action, Answer, Handler, IndexerRuleCreateArgs, LightScanArgs, LocationCreateArgs,
    LocationUpdateArgs, Request, Response,
};
use sd_core::indexer::{
    after_write, summarize, written_count, IndexerJob, IndexerJobData, IndexerJobInit, IndexerJobStep,
    IndexerJobStepEntry, ScanProgress,
};
use sd_core::indexer_job::{first_entry_id, Work};
use sd_core::job::{JobError, JobState, JobStatus};
use sd_core::location::{
    FilePathWithObject, IndexerRuleData, LocationData, LocationError, LocationWithIndexerRules,
};
use sd_core::online::OnlineEvent;
use sd_core::progress::ProgressDebouncer;
use sd_core::report::JobReport;
use sd_core::routes::{begin, mount, Procedure, RuleProcedure, RuleStoreChange};
use sd_core::rules::{IndexerRule, ParametersPerKind};

fn location(id: i32) -> LocationData {
    LocationData { id, pub_id: vec![id as u8], name: "Photos".to_string(), local_path: "/photos".to_string() }
}

fn with_rules(id: i32) -> LocationWithIndexerRules {
    LocationWithIndexerRules {
        id,
        pub_id: vec![id as u8],
        local_path: "/photos".to_string(),
        indexer_rules: Vec::new(),
    }
}

fn row(location_id: i32, id: i32, path: &str, is_dir: bool, parent: Option<i32>) -> FilePathWithObject {
    FilePathWithObject {
        id,
        location_id,
        materialized_path: path.to_string(),
        name: String::new(),
        extension: String::new(),
        is_dir,
        parent_id: parent,
        cas_id: None,
        object: None,
    }
}

fn explorer_args(path: &str) -> Request {
    Request::Explorer(LocationExplorerArgs {
        location_id: 1,
        path: path.to_string(),
        limit: 10,
        cursor: None,
    })
}

fn failed(action: Action) -> (ErrorCode, String) {
    match action {
        Action::Fail(e) => (e.code, e.message),
        Action::Explorer(ExplorerAction::Fail(e)) => (e.code, e.message),
        other => panic!("unexpected: {:?}", other),
    }
}

// A store with two locations; the answers are what it would give.
fn answer(action: &Action) -> Answer {
    let rows = vec![
        row(1, 1, "/", true, None),
        row(1, 2, "a", false, Some(1)),
        row(2, 1, "/", true, None),
        row(2, 3, "b", false, Some(1)),
    ];
    match action {
        Action::Explorer(ExplorerAction::FindLocation { location_id }) => Answer::Explorer(
            ExplorerEvent::Location(if *location_id <= 2 { Some(location(*location_id)) } else { None }),
        ),
        Action::Explorer(ExplorerAction::FindDirectory { location_id, materialized_path }) => {
            Answer::Explorer(ExplorerEvent::Directory(rows.into_iter().find(|r| {
                r.location_id == *location_id && r.is_dir && r.materialized_path == *materialized_path
            })))
        }
        Action::Explorer(ExplorerAction::FindChildren { location_id, parent_id }) => {
            Answer::Explorer(ExplorerEvent::Children(
                rows.into_iter()
                    .filter(|r| r.location_id == *location_id && r.parent_id == Some(*parent_id))
                    .collect(),
            ))
        }
        other => panic!("unexpected: {:?}", other),
    }
}

fn run_explorer(path: &str, location_id: i32) -> Action {
    let request = Request::Explorer(LocationExplorerArgs {
        location_id,
        path: path.to_string(),
        limit: 10,
        cursor: None,
    });
    let (mut handler, mut action) = mount().call("getExplorerData", request);
    loop {
        match &action {
            Action::Explorer(ExplorerAction::Reply(_)) | Action::Explorer(ExplorerAction::Fail(_)) => {
                return action
            }
            _ => {}
        }
        let next = handler.step(answer(&action));
        handler = next.0;
        action = next.1;
    }
}

#[test]
fn the_explorer_lists_only_rows_of_the_location_that_was_asked_for() {
    match run_explorer("/", 1) {
        Action::Explorer(ExplorerAction::Reply(data)) => {
            assert!(matches!(&data.context, ExplorerContext::Location(l) if l.id == 1));
            assert_eq!(data.items.len(), 1);
            match &data.items[0] {
                ExplorerItem::Path { has_thumbnail, item } => {
                    assert!(!has_thumbnail);
                    assert_eq!((item.location_id, item.id), (1, 2));
                }
                other => panic!("unexpected: {:?}", other),
            }
        }
        other => panic!("unexpected: {:?}", other),
    }
}

#[test]
fn the_explorer_asks_for_the_same_directory_with_and_without_separator() {
    for path in ["tmp", "tmp/"] {
        let (handler, _) = mount().call("getExplorerData", explorer_args(path));
        let (_, action) = handler.step(Answer::Explorer(ExplorerEvent::Location(Some(location(1)))));
        assert!(matches!(
            action,
            Action::Explorer(ExplorerAction::FindDirectory { location_id: 1, materialized_path })
                if materialized_path == "tmp/"
        ));
    }
}

#[test]
fn the_explorer_ends_for_a_location_or_a_directory_that_is_missing() {
    let (code, message) = failed(run_explorer("/", 7));
    assert_eq!(code, ErrorCode::NotFound);
    assert_eq!(message, "Location not found <id=7>");
    let (code, message) = failed(run_explorer("nowhere", 1));
    assert_eq!(code, ErrorCode::NotFound);
    assert_eq!(message, "Directory not found");
}

#[test]
fn listings_and_lookups_hand_back_what_the_store_found() {
    let router = mount();
    let (handler, action) = router.call("list", Request::Nothing);
    assert!(matches!(action, Action::ListLocations));
    let (handler, action) = handler.step(Answer::Locations(vec![location(1), location(2)]));
    assert!(matches!(handler, Handler::Finished));
    assert!(matches!(action, Action::Reply(Response::Locations(found)) if found.len() == 2));

    let (handler, action) = router.call("getById", Request::Id(4));
    assert!(matches!(action, Action::FindLocation { location_id: 4 }));
    let (_, action) = handler.step(Answer::Location(None));
    assert!(matches!(action, Action::Reply(Response::Location(None))));

    let (handler, action) = router.call("indexer_rules.list", Request::Nothing);
    assert!(matches!(action, Action::ListRules));
    let (_, action) = handler.step(Answer::Rules(Vec::new()));
    assert!(matches!(action, Action::Reply(Response::Rules(found)) if found.is_empty()));

    let (handler, action) = router.call("indexer_rules.listForLocation", Request::Id(3));
    assert!(matches!(action, Action::ListRulesForLocation { location_id: 3 }));
    let rule = IndexerRuleData { id: 1, kind: 0, name: "r".to_string(), parameters: vec![0xa0] };
    let (_, action) = handler.step(Answer::Rules(vec![rule]));
    assert!(matches!(action, Action::Reply(Response::Rules(found)) if found[0].id == 1));
}

#[test]
fn a_new_location_is_scanned_in_full() {
    for key in ["create", "addLibrary"] {
        let args = LocationCreateArgs { path: "/photos".to_string(), indexer_rules_ids: vec![1] };
        let (handler, action) = mount().call(key, Request::NewLocation(args));
        match (key, &action) {
            ("create", Action::CreateLocation(a)) | ("addLibrary", Action::AddLibrary(a)) => {
                assert_eq!(a.path, "/photos")
            }
            other => panic!("unexpected: {:?}", other),
        }
        let (handler, action) = handler.step(Answer::Created(Ok(with_rules(5))));
        assert!(matches!(
            &action,
            Action::ScanLocation(init) if init.location.id == 5 && init.sub_path.is_none()
        ));
        let (handler, action) = handler.step(Answer::Done(Ok(())));
        assert!(matches!(handler, Handler::Finished));
        assert!(matches!(action, Action::Reply(Response::Done)));
    }
    let args = LocationCreateArgs { path: "/photos".to_string(), indexer_rules_ids: Vec::new() };
    let (handler, _) = mount().call("create", Request::NewLocation(args));
    let (_, action) = handler.step(Answer::Created(Err(LocationError::IOError("denied".into()))));
    assert_eq!(failed(action), (ErrorCode::InternalServerError, "I/O error (error: denied)".to_string()));
}

#[test]
fn changes_to_a_location_reply_when_they_went_through() {
    let router = mount();
    let update = LocationUpdateArgs { id: 2, name: Some("n".to_string()), indexer_rules_ids: Vec::new() };
    let (handler, action) = router.call("update", Request::LocationUpdate(update));
    assert!(matches!(&action, Action::UpdateLocation(a) if a.id == 2));
    let (_, action) = handler.step(Answer::Done(Ok(())));
    assert!(matches!(action, Action::Reply(Response::Done)));

    let (handler, action) = router.call("delete", Request::Id(2));
    assert!(matches!(action, Action::DeleteLocation { location_id: 2 }));
    let (_, action) = handler.step(Answer::Done(Err(LocationError::IdNotFound(2))));
    assert_eq!(failed(action), (ErrorCode::NotFound, "Location not found <id=2>".to_string()));

    let (handler, action) = router.call("relink", Request::Path("/moved".to_string()));
    assert!(matches!(&action, Action::RelinkLocation { path } if path == "/moved"));
    let (_, action) = handler.step(Answer::Done(Ok(())));
    assert!(matches!(action, Action::Reply(Response::Done)));
}

#[test]
fn a_rescan_of_a_missing_location_submits_no_job() {
    let router = mount();
    let (handler, action) = router.call("fullRescan", Request::Id(8));
    assert!(matches!(action, Action::FindLocation { location_id: 8 }));
    let (handler, action) = handler.step(Answer::Location(None));
    assert!(matches!(handler, Handler::Finished));
    assert_eq!(failed(action), (ErrorCode::NotFound, "Location not found <id=8>".to_string()));

    let args = LightScanArgs { location_id: 9, sub_path: "tmp".to_string() };
    let (handler, _) = router.call("quickRescan", Request::LightScan(args));
    let (handler, action) = handler.step(Answer::Location(None));
    assert!(matches!(handler, Handler::Finished));
    assert_eq!(failed(action), (ErrorCode::NotFound, "Location not found <id=9>".to_string()));
}

#[test]
fn a_rescan_submits_the_job_for_the_location_that_was_found() {
    let router = mount();
    let (handler, _) = router.call("fullRescan", Request::Id(1));
    let (handler, action) = handler.step(Answer::Location(Some(with_rules(1))));
    assert!(matches!(
        &action,
        Action::ScanLocation(init) if init.location.id == 1 && init.sub_path.is_none()
    ));
    let (_, action) = handler.step(Answer::Done(Ok(())));
    assert!(matches!(action, Action::Reply(Response::Done)));

    let args = LightScanArgs { location_id: 1, sub_path: "tmp".to_string() };
    let (handler, action) = router.call("quickRescan", Request::LightScan(args));
    assert!(matches!(action, Action::FindLocation { location_id: 1 }));
    let (_, action) = handler.step(Answer::Location(Some(with_rules(1))));
    assert!(matches!(
        &action,
        Action::LightScanLocation(init) if init.sub_path.as_deref() == Some("tmp")
    ));
}

#[test]
fn a_subscriber_of_online_gets_the_snapshot_and_then_every_change() {
    let (handler, action) = mount().call("online", Request::Nothing);
    assert!(matches!(action, Action::ReadOnline));
    let (handler, action) = handler.step(Answer::Online(OnlineEvent::Snapshot(vec![vec![0]])));
    assert!(matches!(&action, Action::Yield(s) if *s == vec![vec![0u8]]));
    let (handler, action) = handler.step(Answer::Online(OnlineEvent::Update(vec![vec![1]])));
    assert!(matches!(&action, Action::Yield(s) if *s == vec![vec![1u8]]));
    let (handler, action) = handler.step(Answer::Online(OnlineEvent::Update(vec![vec![2]])));
    assert!(matches!(&action, Action::Yield(s) if *s == vec![vec![2u8]]));
    let (handler, action) = handler.step(Answer::Online(OnlineEvent::Lost));
    assert!(matches!(action, Action::Close));
    let (_, action) = handler.step(Answer::Online(OnlineEvent::Update(vec![vec![3]])));
    assert!(matches!(action, Action::Close));
}

#[test]
fn a_rule_is_looked_up_by_id() {
    let router = mount();
    let (handler, action) = router.call("indexer_rules.get", Request::Id(7));
    assert!(matches!(action, Action::FindRule { indexer_rule_id: 7 }));
    let (_, action) = handler.step(Answer::Rule(None));
    assert_eq!(failed(action), (ErrorCode::NotFound, "Indexer rule <id=7> not found".to_string()));

    let (handler, _) = router.call("indexer_rules.get", Request::Id(7));
    let rule = IndexerRuleData { id: 7, kind: 1, name: "r".to_string(), parameters: vec![0xa1, b'x'] };
    let (_, action) = handler.step(Answer::Rule(Some(rule)));
    match action {
        Action::Reply(Response::Rule(found)) => {
            assert_eq!((found.id, found.kind), (7, 1));
            assert_eq!(found.name, "r");
            assert_eq!(found.parameters, vec![0xa1, b'x']);
        }
        other => panic!("unexpected: {:?}", other),
    }
}

#[test]
fn a_rule_is_deleted_links_first_and_only_that_rule() {
    let (handler, action) = mount().call("indexer_rules.delete", Request::Id(6));
    assert!(matches!(action, Action::ChangeRules(RuleStoreChange::DeleteLinks { indexer_rule_id: 6 })));
    let (handler, action) = handler.step(Answer::RuleDone(Ok(())));
    assert!(matches!(action, Action::ChangeRules(RuleStoreChange::DeleteRule { indexer_rule_id: 6 })));
    let (handler, action) = handler.step(Answer::RuleDone(Ok(())));
    assert!(matches!(handler, Handler::Finished));
    assert!(matches!(action, Action::Reply(Response::Done)));

    let (handler, _) = mount().call("indexer_rules.delete", Request::Id(6));
    let (handler, action) =
        handler.step(Answer::RuleDone(Err(IndexerError::DatabaseError("locked".into()))));
    assert!(matches!(handler, Handler::Finished));
    assert_eq!(failed(action), (ErrorCode::InternalServerError, "Database error: locked".to_string()));
}

#[test]
fn a_new_rule_is_stored_in_its_encoded_form() {
    let args = IndexerRuleCreateArgs {
        name: "no tmp".to_string(),
        parameters: ParametersPerKind::RejectFilesByGlob("*.tmp".to_string()),
    };
    let (handler, action) = mount().call("indexer_rules.create", Request::NewRule(args));
    match &action {
        Action::CreateRule(rule) => {
            assert_eq!(rule.kind, 1);
            assert_eq!(rule.name, "no tmp");
            let stored = IndexerRuleData {
                id: 1,
                kind: rule.kind,
                name: rule.name.clone(),
                parameters: rule.parameters.clone(),
            };
            let read = IndexerRule::try_from(&stored).unwrap();
            assert!(matches!(read.parameters, ParametersPerKind::RejectFilesByGlob(p) if p == "*.tmp"));
        }
        other => panic!("unexpected: {:?}", other),
    }
    let (_, action) = handler.step(Answer::RuleDone(Ok(())));
    assert!(matches!(action, Action::Reply(Response::Done)));

    let names = IndexerRuleCreateArgs {
        name: "repos".to_string(),
        parameters: ParametersPerKind::AcceptIfChildrenDirectoriesArePresent(vec![".git".to_string()]),
    };
    let (handler, action) = mount().call("indexer_rules.create", Request::NewRule(names));
    assert!(matches!(&action, Action::CreateRule(rule) if rule.kind == 2
        && rule.parameters == vec![0x91, 0xa4, b'.', b'g', b'i', b't']));
    let (_, action) =
        handler.step(Answer::RuleDone(Err(IndexerError::DatabaseError("full".into()))));
    assert_eq!(failed(action), (ErrorCode::InternalServerError, "Database error: full".to_string()));
}

#[test]
fn a_new_rule_with_a_malformed_pattern_is_the_callers_fault() {
    let args = IndexerRuleCreateArgs {
        name: "bad".to_string(),
        parameters: ParametersPerKind::AcceptFilesByGlob("[".to_string()),
    };
    let (handler, action) = mount().call("indexer_rules.create", Request::NewRule(args));
    assert!(matches!(handler, Handler::Finished));
    let (code, message) = failed(action);
    assert_eq!(code, ErrorCode::BadRequest);
    assert!(message.starts_with("Glob builder error: "));
}

#[test]
fn a_store_that_cannot_answer_ends_any_procedure() {
    let (handler, _) = mount().call("list", Request::Nothing);
    let (handler, action) = handler.step(Answer::StoreFailed("down".to_string()));
    assert!(matches!(handler, Handler::Finished));
    assert_eq!(failed(action), (ErrorCode::InternalServerError, "Database error: down".to_string()));
    let (handler, _) = mount().call("getExplorerData", explorer_args("/"));
    let (_, action) = handler.step(Answer::StoreFailed("down".to_string()));
    assert_eq!(failed(action), (ErrorCode::InternalServerError, "Database error: down".to_string()));
}

#[test]
fn a_request_must_fit_its_procedure_and_a_procedure_must_exist() {
    let (handler, action) = mount().call("fullRescan", Request::Nothing);
    assert!(matches!(handler, Handler::Finished));
    assert_eq!(
        failed(action),
        (ErrorCode::BadRequest, "The request does not fit the procedure".to_string())
    );
    let (_, action) = begin(Procedure::IndexerRules(RuleProcedure::Get), Request::Path("x".into()));
    assert_eq!(failed(action).0, ErrorCode::BadRequest);
    let (handler, action) = mount().call("locations.nothing", Request::Nothing);
    assert!(matches!(handler, Handler::Finished));
    assert_eq!(
        failed(action),
        (ErrorCode::NotFound, "No procedure is called locations.nothing".to_string())
    );
    let (handler, _) = mount().call("list", Request::Nothing);
    let (_, action) = handler.step(Answer::Rules(Vec::new()));
    assert_eq!(
        failed(action),
        (ErrorCode::InternalServerError, "Unexpected answer to a request".to_string())
    );
}

fn data(indexed: i64) -> IndexerJobData {
    IndexerJobData { db_write_start: 1_000, scan_read_time: 5, total_paths: 3, indexed_paths: indexed }
}

fn entry(id: i32) -> IndexerJobStepEntry {
    IndexerJobStepEntry {
        full_path: format!("/photos/{}", id),
        materialized_path: MaterializedPath::child(1, "", "x", false),
        created_at: 0,
        file_id: id,
        parent_id: None,
    }
}

fn job(steps: Vec<IndexerJobStep>) -> JobState<IndexerJobInit, IndexerJobData, IndexerJobStep> {
    let mut state = JobState::new(IndexerJobInit { location: with_rules(1), sub_path: None });
    state.data = Some(data(0));
    state.steps = steps.into_iter().collect();
    state
}

#[test]
fn a_failed_write_fails_the_step_and_counts_nothing() {
    let failed = after_write(&data(4), Err(IndexerError::DatabaseError("down".into())));
    assert!(matches!(
        failed,
        Err(JobError::Indexer(IndexerError::DatabaseError(m))) if m == "down"
    ));
    assert_eq!(after_write(&data(4), Ok(3)).unwrap().indexed_paths, 7);
    assert_eq!(after_write(&data(4), Ok(0)).unwrap(), data(4));
    assert!(matches!(after_write(&data(i64::MAX), Ok(1)), Err(JobError::CounterOverflow)));
}

#[test]
fn the_count_of_a_step_is_the_rows_added_or_the_error_of_the_write() {
    assert_eq!(written_count(Ok(0)).unwrap(), 0);
    assert_eq!(written_count(Ok(1000)).unwrap(), 1000);
    assert!(matches!(
        written_count(Err(IndexerError::DatabaseError("down".into()))),
        Err(JobError::Indexer(IndexerError::DatabaseError(m))) if m == "down"
    ));
    if usize::BITS >= 64 {
        assert!(matches!(written_count(Ok(usize::MAX)), Err(JobError::CounterOverflow)));
    }
}

#[test]
fn a_job_is_worked_off_write_by_write() {
    let mut state = job(vec![vec![entry(1), entry(2)], vec![entry(3)]]);
    let mut progress = ProgressDebouncer::new(0);
    let mut report = JobReport::new(1, "indexer".to_string());
    match IndexerJob::next_work(&state, false) {
        Work::Write(records) => {
            let ids: Vec<i32> = records.iter().map(|r| r.row.id).collect();
            assert_eq!(ids, vec![1, 2]);
        }
        other => panic!("unexpected: {:?}", other),
    }
    assert!(matches!(IndexerJob::next_work(&state, true), Work::Pause));
    let event =
        IndexerJob::record_write(&mut state, Ok(2), 10, &mut progress, &mut report).unwrap().unwrap();
    assert_eq!(event.completed_task_count, Some(1));
    assert_eq!(event.message.as_deref(), Some("Indexed 2 of 3 paths"));
    assert_eq!(report.completed_task_count, 1);
    assert_eq!(state.data.unwrap().indexed_paths, 2);
    assert_eq!(state.remaining(), 1);
    assert_eq!(state.step_number, 1);

    let refused = IndexerJob::record_write(
        &mut state,
        Err(IndexerError::DatabaseError("down".into())),
        20,
        &mut progress,
        &mut report,
    );
    assert!(matches!(refused, Err(JobError::Indexer(IndexerError::DatabaseError(_)))));
    assert_eq!(state.data.unwrap().indexed_paths, 2);
    assert_eq!(state.remaining(), 1);
    assert_eq!(state.step_number, 1);
    assert_eq!(report.completed_task_count, 1);

    IndexerJob::record_write(&mut state, Ok(1), 30, &mut progress, &mut report).unwrap();
    assert!(matches!(IndexerJob::next_work(&state, true), Work::Finalize));
    assert!(matches!(IndexerJob::next_work(&state, false), Work::Finalize));
    let nothing = IndexerJob::record_write(&mut state, Ok(1), 40, &mut progress, &mut report);
    assert!(matches!(nothing, Err(JobError::NotRunnable)));
    let (_, summary) =
        IndexerJob::close(&state, JobStatus::Completed, 1_500, &mut progress, &mut report);
    let summary = summary.unwrap();
    assert_eq!(summary.indexed_paths, 3);
    assert_eq!(summary.db_write_time, 500);
    assert_eq!(report.status, JobStatus::Completed);
    assert_eq!(report.message, "Indexed 3 of 3 paths");
}

#[test]
fn closing_a_run_delivers_what_was_held_back() {
    let mut state = job(vec![vec![entry(1)], vec![entry(2)], vec![entry(3)]]);
    let mut progress = ProgressDebouncer::new(1_000);
    let mut report = JobReport::new(1, "indexer".to_string());
    assert!(IndexerJob::record_write(&mut state, Ok(1), 0, &mut progress, &mut report)
        .unwrap()
        .is_some());
    assert!(IndexerJob::record_write(&mut state, Ok(1), 10, &mut progress, &mut report)
        .unwrap()
        .is_none());
    assert_eq!(report.completed_task_count, 1);
    let (event, summary) =
        IndexerJob::close(&state, JobStatus::Paused, 2_000, &mut progress, &mut report);
    assert!(summary.is_none());
    assert_eq!(event.completed_task_count, Some(2));
    assert_eq!(report.completed_task_count, 2);
    assert_eq!(report.status, JobStatus::Paused);

    let mut empty: JobState<IndexerJobInit, IndexerJobData, IndexerJobStep> =
        JobState::new(IndexerJobInit { location: with_rules(1), sub_path: None });
    assert!(matches!(IndexerJob::next_work(&empty, false), Work::Fail(JobError::MissingData)));
    let refused = IndexerJob::record_write(&mut empty, Ok(1), 0, &mut progress, &mut report);
    assert!(matches!(refused, Err(JobError::MissingData)));
    let (_, summary) =
        IndexerJob::close(&empty, JobStatus::Completed, 0, &mut progress, &mut report);
    assert!(summary.is_none());
}

#[test]
fn a_summary_never_tells_a_negative_time() {
    let early = summarize(&data(0), 10);
    assert_eq!(early.db_write_time, 0);
    assert_eq!(early.invalidate_query, None);
    let late = summarize(&data(2), 1_250);
    assert_eq!(late.db_write_time, 250);
    assert_eq!(late.invalidate_query.as_deref(), Some("locations.getExplorerData"));
}

#[test]
fn the_first_id_of_a_scan() {
    assert_eq!(first_entry_id(&None, 77).unwrap(), 1);
    assert_eq!(first_entry_id(&None, i32::MAX).unwrap(), 1);
    assert_eq!(first_entry_id(&Some("tmp".to_string()), 77).unwrap(), 78);
    assert_eq!(first_entry_id(&Some("tmp".to_string()), -1).unwrap(), 0);
    assert!(matches!(
        first_entry_id(&Some("tmp".to_string()), i32::MAX),
        Err(JobError::CounterOverflow)
    ));
}

#[test]
fn scanning_tells_the_path_and_the_whole_chunks() {
    let progress = IndexerJob::scanning_progress("/photos", 2500);
    assert!(matches!(&progress[0], ScanProgress::Message(m) if m == "Scanning /photos"));
    assert!(matches!(progress[1], ScanProgress::ChunkCount(2)));
    assert!(matches!(IndexerJob::scanning_progress("/", 999)[1], ScanProgress::ChunkCount(0)));
}

#[test]
fn job_errors_are_classified_for_callers() {
    let cases = vec![
        (JobError::MissingData, ErrorCode::InternalServerError, "The job has no data"),
        (
            JobError::CounterOverflow,
            ErrorCode::InternalServerError,
            "A count of the job no longer fits its field",
        ),
        (
            JobError::StateSerialization("eof".into()),
            ErrorCode::InternalServerError,
            "Job state could not be encoded or decoded: eof",
        ),
        (
            JobError::Indexer(IndexerError::InvalidRuleKindInt(9)),
            ErrorCode::BadRequest,
            "Invalid indexer rule kind integer: 9",
        ),
        (
            JobError::Indexer(IndexerError::DatabaseError("down".into())),
            ErrorCode::InternalServerError,
            "Database error: down",
        ),
        (JobError::DirectoryNotFound, ErrorCode::NotFound, "Directory not found"),
        (JobError::NotRunnable, ErrorCode::InternalServerError, "The job may not start now"),
    ];
    for (err, code, message) in cases {
        let shown = err.into_error();
        assert_eq!(shown.code, code);
        assert_eq!(shown.message, message);
    }
}
