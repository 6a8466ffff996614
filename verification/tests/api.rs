use sd_core::error::{ErrorCode, ErrorKind, IndexerError, RpcError};
use sd_core::explorer::{
    normalize_directory_path, ExplorerAction, ExplorerContext, ExplorerEvent, ExplorerItem,
    ExplorerQuery, LocationExplorerArgs,
};
use sd_core::location::{require_location, FilePathWithObject, LocationData, LocationError};
use sd_core::routes::{
    mount, mount_indexer_rule_routes, require_rule, resolve, rule_deletion, Procedure,
    ProcedureKind, RuleProcedure, RuleStoreChange,
};
use sd_core::text::{has_trailing_separator, push_decimal, push_int_decimal};

fn location() -> LocationData {
    LocationData { id: 3, pub_id: vec![1, 2, 3], name: "Photos".to_string(), local_path: "/photos".to_string() }
}

fn row(id: i32, name: &str, cas_id: Option<&str>) -> FilePathWithObject {
    FilePathWithObject {
        id,
        location_id: 3,
        materialized_path: format!("tmp/{}", name),
        name: name.to_string(),
        extension: String::new(),
        is_dir: false,
        parent_id: Some(2),
        cas_id: cas_id.map(|c| c.to_string()),
        object: None,
    }
}

fn args(path: &str) -> LocationExplorerArgs {
    LocationExplorerArgs { location_id: 3, path: path.to_string(), limit: 100, cursor: None }
}

fn decimal(n: i64) -> String {
    let mut out = String::new();
    push_int_decimal(&mut out, n);
    out
}

#[test]
fn numbers_are_written_in_decimal() {
    assert_eq!(decimal(0), "0");
    assert_eq!(decimal(7), "7");
    assert_eq!(decimal(10), "10");
    assert_eq!(decimal(-45), "-45");
    assert_eq!(decimal(i32::MIN as i64), "-2147483648");
    assert_eq!(decimal(i64::MAX), "9223372036854775807");
    assert_eq!(decimal(i64::MIN), "-9223372036854775808");
    let mut out = "n=".to_string();
    push_decimal(&mut out, u64::MAX);
    assert_eq!(out, "n=18446744073709551615");
}

#[test]
fn indexer_errors_have_their_messages() {
    assert_eq!(IndexerError::IndexerRuleNotFound(12).to_string(), "Indexer rule not found: <id=12>");
    assert_eq!(
        IndexerError::InvalidRuleKindInt(-3).to_string(),
        "Invalid indexer rule kind integer: -3"
    );
    assert_eq!(IndexerError::GlobBuilderError("x".into()).to_string(), "Glob builder error: x");
    assert_eq!(IndexerError::DatabaseError("x".into()).to_string(), "Database error: x");
    assert_eq!(IndexerError::IOError("x".into()).to_string(), "I/O error: x");
    assert_eq!(
        IndexerError::RuleParametersSerdeJson("x".into()).to_string(),
        "Indexer rule parameters json serialization error: x"
    );
    assert_eq!(
        IndexerError::RuleParametersRMPEncode("x".into()).to_string(),
        "Indexer rule parameters encode error: x"
    );
    assert_eq!(
        IndexerError::RuleParametersRMPDecode("x".into()).to_string(),
        "Indexer rule parameters decode error: x"
    );
    assert_eq!(
        IndexerError::FilePathError("x".into()).to_string(),
        "File path related error (error: x)"
    );
}

#[test]
fn indexer_errors_are_classified_for_callers() {
    assert_eq!(IndexerError::IndexerRuleNotFound(1).code(), ErrorCode::NotFound);
    assert_eq!(IndexerError::InvalidRuleKindInt(1).code(), ErrorCode::BadRequest);
    assert_eq!(IndexerError::GlobBuilderError("x".into()).code(), ErrorCode::BadRequest);
    assert_eq!(IndexerError::DatabaseError("x".into()).code(), ErrorCode::InternalServerError);
    assert_eq!(IndexerError::IOError("x".into()).code(), ErrorCode::InternalServerError);
    assert_eq!(
        IndexerError::RuleParametersSerdeJson("x".into()).code(),
        ErrorCode::InternalServerError
    );
    assert_eq!(
        IndexerError::RuleParametersRMPEncode("x".into()).code(),
        ErrorCode::InternalServerError
    );
    assert_eq!(
        IndexerError::RuleParametersRMPDecode("x".into()).code(),
        ErrorCode::InternalServerError
    );
    assert_eq!(IndexerError::FilePathError("x".into()).code(), ErrorCode::InternalServerError);
    let shown = RpcError::from(IndexerError::IndexerRuleNotFound(5));
    assert_eq!(shown.code, ErrorCode::NotFound);
    assert_eq!(shown.message, "Indexer rule not found: <id=5>");
    let internal = RpcError::from(IndexerError::DatabaseError("down".into()));
    assert_eq!(internal.code, ErrorCode::InternalServerError);
    assert_eq!(internal.message, "Database error: down");
}

#[test]
fn indexer_errors_have_their_kinds() {
    assert_eq!(IndexerError::IndexerRuleNotFound(1).kind(), ErrorKind::NotFound);
    assert_eq!(IndexerError::InvalidRuleKindInt(1).kind(), ErrorKind::InvalidInput);
    assert_eq!(IndexerError::GlobBuilderError("x".into()).kind(), ErrorKind::InvalidInput);
    assert_eq!(IndexerError::DatabaseError("x".into()).kind(), ErrorKind::PersistenceError);
    assert_eq!(IndexerError::IOError("x".into()).kind(), ErrorKind::IOError);
    assert_eq!(IndexerError::FilePathError("x".into()).kind(), ErrorKind::IOError);
    assert_eq!(
        IndexerError::RuleParametersSerdeJson("x".into()).kind(),
        ErrorKind::SerializationError
    );
    assert_eq!(
        IndexerError::RuleParametersRMPEncode("x".into()).kind(),
        ErrorKind::SerializationError
    );
    assert_eq!(
        IndexerError::RuleParametersRMPDecode("x".into()).kind(),
        ErrorKind::SerializationError
    );
}

#[test]
fn location_errors_are_classified_for_callers() {
    let missing = LocationError::IdNotFound(4).into_error();
    assert_eq!(missing.code, ErrorCode::NotFound);
    assert_eq!(missing.message, "Location not found <id=4>");
    let io = LocationError::IOError("disk".into()).into_error();
    assert_eq!(io.code, ErrorCode::InternalServerError);
    assert_eq!(io.message, "I/O error (error: disk)");
    assert!(matches!(require_location::<u8>(None, 4), Err(LocationError::IdNotFound(4))));
    assert_eq!(require_location(Some(9u8), 4).unwrap(), 9);
}

#[test]
fn directory_keys_end_with_one_separator() {
    assert_eq!(normalize_directory_path("tmp".to_string()), "tmp/");
    assert_eq!(normalize_directory_path("tmp/".to_string()), "tmp/");
    assert_eq!(normalize_directory_path(String::new()), "/");
    assert_eq!(normalize_directory_path("/".to_string()), "/");
    assert!(has_trailing_separator("a/"));
    assert!(!has_trailing_separator("a"));
    assert!(!has_trailing_separator(""));
}

#[test]
fn explorer_lists_a_directory() {
    let (query, action) = ExplorerQuery::start(args("tmp"));
    assert!(matches!(action, ExplorerAction::FindLocation { location_id: 3 }));
    let (query, action) = query.step(ExplorerEvent::Location(Some(location())));
    match action {
        ExplorerAction::FindDirectory { location_id, materialized_path } => {
            assert_eq!(location_id, 3);
            assert_eq!(materialized_path, "tmp/");
        }
        other => panic!("unexpected: {:?}", other),
    }
    let mut dir = row(2, "tmp", None);
    dir.is_dir = true;
    let (query, action) = query.step(ExplorerEvent::Directory(Some(dir)));
    assert!(matches!(action, ExplorerAction::FindChildren { location_id: 3, parent_id: 2 }));
    let children = vec![
        row(10, "plain", None),
        row(11, "first", Some("cas-1")),
        row(12, "other", None),
        row(13, "second", Some("cas-2")),
        row(14, "last", None),
    ];
    let (query, action) = query.step(ExplorerEvent::Children(children));
    assert!(matches!(&action, ExplorerAction::CheckThumbnail { cas_id } if cas_id == "cas-1"));
    let (query, action) = query.step(ExplorerEvent::Thumbnail(Ok(true)));
    assert!(matches!(&action, ExplorerAction::CheckThumbnail { cas_id } if cas_id == "cas-2"));
    let (query, action) = query.step(ExplorerEvent::Thumbnail(Ok(false)));
    assert!(matches!(query, ExplorerQuery::Finished));
    let data = match action {
        ExplorerAction::Reply(data) => data,
        other => panic!("unexpected: {:?}", other),
    };
    assert!(matches!(&data.context, ExplorerContext::Location(l) if l.id == 3));
    let listed: Vec<(i32, bool)> = data
        .items
        .iter()
        .map(|item| match item {
            ExplorerItem::Path { has_thumbnail, item } => (item.id, *has_thumbnail),
            ExplorerItem::Object { .. } => panic!("unexpected object"),
        })
        .collect();
    assert_eq!(listed, vec![(10, false), (11, true), (12, false), (13, false), (14, false)]);
}

#[test]
fn explorer_lists_an_empty_directory_and_one_without_content_addresses() {
    let (query, _) = ExplorerQuery::start(args("/"));
    let (query, _) = query.step(ExplorerEvent::Location(Some(location())));
    let (query, _) = query.step(ExplorerEvent::Directory(Some(row(1, "", None))));
    let (query, action) = query.step(ExplorerEvent::Children(Vec::new()));
    assert!(matches!(query, ExplorerQuery::Finished));
    assert!(matches!(action, ExplorerAction::Reply(data) if data.items.is_empty()));

    let (query, _) = ExplorerQuery::start(args("/"));
    let (query, _) = query.step(ExplorerEvent::Location(Some(location())));
    let (query, _) = query.step(ExplorerEvent::Directory(Some(row(1, "", None))));
    let (_, action) = query.step(ExplorerEvent::Children(vec![row(5, "a", None), row(6, "b", None)]));
    assert!(matches!(action, ExplorerAction::Reply(data) if data.items.len() == 2));
}

#[test]
fn explorer_fails_for_a_missing_location() {
    let (query, _) = ExplorerQuery::start(args("tmp"));
    let (query, action) = query.step(ExplorerEvent::Location(None));
    assert!(matches!(query, ExplorerQuery::Finished));
    match action {
        ExplorerAction::Fail(e) => {
            assert_eq!(e.code, ErrorCode::NotFound);
            assert_eq!(e.message, "Location not found <id=3>");
        }
        other => panic!("unexpected: {:?}", other),
    }
}

#[test]
fn explorer_fails_for_a_missing_directory() {
    let (query, _) = ExplorerQuery::start(args("nowhere"));
    let (query, _) = query.step(ExplorerEvent::Location(Some(location())));
    let (_, action) = query.step(ExplorerEvent::Directory(None));
    match action {
        ExplorerAction::Fail(e) => {
            assert_eq!(e.code, ErrorCode::NotFound);
            assert_eq!(e.message, "Directory not found");
        }
        other => panic!("unexpected: {:?}", other),
    }
}

#[test]
fn explorer_fails_when_the_thumbnail_cache_cannot_be_read() {
    let (query, _) = ExplorerQuery::start(args("tmp"));
    let (query, _) = query.step(ExplorerEvent::Location(Some(location())));
    let (query, _) = query.step(ExplorerEvent::Directory(Some(row(2, "tmp", None))));
    let (query, _) = query.step(ExplorerEvent::Children(vec![row(11, "first", Some("cas-1"))]));
    let (query, action) = query.step(ExplorerEvent::Thumbnail(Err("denied".to_string())));
    assert!(matches!(query, ExplorerQuery::Finished));
    match action {
        ExplorerAction::Fail(e) => {
            assert_eq!(e.code, ErrorCode::InternalServerError);
            assert_eq!(e.message, "I/O error (error: denied)");
        }
        other => panic!("unexpected: {:?}", other),
    }
}

#[test]
fn explorer_refuses_an_answer_it_did_not_ask_for() {
    let (query, _) = ExplorerQuery::start(args("tmp"));
    let (query, action) = query.step(ExplorerEvent::Children(Vec::new()));
    assert!(matches!(query, ExplorerQuery::Finished));
    assert!(matches!(action, ExplorerAction::Fail(e) if e.code == ErrorCode::InternalServerError));
    let (_, action) = ExplorerQuery::Finished.step(ExplorerEvent::Location(None));
    assert!(matches!(action, ExplorerAction::Fail(_)));
}

#[test]
fn the_route_table_names_every_procedure() {
    let routes = mount().routes;
    let keys: Vec<&str> = routes.iter().map(|r| r.key.as_str()).collect();
    assert_eq!(
        keys,
        vec![
            "list",
            "getById",
            "getExplorerData",
            "create",
            "update",
            "delete",
            "relink",
            "addLibrary",
            "fullRescan",
            "quickRescan",
            "online",
            "indexer_rules.create",
            "indexer_rules.delete",
            "indexer_rules.get",
            "indexer_rules.list",
            "indexer_rules.listForLocation",
        ]
    );
    assert_eq!(routes[0].kind, ProcedureKind::Query);
    assert_eq!(routes[3].kind, ProcedureKind::Mutation);
    assert_eq!(routes[10].kind, ProcedureKind::Subscription);
    assert_eq!(routes[13].procedure, Procedure::IndexerRules(RuleProcedure::Get));
    let rules = mount_indexer_rule_routes().routes;
    let keys: Vec<&str> = rules.iter().map(|r| r.key.as_str()).collect();
    assert_eq!(keys, vec!["create", "delete", "get", "list", "listForLocation"]);
}

#[test]
fn procedures_are_found_by_name() {
    let router = mount();
    assert_eq!(router.resolve("online"), Some((ProcedureKind::Subscription, Procedure::Online)));
    assert_eq!(router.resolve("nothing"), None);
    let routes = router.routes;
    assert_eq!(resolve(&routes, "fullRescan"), Some((ProcedureKind::Mutation, Procedure::FullRescan)));
    assert_eq!(resolve(&routes, "list"), Some((ProcedureKind::Query, Procedure::List)));
    assert_eq!(
        resolve(&routes, "indexer_rules.list"),
        Some((ProcedureKind::Query, Procedure::IndexerRules(RuleProcedure::List)))
    );
    assert_eq!(
        resolve(&routes, "indexer_rules.delete"),
        Some((ProcedureKind::Mutation, Procedure::IndexerRules(RuleProcedure::Delete)))
    );
    assert_eq!(resolve(&routes, "online"), Some((ProcedureKind::Subscription, Procedure::Online)));
    assert_eq!(resolve(&routes, "indexer_rules."), None);
    assert_eq!(resolve(&routes, "get"), None);
    assert_eq!(resolve(&routes, ""), None);
}

#[test]
fn a_missing_rule_is_reported_by_id() {
    match require_rule::<u8>(None, 42) {
        Err(e) => {
            assert_eq!(e.code, ErrorCode::NotFound);
            assert_eq!(e.message, "Indexer rule <id=42> not found");
        }
        Ok(_) => panic!("a rule was found"),
    }
    assert_eq!(require_rule(Some(1u8), 42).unwrap(), 1);
}

#[test]
fn a_rule_loses_its_links_before_it_is_deleted() {
    assert_eq!(
        rule_deletion(6),
        vec![
            RuleStoreChange::DeleteLinks { indexer_rule_id: 6 },
            RuleStoreChange::DeleteRule { indexer_rule_id: 6 },
        ]
    );
}
