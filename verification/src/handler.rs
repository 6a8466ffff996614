//! What every procedure does, as questions and answers: a handler says what
//! it wants of the store or of another collaborator, takes the answer, and
//! says what comes next, until it replies or fails. The handler itself
//! touches nothing.

use crate::error::{code_of, message_of, ErrorCode, IndexerError, RpcError};
use crate::explorer::{
    explorer_step, ExplorerAction, ExplorerEvent, ExplorerQuery, LocationExplorerArgs,
};
use crate::indexer::IndexerJobInit;
use crate::location::{
    location_code, location_message, IndexerRuleData, LocationData, LocationError,
    LocationWithIndexerRules,
};
use crate::online::{online_step, OnlineEvent, OnlineSubscription};
use crate::routes::{
    require_rule, rule_deletion, rule_deletion_plan, rule_not_found_message, RuleStoreChange,
};
use crate::rules::ParametersPerKind;
use vstd::prelude::*;
use vstd::string::*;

verus! {

/// Arguments for making a location.
#[derive(Debug)]
pub struct LocationCreateArgs {
    pub path: String,
    pub indexer_rules_ids: Vec<i32>,
}

/// Arguments for changing a location.
#[derive(Debug)]
pub struct LocationUpdateArgs {
    pub id: i32,
    pub name: Option<String>,
    pub indexer_rules_ids: Vec<i32>,
}

/// Arguments for scanning part of a location again.
#[derive(Debug)]
pub struct LightScanArgs {
    pub location_id: i32,
    pub sub_path: String,
}

/// Arguments for making an indexer rule.
#[derive(Debug)]
pub struct IndexerRuleCreateArgs {
    pub name: String,
    pub parameters: ParametersPerKind,
}

/// A rule as it is handed to the store: its kind as an integer and its
/// parameters encoded.
#[derive(Debug)]
pub struct NewIndexerRule {
    pub kind: i32,
    pub name: String,
    pub parameters: Vec<u8>,
}

/// What a caller hands to a procedure.
#[derive(Debug)]
pub enum Request {
    Nothing,
    Id(i32),
    Explorer(LocationExplorerArgs),
    NewLocation(LocationCreateArgs),
    LocationUpdate(LocationUpdateArgs),
    Path(String),
    LightScan(LightScanArgs),
    NewRule(IndexerRuleCreateArgs),
}

/// What a procedure hands back.
#[derive(Debug)]
pub enum Response {
    Done,
    Locations(Vec<LocationData>),
    Location(Option<LocationWithIndexerRules>),
    Rule(IndexerRuleData),
    Rules(Vec<IndexerRuleData>),
}

/// What a handler wants done next, or how it ended.
#[derive(Debug)]
pub enum Action {
    /// List every location.
    ListLocations,
    /// Look up the location with this id, with its rules.
    FindLocation { location_id: i32 },
    /// What the explorer query asks or answers.
    Explorer(ExplorerAction),
    /// Make a location.
    CreateLocation(LocationCreateArgs),
    /// Take a location that exists into this library.
    AddLibrary(LocationCreateArgs),
    UpdateLocation(LocationUpdateArgs),
    DeleteLocation { location_id: i32 },
    /// Attach the location at this path to its directory again.
    RelinkLocation { path: String },
    /// Submit the job that scans the whole location.
    ScanLocation(IndexerJobInit),
    /// Submit the job that scans part of the location.
    LightScanLocation(IndexerJobInit),
    /// Read the set of locations that can be reached now.
    ReadOnline,
    /// Send this set to the subscriber, then wait for the next change.
    Yield(Vec<Vec<u8>>),
    /// End the subscription.
    Close,
    /// Store a new rule.
    CreateRule(NewIndexerRule),
    /// Change the rule store.
    ChangeRules(RuleStoreChange),
    /// Look up the rule with this id.
    FindRule { indexer_rule_id: i32 },
    ListRules,
    ListRulesForLocation { location_id: i32 },
    /// The procedure is done.
    Reply(Response),
    /// The procedure failed.
    Fail(RpcError),
}

/// An answer to what was asked last.
#[derive(Debug)]
pub enum Answer {
    Locations(Vec<LocationData>),
    Location(Option<LocationWithIndexerRules>),
    Explorer(ExplorerEvent),
    /// The location that was made or taken in, or why it could not be.
    Created(Result<LocationWithIndexerRules, LocationError>),
    /// A change to a location, or a submitted scan, went through or not.
    Done(Result<(), LocationError>),
    Online(OnlineEvent),
    /// A change to the rule store went through or not.
    RuleDone(Result<(), IndexerError>),
    Rule(Option<IndexerRuleData>),
    Rules(Vec<IndexerRuleData>),
    /// The store could not answer.
    StoreFailed(String),
}

/// Where a handler stands.
#[derive(Debug)]
pub enum Handler {
    /// Waiting for the list of locations.
    Listing,
    /// Waiting for a location that is handed back as it comes.
    Getting,
    Explorer(ExplorerQuery),
    /// Waiting for the location that was made; it is scanned next.
    Creating,
    /// Waiting for the last thing asked to go through.
    Changing,
    /// Waiting for the location that is to be scanned in full.
    FindingForFullRescan { location_id: i32 },
    /// Waiting for the location of which a part is to be scanned.
    FindingForQuickRescan { args: LightScanArgs },
    Online(OnlineSubscription),
    /// Waiting for the new rule to be stored.
    CreatingRule,
    /// Deleting a rule: `done` changes of the plan have gone through, the
    /// next one was asked for.
    DeletingRule { indexer_rule_id: i32, done: usize },
    GettingRule { indexer_rule_id: i32 },
    /// Waiting for a list of rules.
    ListingRules,
    Finished,
}

/// Whether the handler ended with an error of this code and message.
pub open spec fn ends_with(after: Handler, action: Action, code: ErrorCode, message: Seq<char>) -> bool {
    &&& after is Finished
    &&& action matches Action::Fail(e)
    &&& e.code == code
    &&& e.message@ == message
}

/// Whether the handler ended with this indexer error, classified for the
/// caller.
pub open spec fn ends_with_indexer_error(after: Handler, action: Action, err: IndexerError) -> bool {
    ends_with(after, action, code_of(err), message_of(err))
}

/// Whether the handler ended with this location error, classified for the
/// caller.
pub open spec fn ends_with_location_error(after: Handler, action: Action, err: LocationError) -> bool {
    ends_with(after, action, location_code(err), location_message(err))
}

/// Whether the handler ended because an answer came that was not asked for.
pub open spec fn ends_unexpectedly(after: Handler, action: Action) -> bool {
    ends_with(after, action, ErrorCode::InternalServerError, "Unexpected answer to a request"@)
}

/// Whether the handler replied with `response`.
pub open spec fn replies(after: Handler, action: Action, response: Response) -> bool {
    after is Finished && action == Action::Reply(response)
}

/// The step of a handler: `before` receives `answer` and becomes `after`,
/// asking or answering `action`.
///
/// - A store that cannot answer ends any procedure with a database error.
/// - Listings and lookups hand back what the store found, as it is.
/// - The explorer query and the online feed go by their own steps.
/// - A location that was made or taken in is scanned in full next.
/// - A rescan of a location that is not found ends with the error that
///   names its id, and no job is submitted.
/// - A rule is deleted change by change, in the order of the plan: the
///   next change is asked for only when the one before went through.
/// - A rule that is not found ends with `NotFound` and the id in the text.
pub open spec fn handler_step(before: Handler, answer: Answer, after: Handler, action: Action) -> bool {
    match (before, answer) {
        (_, Answer::StoreFailed(reason)) => ends_with_indexer_error(
            after,
            action,
            IndexerError::DatabaseError(reason),
        ),
        (Handler::Listing, Answer::Locations(found)) => replies(
            after,
            action,
            Response::Locations(found),
        ),
        (Handler::Getting, Answer::Location(found)) => replies(
            after,
            action,
            Response::Location(found),
        ),
        (Handler::Explorer(query), Answer::Explorer(event)) => {
            &&& after matches Handler::Explorer(next)
            &&& action matches Action::Explorer(asked)
            &&& explorer_step(query, event, next, asked)
        },
        (Handler::Creating, Answer::Created(Ok(location))) => {
            &&& after is Changing
            &&& action == Action::ScanLocation(IndexerJobInit { location, sub_path: None })
        },
        (Handler::Creating, Answer::Created(Err(err))) => ends_with_location_error(
            after,
            action,
            err,
        ),
        (Handler::Changing, Answer::Done(Ok(_))) => replies(after, action, Response::Done),
        (Handler::Changing, Answer::Done(Err(err))) => ends_with_location_error(
            after,
            action,
            err,
        ),
        (Handler::FindingForFullRescan { location_id }, Answer::Location(None)) =>
            ends_with_location_error(after, action, LocationError::IdNotFound(location_id)),
        (Handler::FindingForFullRescan { location_id }, Answer::Location(Some(location))) => {
            &&& after is Changing
            &&& action == Action::ScanLocation(IndexerJobInit { location, sub_path: None })
        },
        (Handler::FindingForQuickRescan { args }, Answer::Location(None)) =>
            ends_with_location_error(after, action, LocationError::IdNotFound(args.location_id)),
        (Handler::FindingForQuickRescan { args }, Answer::Location(Some(location))) => {
            &&& after is Changing
            &&& action == Action::LightScanLocation(
                IndexerJobInit { location, sub_path: Some(args.sub_path) },
            )
        },
        (Handler::Online(subscription), Answer::Online(event)) => {
            &&& after matches Handler::Online(next)
            &&& match action {
                Action::Yield(locations) => online_step(subscription, event, next, Some(locations)),
                Action::Close => online_step(subscription, event, next, None),
                _ => false,
            }
        },
        (Handler::CreatingRule, Answer::RuleDone(Ok(_))) => replies(after, action, Response::Done),
        (Handler::CreatingRule, Answer::RuleDone(Err(err))) => ends_with_indexer_error(
            after,
            action,
            err,
        ),
        (Handler::DeletingRule { indexer_rule_id, done }, Answer::RuleDone(Ok(_))) => {
            let plan = rule_deletion_plan(indexer_rule_id);
            if done + 1 < plan.len() {
                &&& after == (Handler::DeletingRule { indexer_rule_id, done: (done + 1) as usize })
                &&& action == Action::ChangeRules(plan[done + 1])
            } else {
                replies(after, action, Response::Done)
            }
        },
        (Handler::DeletingRule { indexer_rule_id, done }, Answer::RuleDone(Err(err))) =>
            ends_with_indexer_error(after, action, err),
        (Handler::GettingRule { indexer_rule_id }, Answer::Rule(Some(rule))) => replies(
            after,
            action,
            Response::Rule(rule),
        ),
        (Handler::GettingRule { indexer_rule_id }, Answer::Rule(None)) => ends_with(
            after,
            action,
            ErrorCode::NotFound,
            rule_not_found_message(indexer_rule_id as int),
        ),
        (Handler::ListingRules, Answer::Rules(found)) => replies(
            after,
            action,
            Response::Rules(found),
        ),
        _ => ends_unexpectedly(after, action),
    }
}

/// Ends a handler with an indexer error.
pub fn fail_indexer(err: IndexerError) -> (r: (Handler, Action))
    ensures
        ends_with_indexer_error(r.0, r.1, err),
{
    (Handler::Finished, Action::Fail(RpcError::from(err)))
}

/// Ends a handler with a location error.
pub fn fail_location(err: LocationError) -> (r: (Handler, Action))
    ensures
        ends_with_location_error(r.0, r.1, err),
{
    (Handler::Finished, Action::Fail(err.into_error()))
}

/// Ends a handler with an error of the given code and text.
pub fn fail_with(code: ErrorCode, message: &str) -> (r: (Handler, Action))
    ensures
        ends_with(r.0, r.1, code, message@),
{
    (Handler::Finished, Action::Fail(RpcError { code, message: String::from_str(message) }))
}

fn reply(response: Response) -> (r: (Handler, Action))
    ensures
        replies(r.0, r.1, response),
{
    (Handler::Finished, Action::Reply(response))
}

fn scan(found: Result<IndexerJobInit, LocationError>, light: bool) -> (r: (Handler, Action))
    ensures
        match found {
            Ok(init) => r.0 is Changing && r.1 == if light {
                Action::LightScanLocation(init)
            } else {
                Action::ScanLocation(init)
            },
            Err(err) => ends_with_location_error(r.0, r.1, err),
        },
{
    match found {
        Ok(init) => if light {
            (Handler::Changing, Action::LightScanLocation(init))
        } else {
            (Handler::Changing, Action::ScanLocation(init))
        },
        Err(err) => fail_location(err),
    }
}

impl Handler {
    /// Takes the answer to what was asked last and says what comes next.
    pub fn step(self, answer: Answer) -> (r: (Handler, Action))
        ensures
            handler_step(self, answer, r.0, r.1),
    {
        match (self, answer) {
            (_, Answer::StoreFailed(reason)) => fail_indexer(IndexerError::DatabaseError(reason)),
            (Handler::Listing, Answer::Locations(found)) => reply(Response::Locations(found)),
            (Handler::Getting, Answer::Location(found)) => reply(Response::Location(found)),
            (Handler::Explorer(query), Answer::Explorer(event)) => {
                let (next, asked) = query.step(event);
                (Handler::Explorer(next), Action::Explorer(asked))
            },
            (Handler::Creating, Answer::Created(made)) => match made {
                Ok(location) => scan(Ok(IndexerJobInit { location, sub_path: None }), false),
                Err(err) => fail_location(err),
            },
            (Handler::Changing, Answer::Done(done)) => match done {
                Ok(_) => reply(Response::Done),
                Err(err) => fail_location(err),
            },
            (Handler::FindingForFullRescan { location_id }, Answer::Location(found)) => scan(
                IndexerJobInit::full_rescan(found, location_id),
                false,
            ),
            (Handler::FindingForQuickRescan { args }, Answer::Location(found)) => scan(
                IndexerJobInit::rescan_from(found, args.location_id, args.sub_path),
                true,
            ),
            (Handler::Online(subscription), Answer::Online(event)) => {
                let (next, sent) = subscription.step(event);
                match sent {
                    Some(locations) => (Handler::Online(next), Action::Yield(locations)),
                    None => (Handler::Online(next), Action::Close),
                }
            },
            (Handler::CreatingRule, Answer::RuleDone(done)) => match done {
                Ok(_) => reply(Response::Done),
                Err(err) => fail_indexer(err),
            },
            (Handler::DeletingRule { indexer_rule_id, done }, Answer::RuleDone(changed)) => {
                match changed {
                    Err(err) => fail_indexer(err),
                    Ok(_) => {
                        let plan = rule_deletion(indexer_rule_id);
                        if done < plan.len() - 1 {
                            (
                                Handler::DeletingRule { indexer_rule_id, done: done + 1 },
                                Action::ChangeRules(plan[done + 1]),
                            )
                        } else {
                            reply(Response::Done)
                        }
                    },
                }
            },
            (Handler::GettingRule { indexer_rule_id }, Answer::Rule(found)) => {
                match require_rule(found, indexer_rule_id) {
                    Ok(rule) => reply(Response::Rule(rule)),
                    Err(err) => (Handler::Finished, Action::Fail(err)),
                }
            },
            (Handler::ListingRules, Answer::Rules(found)) => reply(Response::Rules(found)),
            _ => fail_with(ErrorCode::InternalServerError, "Unexpected answer to a request"),
        }
    }
}

} // verus!
