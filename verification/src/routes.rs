//! The procedures that the request layer can call, by name.
//!
//! The router says which procedures exist, of what kind each is, and how
//! each begins: `Router::call` goes from the name a caller used and the
//! request to the handler of the procedure and the first thing it asks.
//! From there the handler goes on by `Handler::step`.

use crate::error::{ErrorCode, IndexerError, RpcError};
use crate::explorer::{ExplorerAction, ExplorerQuery};
use crate::handler::{
    ends_with, ends_with_indexer_error, fail_indexer, fail_with, Action, Handler,
    IndexerRuleCreateArgs, NewIndexerRule, Request,
};
use crate::online::OnlineSubscription;
use crate::rules::{
    int_of_kind, kind_of_parameters, rules_compile, rules_parameters, stored_form, IndexerRule,
    ParametersPerKind, RuleKind, RuleSet,
};
use crate::text::{int_decimal, push_int_decimal};
use vstd::prelude::*;
use vstd::string::*;

verus! {

/// How a procedure is called.
#[derive(Debug, Clone, Copy, PartialEq, Eq, Structural)]
pub enum ProcedureKind {
    Query,
    Mutation,
    Subscription,
}

/// The procedures on indexer rules.
#[derive(Debug, Clone, Copy, PartialEq, Eq, Structural)]
pub enum RuleProcedure {
    Create,
    Delete,
    Get,
    List,
    ListForLocation,
}

/// The procedures on locations.
#[derive(Debug, Clone, Copy, PartialEq, Eq, Structural)]
pub enum Procedure {
    List,
    GetById,
    GetExplorerData,
    Create,
    Update,
    Delete,
    Relink,
    AddLibrary,
    FullRescan,
    QuickRescan,
    Online,
    IndexerRules(RuleProcedure),
}

/// One entry of the table: the name a caller uses, the kind of call, and the
/// procedure behind it.
#[derive(Debug)]
pub struct Route {
    pub key: String,
    pub kind: ProcedureKind,
    pub procedure: Procedure,
}

/// A route as plain values.
pub struct RouteSpec {
    pub key: Seq<char>,
    pub kind: ProcedureKind,
    pub procedure: Procedure,
}

impl View for Route {
    type V = RouteSpec;

    open spec fn view(&self) -> RouteSpec {
        RouteSpec { key: self.key@, kind: self.kind, procedure: self.procedure }
    }
}

impl DeepView for Route {
    type V = RouteSpec;

    open spec fn deep_view(&self) -> RouteSpec {
        self@
    }
}

/// The rule procedures under their own names, in the order in which they are
/// registered.
pub open spec fn rule_route_table() -> Seq<RouteSpec> {
    seq![
        RouteSpec {
            key: "create"@,
            kind: ProcedureKind::Mutation,
            procedure: Procedure::IndexerRules(RuleProcedure::Create),
        },
        RouteSpec {
            key: "delete"@,
            kind: ProcedureKind::Mutation,
            procedure: Procedure::IndexerRules(RuleProcedure::Delete),
        },
        RouteSpec {
            key: "get"@,
            kind: ProcedureKind::Query,
            procedure: Procedure::IndexerRules(RuleProcedure::Get),
        },
        RouteSpec {
            key: "list"@,
            kind: ProcedureKind::Query,
            procedure: Procedure::IndexerRules(RuleProcedure::List),
        },
        RouteSpec {
            key: "listForLocation"@,
            kind: ProcedureKind::Query,
            procedure: Procedure::IndexerRules(RuleProcedure::ListForLocation),
        },
    ]
}

/// The location procedures under their own names, in the order in which they
/// are registered.
pub open spec fn location_route_table() -> Seq<RouteSpec> {
    seq![
        RouteSpec { key: "list"@, kind: ProcedureKind::Query, procedure: Procedure::List },
        RouteSpec { key: "getById"@, kind: ProcedureKind::Query, procedure: Procedure::GetById },
        RouteSpec {
            key: "getExplorerData"@,
            kind: ProcedureKind::Query,
            procedure: Procedure::GetExplorerData,
        },
        RouteSpec { key: "create"@, kind: ProcedureKind::Mutation, procedure: Procedure::Create },
        RouteSpec { key: "update"@, kind: ProcedureKind::Mutation, procedure: Procedure::Update },
        RouteSpec { key: "delete"@, kind: ProcedureKind::Mutation, procedure: Procedure::Delete },
        RouteSpec { key: "relink"@, kind: ProcedureKind::Mutation, procedure: Procedure::Relink },
        RouteSpec {
            key: "addLibrary"@,
            kind: ProcedureKind::Mutation,
            procedure: Procedure::AddLibrary,
        },
        RouteSpec {
            key: "fullRescan"@,
            kind: ProcedureKind::Mutation,
            procedure: Procedure::FullRescan,
        },
        RouteSpec {
            key: "quickRescan"@,
            kind: ProcedureKind::Mutation,
            procedure: Procedure::QuickRescan,
        },
        RouteSpec {
            key: "online"@,
            kind: ProcedureKind::Subscription,
            procedure: Procedure::Online,
        },
    ]
}

/// A table with `prefix` put before every name.
pub open spec fn prefixed_table(prefix: Seq<char>, table: Seq<RouteSpec>) -> Seq<RouteSpec> {
    Seq::new(
        table.len(),
        |i: int|
            RouteSpec {
                key: prefix + table[i].key,
                kind: table[i].kind,
                procedure: table[i].procedure,
            },
    )
}

/// The whole table: the location procedures, then the rule procedures under
/// the prefix `indexer_rules.`.
pub open spec fn route_table() -> Seq<RouteSpec> {
    location_route_table() + prefixed_table("indexer_rules."@, rule_route_table())
}

fn route(key: &str, kind: ProcedureKind, procedure: Procedure) -> (r: Route)
    ensures
        r@ == (RouteSpec { key: key@, kind, procedure }),
{
    Route { key: String::from_str(key), kind, procedure }
}

/// The procedures by name. What stands behind a name is told by `call`.
#[derive(Debug)]
pub struct Router {
    pub routes: Vec<Route>,
}

impl View for Router {
    type V = Seq<RouteSpec>;

    open spec fn view(&self) -> Seq<RouteSpec> {
        self.routes.deep_view()
    }
}

/// The router of the rule procedures: create, delete, get, list and
/// listForLocation, each of which begins as `begins` says.
pub fn mount_indexer_rule_routes() -> (r: Router)
    ensures
        r@ == rule_route_table(),
{
    let mut routes: Vec<Route> = Vec::new();
    routes.push(
        route("create", ProcedureKind::Mutation, Procedure::IndexerRules(RuleProcedure::Create)),
    );
    routes.push(
        route("delete", ProcedureKind::Mutation, Procedure::IndexerRules(RuleProcedure::Delete)),
    );
    routes.push(route("get", ProcedureKind::Query, Procedure::IndexerRules(RuleProcedure::Get)));
    routes.push(route("list", ProcedureKind::Query, Procedure::IndexerRules(RuleProcedure::List)));
    routes.push(
        route(
            "listForLocation",
            ProcedureKind::Query,
            Procedure::IndexerRules(RuleProcedure::ListForLocation),
        ),
    );
    assert(routes.deep_view() =~= rule_route_table());
    Router { routes }
}

/// Adds `more` to `routes`, each name with `prefix` before it.
pub fn merge(routes: &mut Vec<Route>, prefix: &str, more: Vec<Route>)
    ensures
        final(routes).deep_view() == old(routes).deep_view() + prefixed_table(
            prefix@,
            more.deep_view(),
        ),
{
    let ghost before = routes.deep_view();
    let ghost added = more.deep_view();
    let ghost given = more@;
    for r in it: more
        invariant
            it.seq() == given,
            added == given.map_values(|r: Route| r@),
            routes.deep_view() =~= before + prefixed_table(prefix@, added.take(it.index() as int)),
    {
        let ghost idx = it.index() as int;
        let ghost so_far = routes.deep_view();
        assert(r == given[idx]);
        assert(added[idx] == r@);
        let mut key = String::from_str(prefix);
        key.append(r.key.as_str());
        routes.push(Route { key, kind: r.kind, procedure: r.procedure });
        assert(routes.deep_view() =~= so_far.push(
            RouteSpec { key: prefix@ + r.key@, kind: r.kind, procedure: r.procedure },
        ));
        assert(routes.deep_view() =~= before + prefixed_table(prefix@, added.take(idx + 1)));
    }
    assert(added.take(added.len() as int) =~= added);
}

/// The router of every procedure: those on locations under their own
/// names, those on rules under the prefix `indexer_rules.`. Each begins as
/// `begins` says and goes on as `handler_step` says.
pub fn mount() -> (r: Router)
    ensures
        r@ == route_table(),
        forall|i: int|
            0 <= i < r@.len() ==> find_route(r@, (#[trigger] r@[i]).key) == Some(r@[i]),
{
    proof {
        lemma_every_name_is_found();
    }
    let mut routes: Vec<Route> = Vec::new();
    routes.push(route("list", ProcedureKind::Query, Procedure::List));
    routes.push(route("getById", ProcedureKind::Query, Procedure::GetById));
    routes.push(route("getExplorerData", ProcedureKind::Query, Procedure::GetExplorerData));
    routes.push(route("create", ProcedureKind::Mutation, Procedure::Create));
    routes.push(route("update", ProcedureKind::Mutation, Procedure::Update));
    routes.push(route("delete", ProcedureKind::Mutation, Procedure::Delete));
    routes.push(route("relink", ProcedureKind::Mutation, Procedure::Relink));
    routes.push(route("addLibrary", ProcedureKind::Mutation, Procedure::AddLibrary));
    routes.push(route("fullRescan", ProcedureKind::Mutation, Procedure::FullRescan));
    routes.push(route("quickRescan", ProcedureKind::Mutation, Procedure::QuickRescan));
    routes.push(route("online", ProcedureKind::Subscription, Procedure::Online));
    assert(routes.deep_view() =~= location_route_table());
    merge(&mut routes, "indexer_rules.", mount_indexer_rule_routes().routes);
    Router { routes }
}

/// The first route of `table` under the name `key`, if there is one.
pub open spec fn find_route(table: Seq<RouteSpec>, key: Seq<char>) -> Option<RouteSpec>
    decreases table.len(),
{
    if table.len() == 0 {
        None
    } else if table[0].key == key {
        Some(table[0])
    } else {
        find_route(table.skip(1), key)
    }
}

/// Every name of the table leads to its own procedure: no name stands
/// twice, so a call by name reaches the procedure that was registered under
/// it, of the kind it was registered with.
pub proof fn lemma_every_name_is_found()
    ensures
        forall|i: int|
            0 <= i < route_table().len() ==> find_route(
                route_table(),
                (#[trigger] route_table()[i]).key,
            ) == Some(route_table()[i]),
        route_table().len() == 16,
        find_route(route_table(), "list"@) matches Some(r) && r.procedure == Procedure::List,
        find_route(route_table(), "getById"@) matches Some(r) && r.procedure == Procedure::GetById,
        find_route(route_table(), "getExplorerData"@) matches Some(r) && r.procedure
            == Procedure::GetExplorerData,
        find_route(route_table(), "create"@) matches Some(r) && r.procedure == Procedure::Create,
        find_route(route_table(), "update"@) matches Some(r) && r.procedure == Procedure::Update,
        find_route(route_table(), "delete"@) matches Some(r) && r.procedure == Procedure::Delete,
        find_route(route_table(), "relink"@) matches Some(r) && r.procedure == Procedure::Relink,
        find_route(route_table(), "addLibrary"@) matches Some(r) && r.procedure
            == Procedure::AddLibrary,
        find_route(route_table(), "fullRescan"@) matches Some(r) && r.procedure
            == Procedure::FullRescan,
        find_route(route_table(), "quickRescan"@) matches Some(r) && r.procedure
            == Procedure::QuickRescan,
        find_route(route_table(), "online"@) matches Some(r) && r.procedure == Procedure::Online,
        find_route(route_table(), "indexer_rules.create"@) matches Some(r) && r.procedure
            == Procedure::IndexerRules(RuleProcedure::Create),
        find_route(route_table(), "indexer_rules.delete"@) matches Some(r) && r.procedure
            == Procedure::IndexerRules(RuleProcedure::Delete),
        find_route(route_table(), "indexer_rules.get"@) matches Some(r) && r.procedure
            == Procedure::IndexerRules(RuleProcedure::Get),
        find_route(route_table(), "indexer_rules.list"@) matches Some(r) && r.procedure
            == Procedure::IndexerRules(RuleProcedure::List),
        find_route(route_table(), "indexer_rules.listForLocation"@) matches Some(r) && r.procedure
            == Procedure::IndexerRules(RuleProcedure::ListForLocation),
{
    reveal_strlit("list");
    reveal_strlit("getById");
    reveal_strlit("getExplorerData");
    reveal_strlit("create");
    reveal_strlit("update");
    reveal_strlit("delete");
    reveal_strlit("relink");
    reveal_strlit("addLibrary");
    reveal_strlit("fullRescan");
    reveal_strlit("quickRescan");
    reveal_strlit("online");
    reveal_strlit("get");
    reveal_strlit("listForLocation");
    reveal_strlit("indexer_rules.");
    reveal_strlit("indexer_rules.create");
    reveal_strlit("indexer_rules.delete");
    reveal_strlit("indexer_rules.get");
    reveal_strlit("indexer_rules.list");
    reveal_strlit("indexer_rules.listForLocation");
    let table = route_table();
    let prefix = "indexer_rules."@;
    assert(prefix + "create"@ =~= "indexer_rules.create"@);
    assert(prefix + "delete"@ =~= "indexer_rules.delete"@);
    assert(prefix + "get"@ =~= "indexer_rules.get"@);
    assert(prefix + "list"@ =~= "indexer_rules.list"@);
    assert(prefix + "listForLocation"@ =~= "indexer_rules.listForLocation"@);
    assert(table.len() == 16);
    assert forall|i: int, j: int| 0 <= i < j < 16 implies table[i].key != table[j].key by {
        lemma_keys_differ(i, j);
    }
    assert forall|i: int| 0 <= i < table.len() implies find_route(table, (#[trigger] table[i]).key)
        == Some(table[i]) by {
        lemma_first_with_key(table, i);
    }
    assert(table[0].key == "list"@);
    assert(table[1].key == "getById"@);
    assert(table[2].key == "getExplorerData"@);
    assert(table[3].key == "create"@);
    assert(table[4].key == "update"@);
    assert(table[5].key == "delete"@);
    assert(table[6].key == "relink"@);
    assert(table[7].key == "addLibrary"@);
    assert(table[8].key == "fullRescan"@);
    assert(table[9].key == "quickRescan"@);
    assert(table[10].key == "online"@);
    assert(table[11].key == "indexer_rules.create"@);
    assert(table[12].key == "indexer_rules.delete"@);
    assert(table[13].key == "indexer_rules.get"@);
    assert(table[14].key == "indexer_rules.list"@);
    assert(table[15].key == "indexer_rules.listForLocation"@);
}

/// Two names of the table that stand at different places differ.
proof fn lemma_keys_differ(i: int, j: int)
    requires
        0 <= i < j < 16,
    ensures
        route_table().len() == 16,
        route_table()[i].key != route_table()[j].key,
{
    reveal_strlit("list");
    reveal_strlit("getById");
    reveal_strlit("getExplorerData");
    reveal_strlit("create");
    reveal_strlit("update");
    reveal_strlit("delete");
    reveal_strlit("relink");
    reveal_strlit("addLibrary");
    reveal_strlit("fullRescan");
    reveal_strlit("quickRescan");
    reveal_strlit("online");
    reveal_strlit("get");
    reveal_strlit("listForLocation");
    reveal_strlit("indexer_rules.");
    let table = route_table();
    let a = table[i].key;
    let b = table[j].key;
    if a.len() == b.len() {
        // Names of one length differ in their first, second, fifth or
        // fifteenth letter.
        assert(a[0] != b[0] || a[1] != b[1] || a[4] != b[4] || a[14] != b[14]);
    }
}

/// The route at a place whose name stands nowhere before it is the one
/// that its name finds.
proof fn lemma_first_with_key(table: Seq<RouteSpec>, i: int)
    requires
        0 <= i < table.len(),
        forall|a: int, b: int| 0 <= a < b < table.len() ==> table[a].key != table[b].key,
    ensures
        find_route(table, table[i].key) == Some(table[i]),
    decreases i,
{
    if i > 0 {
        let rest = table.skip(1);
        assert forall|a: int, b: int| 0 <= a < b < rest.len() implies rest[a].key
            != rest[b].key by {
            assert(rest[a] == table[a + 1]);
            assert(rest[b] == table[b + 1]);
        }
        assert(rest[i - 1] == table[i]);
        lemma_first_with_key(rest, i - 1);
        assert(table[0].key != table[i].key);
    }
}

/// Looks a procedure up by the name a caller used.
pub fn resolve(routes: &Vec<Route>, key: &str) -> (r: Option<(ProcedureKind, Procedure)>)
    ensures
        match find_route(routes.deep_view(), key@) {
            Some(route) => r == Some((route.kind, route.procedure)),
            None => r is None,
        },
{
    let wanted = String::from_str(key);
    let ghost table = routes.deep_view();
    let mut i: usize = 0;
    assert(table.skip(0) =~= table);
    while i < routes.len()
        invariant
            i <= routes.len(),
            table == routes.deep_view(),
            wanted@ == key@,
            find_route(table, key@) == find_route(table.skip(i as int), key@),
        decreases routes.len() - i,
    {
        assert(table.skip(i as int).len() > 0);
        assert(table.skip(i as int)[0] == routes@[i as int]@);
        if routes[i].key == wanted {
            return Some((routes[i].kind, routes[i].procedure));
        }
        assert(table.skip(i as int).skip(1) =~= table.skip(i + 1));
        i = i + 1;
    }
    assert(table.skip(i as int).len() == 0);
    None
}

/// Text that says that no rule is stored under `id`.
pub open spec fn rule_not_found_message(id: int) -> Seq<char> {
    "Indexer rule <id="@ + int_decimal(id) + "> not found"@
}

/// Looks at the answer of the store to "the rule with this id": the rule
/// where there is one, else a `NotFound` error that names the id.
pub fn require_rule<R>(found: Option<R>, indexer_rule_id: i32) -> (r: Result<R, RpcError>)
    ensures
        match found {
            Some(rule) => r == Ok::<R, RpcError>(rule),
            None => r matches Err(e) && e.code == ErrorCode::NotFound && e.message@
                == rule_not_found_message(indexer_rule_id as int),
        },
{
    match found {
        Some(rule) => Ok(rule),
        None => {
            let mut message = String::from_str("Indexer rule <id=");
            push_int_decimal(&mut message, indexer_rule_id as i64);
            message.append("> not found");
            Err(RpcError { code: ErrorCode::NotFound, message })
        },
    }
}

/// A change to the rule store.
#[derive(Debug, Clone, Copy, PartialEq, Eq, Structural)]
pub enum RuleStoreChange {
    /// Detach the rule from every location.
    DeleteLinks { indexer_rule_id: i32 },
    /// Delete the rule itself.
    DeleteRule { indexer_rule_id: i32 },
}

/// What deleting a rule asks of the store, in order: first the links to
/// locations go, then the rule, so that no link ever names a missing rule.
pub fn rule_deletion(indexer_rule_id: i32) -> (r: Vec<RuleStoreChange>)
    ensures
        r@ == rule_deletion_plan(indexer_rule_id),
{
    let mut plan: Vec<RuleStoreChange> = Vec::new();
    plan.push(RuleStoreChange::DeleteLinks { indexer_rule_id });
    plan.push(RuleStoreChange::DeleteRule { indexer_rule_id });
    assert(plan@ =~= seq![
        RuleStoreChange::DeleteLinks { indexer_rule_id },
        RuleStoreChange::DeleteRule { indexer_rule_id },
    ]);
    plan
}

/// The changes that delete the rule `id`, in order.
pub open spec fn rule_deletion_plan(indexer_rule_id: i32) -> Seq<RuleStoreChange> {
    seq![
        RuleStoreChange::DeleteLinks { indexer_rule_id },
        RuleStoreChange::DeleteRule { indexer_rule_id },
    ]
}

/// Whether the handler ended because a pattern did not compile.
pub open spec fn reports_glob_failure(handler: Handler, action: Action) -> bool {
    exists|cause: IndexerError|
        cause is GlobBuilderError && #[trigger] ends_with_indexer_error(handler, action, cause)
}

/// Whether the handler ended because the parameters could not be encoded.
pub open spec fn reports_encode_failure(handler: Handler, action: Action) -> bool {
    exists|cause: IndexerError|
        cause is RuleParametersRMPEncode && #[trigger] ends_with_indexer_error(
            handler,
            action,
            cause,
        )
}

/// How making a rule begins. A pattern that does not compile is the
/// caller's fault and ends the procedure at once; else the store is asked
/// to keep the rule, with its kind as an integer and its parameters in
/// their stored form.
pub open spec fn rule_create_begins(args: IndexerRuleCreateArgs, handler: Handler, action: Action) -> bool {
    let parameters = args.parameters@;
    if !rules_compile(seq![parameters]) {
        reports_glob_failure(handler, action)
    } else {
        ||| {
            &&& handler is CreatingRule
            &&& action matches Action::CreateRule(rule)
            &&& rule.kind == int_of_kind(kind_of_parameters(parameters))
            &&& rule.name == args.name
            &&& rule.parameters@ == stored_form(parameters)
        }
        ||| reports_encode_failure(handler, action)
    }
}

/// How every procedure begins: the handler it is given to, and the first
/// thing that handler asks. A request that does not fit the procedure is
/// the caller's fault.
pub open spec fn begins(procedure: Procedure, request: Request, handler: Handler, action: Action) -> bool {
    match (procedure, request) {
        (Procedure::List, Request::Nothing) => handler is Listing && action is ListLocations,
        (Procedure::GetById, Request::Id(location_id)) => handler is Getting && action
            == (Action::FindLocation { location_id }),
        (Procedure::GetExplorerData, Request::Explorer(args)) => {
            &&& handler == Handler::Explorer(ExplorerQuery::FindingLocation { args })
            &&& action == Action::Explorer(
                ExplorerAction::FindLocation { location_id: args.location_id },
            )
        },
        (Procedure::Create, Request::NewLocation(args)) => handler is Creating && action
            == Action::CreateLocation(args),
        (Procedure::Update, Request::LocationUpdate(args)) => handler is Changing && action
            == Action::UpdateLocation(args),
        (Procedure::Delete, Request::Id(location_id)) => handler is Changing && action
            == (Action::DeleteLocation { location_id }),
        (Procedure::Relink, Request::Path(path)) => handler is Changing && action
            == (Action::RelinkLocation { path }),
        (Procedure::AddLibrary, Request::NewLocation(args)) => handler is Creating && action
            == Action::AddLibrary(args),
        (Procedure::FullRescan, Request::Id(location_id)) => {
            &&& handler == (Handler::FindingForFullRescan { location_id })
            &&& action == (Action::FindLocation { location_id })
        },
        (Procedure::QuickRescan, Request::LightScan(args)) => {
            &&& handler == (Handler::FindingForQuickRescan { args })
            &&& action == (Action::FindLocation { location_id: args.location_id })
        },
        (Procedure::Online, Request::Nothing) => {
            &&& handler == Handler::Online(OnlineSubscription::Attached)
            &&& action is ReadOnline
        },
        (Procedure::IndexerRules(RuleProcedure::Create), Request::NewRule(args)) =>
            rule_create_begins(args, handler, action),
        (Procedure::IndexerRules(RuleProcedure::Delete), Request::Id(indexer_rule_id)) => {
            &&& handler == (Handler::DeletingRule { indexer_rule_id, done: 0 })
            &&& action == Action::ChangeRules(rule_deletion_plan(indexer_rule_id)[0])
        },
        (Procedure::IndexerRules(RuleProcedure::Get), Request::Id(indexer_rule_id)) => {
            &&& handler == (Handler::GettingRule { indexer_rule_id })
            &&& action == (Action::FindRule { indexer_rule_id })
        },
        (Procedure::IndexerRules(RuleProcedure::List), Request::Nothing) => handler
            is ListingRules && action is ListRules,
        (Procedure::IndexerRules(RuleProcedure::ListForLocation), Request::Id(location_id)) =>
            handler is ListingRules && action == (Action::ListRulesForLocation { location_id }),
        _ => ends_with(
            handler,
            action,
            ErrorCode::BadRequest,
            "The request does not fit the procedure"@,
        ),
    }
}

fn begin_rule_create(args: IndexerRuleCreateArgs) -> (r: (Handler, Action))
    ensures
        rule_create_begins(args, r.0, r.1),
{
    let kind = match &args.parameters {
        ParametersPerKind::AcceptFilesByGlob(_) => RuleKind::AcceptFilesByGlob,
        ParametersPerKind::RejectFilesByGlob(_) => RuleKind::RejectFilesByGlob,
        ParametersPerKind::AcceptIfChildrenDirectoriesArePresent(_) =>
            RuleKind::AcceptIfChildrenDirectoriesArePresent,
        ParametersPerKind::RejectIfChildrenDirectoriesArePresent(_) =>
            RuleKind::RejectIfChildrenDirectoriesArePresent,
    };
    let ghost parameters = args.parameters@;
    let rule = IndexerRule { id: None, kind, name: args.name, parameters: args.parameters };
    let mut rules: Vec<IndexerRule> = Vec::new();
    rules.push(rule);
    assert(rules_parameters(rules@) =~= seq![parameters]);
    match RuleSet::compile(&rules) {
        Err(cause) => {
            let r = fail_indexer(cause);
            assert(ends_with_indexer_error(r.0, r.1, cause));
            r
        },
        Ok(_) => {
            let rule = rules.pop().unwrap();
            match rule.serialize_parameters() {
                Ok(bytes) => (
                    Handler::CreatingRule,
                    Action::CreateRule(
                        NewIndexerRule {
                            kind: rule.kind.int_value(),
                            name: rule.name,
                            parameters: bytes,
                        },
                    ),
                ),
                Err(cause) => {
                    let r = fail_indexer(cause);
                    assert(ends_with_indexer_error(r.0, r.1, cause));
                    r
                },
            }
        },
    }
}

/// Begins a procedure on a request.
pub fn begin(procedure: Procedure, request: Request) -> (r: (Handler, Action))
    ensures
        begins(procedure, request, r.0, r.1),
{
    match (procedure, request) {
        (Procedure::List, Request::Nothing) => (Handler::Listing, Action::ListLocations),
        (Procedure::GetById, Request::Id(location_id)) => (
            Handler::Getting,
            Action::FindLocation { location_id },
        ),
        (Procedure::GetExplorerData, Request::Explorer(args)) => {
            let (query, asked) = ExplorerQuery::start(args);
            (Handler::Explorer(query), Action::Explorer(asked))
        },
        (Procedure::Create, Request::NewLocation(args)) => (
            Handler::Creating,
            Action::CreateLocation(args),
        ),
        (Procedure::Update, Request::LocationUpdate(args)) => (
            Handler::Changing,
            Action::UpdateLocation(args),
        ),
        (Procedure::Delete, Request::Id(location_id)) => (
            Handler::Changing,
            Action::DeleteLocation { location_id },
        ),
        (Procedure::Relink, Request::Path(path)) => (
            Handler::Changing,
            Action::RelinkLocation { path },
        ),
        (Procedure::AddLibrary, Request::NewLocation(args)) => (
            Handler::Creating,
            Action::AddLibrary(args),
        ),
        (Procedure::FullRescan, Request::Id(location_id)) => (
            Handler::FindingForFullRescan { location_id },
            Action::FindLocation { location_id },
        ),
        (Procedure::QuickRescan, Request::LightScan(args)) => {
            let location_id = args.location_id;
            (Handler::FindingForQuickRescan { args }, Action::FindLocation { location_id })
        },
        (Procedure::Online, Request::Nothing) => (
            Handler::Online(OnlineSubscription::attach()),
            Action::ReadOnline,
        ),
        (Procedure::IndexerRules(RuleProcedure::Create), Request::NewRule(args)) =>
            begin_rule_create(args),
        (Procedure::IndexerRules(RuleProcedure::Delete), Request::Id(indexer_rule_id)) => {
            let plan = rule_deletion(indexer_rule_id);
            (Handler::DeletingRule { indexer_rule_id, done: 0 }, Action::ChangeRules(plan[0]))
        },
        (Procedure::IndexerRules(RuleProcedure::Get), Request::Id(indexer_rule_id)) => (
            Handler::GettingRule { indexer_rule_id },
            Action::FindRule { indexer_rule_id },
        ),
        (Procedure::IndexerRules(RuleProcedure::List), Request::Nothing) => (
            Handler::ListingRules,
            Action::ListRules,
        ),
        (Procedure::IndexerRules(RuleProcedure::ListForLocation), Request::Id(location_id)) => (
            Handler::ListingRules,
            Action::ListRulesForLocation { location_id },
        ),
        _ => fail_with(ErrorCode::BadRequest, "The request does not fit the procedure"),
    }
}

/// The text that says that no procedure has the name `key`.
pub open spec fn unknown_procedure_message(key: Seq<char>) -> Seq<char> {
    "No procedure is called "@ + key
}

impl Router {
    /// Looks a procedure up by the name a caller used.
    pub fn resolve(&self, key: &str) -> (r: Option<(ProcedureKind, Procedure)>)
        ensures
            match find_route(self@, key@) {
                Some(route) => r == Some((route.kind, route.procedure)),
                None => r is None,
            },
    {
        resolve(&self.routes, key)
    }

    /// Calls the procedure that has the name `key`: it begins on `request`
    /// as `begins` says. A name that no procedure has ends the call with
    /// `NotFound`.
    pub fn call(&self, key: &str, request: Request) -> (r: (Handler, Action))
        ensures
            match find_route(self@, key@) {
                Some(route) => begins(route.procedure, request, r.0, r.1),
                None => ends_with(
                    r.0,
                    r.1,
                    ErrorCode::NotFound,
                    unknown_procedure_message(key@),
                ),
            },
    {
        match self.resolve(key) {
            Some((_, procedure)) => begin(procedure, request),
            None => {
                let mut message = String::from_str("No procedure is called ");
                message.append(key);
                (Handler::Finished, Action::Fail(RpcError { code: ErrorCode::NotFound, message }))
            },
        }
    }
}

} // verus!
