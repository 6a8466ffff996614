//! The explorer query: what a directory of a location holds, as a sequence of
//! questions to the store and the thumbnail cache.
//!
//! The query itself never touches a store. It says which question comes
//! next, and takes the answer as an event.

use crate::error::{RpcError, ErrorCode};
use crate::location::{
    location_code, location_message, FilePathWithObject, LocationData, LocationError,
    ObjectWithFilePaths, TagData,
};
use crate::text::{ends_with_separator, has_trailing_separator};
use std::collections::VecDeque;
use vstd::prelude::*;
use vstd::string::*;

verus! {

/// What an explorer listing is a listing of.
#[derive(Debug)]
pub enum ExplorerContext {
    Location(LocationData),
    Tag(TagData),
}

/// One line of an explorer listing.
#[derive(Debug)]
#[allow(inconsistent_fields)]
pub enum ExplorerItem {
    Path {
        /// Whether a thumbnail of the content exists on this device.
        has_thumbnail: bool,
        item: FilePathWithObject,
    },
    Object { has_thumbnail: bool, item: ObjectWithFilePaths },
}

/// An explorer listing.
#[derive(Debug)]
pub struct ExplorerData {
    pub context: ExplorerContext,
    pub items: Vec<ExplorerItem>,
}

/// Arguments of the explorer query.
#[derive(Debug)]
pub struct LocationExplorerArgs {
    pub location_id: i32,
    pub path: String,
    pub limit: i32,
    pub cursor: Option<String>,
}

/// The key under which a directory is stored: its path with one trailing
/// separator.
pub open spec fn directory_key(path: Seq<char>) -> Seq<char> {
    if ends_with_separator(path) {
        path
    } else {
        path.push('/')
    }
}

/// Turns a requested path into the key under which the directory is stored.
pub fn normalize_directory_path(path: String) -> (r: String)
    ensures
        r@ == directory_key(path@),
{
    if has_trailing_separator(path.as_str()) {
        path
    } else {
        proof {
            reveal_strlit("/");
        }
        let ghost given = path@;
        let mut path = path;
        path.append("/");
        assert(path@ =~= directory_key(given)) by {
            assert("/"@ =~= seq!['/']);
        }
        path
    }
}

/// A question the query asks, or its outcome.
#[derive(Debug)]
pub enum ExplorerAction {
    /// Look up the location with this id.
    FindLocation { location_id: i32 },
    /// Look up the directory row with this key in the location.
    FindDirectory { location_id: i32, materialized_path: String },
    /// List the rows whose parent is this row.
    FindChildren { location_id: i32, parent_id: i32 },
    /// Ask whether a thumbnail exists for this content address.
    CheckThumbnail { cas_id: String },
    /// The listing is complete.
    Reply(ExplorerData),
    /// The query failed.
    Fail(RpcError),
}

/// An answer to the question asked last.
#[derive(Debug)]
pub enum ExplorerEvent {
    Location(Option<LocationData>),
    Directory(Option<FilePathWithObject>),
    Children(Vec<FilePathWithObject>),
    /// Whether the thumbnail exists, or why that could not be told.
    Thumbnail(Result<bool, String>),
}

/// Where an explorer query stands.
#[derive(Debug)]
pub enum ExplorerQuery {
    FindingLocation { args: LocationExplorerArgs },
    FindingDirectory { location: LocationData },
    ListingChildren { location: LocationData },
    /// `pending` are the rows not yet listed; the first of them has a content
    /// address, about which the thumbnail cache was asked.
    CheckingThumbnails {
        location: LocationData,
        pending: VecDeque<FilePathWithObject>,
        items: Vec<ExplorerItem>,
    },
    Finished,
}

/// The listing line of a path row.
pub open spec fn path_item(has_thumbnail: bool, item: FilePathWithObject) -> ExplorerItem {
    ExplorerItem::Path { has_thumbnail, item }
}

/// Number of rows at the front of `files` that have no content address.
pub open spec fn plain_prefix_len(files: Seq<FilePathWithObject>) -> nat
    decreases files.len(),
{
    if files.len() == 0 || files[0].cas_id is Some {
        0
    } else {
        1 + plain_prefix_len(files.skip(1))
    }
}

/// Listing lines of rows without content address: none of them has a
/// thumbnail.
pub open spec fn plain_items(files: Seq<FilePathWithObject>) -> Seq<ExplorerItem> {
    Seq::new(files.len(), |i: int| path_item(false, files[i]))
}

/// Whether `(after, action)` is what the thumbnail phase does with the rows
/// `pending` and the lines `items` already made: rows without content address
/// are listed at once, and the first one with a content address is asked
/// about; with no such row the listing is complete.
pub open spec fn listing_advances(
    location: LocationData,
    pending: Seq<FilePathWithObject>,
    items: Seq<ExplorerItem>,
    after: ExplorerQuery,
    action: ExplorerAction,
) -> bool {
    let k = plain_prefix_len(pending) as int;
    let listed = items + plain_items(pending.take(k));
    if k == pending.len() {
        &&& after is Finished
        &&& action matches ExplorerAction::Reply(data)
        &&& data.context == ExplorerContext::Location(location)
        &&& data.items@ == listed
    } else {
        &&& after matches ExplorerQuery::CheckingThumbnails { location: l, pending: p, items: i }
        &&& l == location
        &&& p@ == pending.skip(k)
        &&& i@ == listed
        &&& action matches ExplorerAction::CheckThumbnail { cas_id }
        &&& Some(cas_id) == pending[k].cas_id
    }
}

/// Whether the query fails with this code and message.
pub open spec fn fails_with(
    after: ExplorerQuery,
    action: ExplorerAction,
    code: ErrorCode,
    message: Seq<char>,
) -> bool {
    &&& after is Finished
    &&& action matches ExplorerAction::Fail(e)
    &&& e.code == code
    &&& e.message@ == message
}

/// The transition of the explorer query: `before` receives `event` and
/// becomes `after`, asking or answering `action`.
pub open spec fn explorer_step(
    before: ExplorerQuery,
    event: ExplorerEvent,
    after: ExplorerQuery,
    action: ExplorerAction,
) -> bool {
    match (before, event) {
        (ExplorerQuery::FindingLocation { args }, ExplorerEvent::Location(None)) => {
            let err = LocationError::IdNotFound(args.location_id);
            fails_with(after, action, location_code(err), location_message(err))
        },
        (ExplorerQuery::FindingLocation { args }, ExplorerEvent::Location(Some(location))) => {
            &&& after == ExplorerQuery::FindingDirectory { location }
            &&& action matches ExplorerAction::FindDirectory { location_id, materialized_path }
            &&& location_id == location.id
            &&& materialized_path@ == directory_key(args.path@)
        },
        (ExplorerQuery::FindingDirectory { location }, ExplorerEvent::Directory(None)) => {
            fails_with(after, action, ErrorCode::NotFound, "Directory not found"@)
        },
        (ExplorerQuery::FindingDirectory { location }, ExplorerEvent::Directory(Some(dir))) => {
            &&& after == ExplorerQuery::ListingChildren { location }
            &&& action == ExplorerAction::FindChildren {
                location_id: location.id,
                parent_id: dir.id,
            }
        },
        (ExplorerQuery::ListingChildren { location }, ExplorerEvent::Children(files)) => {
            listing_advances(location, files@, Seq::empty(), after, action)
        },
        (
            ExplorerQuery::CheckingThumbnails { location, pending, items },
            ExplorerEvent::Thumbnail(Ok(exists)),
        ) => {
            if pending@.len() == 0 {
                fails_with(
                    after,
                    action,
                    ErrorCode::InternalServerError,
                    "Unexpected answer to an explorer query"@,
                )
            } else {
                listing_advances(
                    location,
                    pending@.skip(1),
                    items@.push(path_item(exists, pending@[0])),
                    after,
                    action,
                )
            }
        },
        (
            ExplorerQuery::CheckingThumbnails { location, pending, items },
            ExplorerEvent::Thumbnail(Err(reason)),
        ) => {
            let err = LocationError::IOError(reason);
            fails_with(after, action, location_code(err), location_message(err))
        },
        _ => fails_with(
            after,
            action,
            ErrorCode::InternalServerError,
            "Unexpected answer to an explorer query"@,
        ),
    }
}

/// The listing of `files` where `has_thumbnail` tells of which content a
/// thumbnail exists: one line for every row, in order, and a row without
/// content address has no thumbnail.
pub open spec fn listing_of(
    files: Seq<FilePathWithObject>,
    has_thumbnail: spec_fn(Seq<char>) -> bool,
) -> Seq<ExplorerItem> {
    Seq::new(
        files.len(),
        |i: int|
            path_item(
                match files[i].cas_id {
                    Some(cas_id) => has_thumbnail(cas_id@),
                    None => false,
                },
                files[i],
            ),
    )
}

/// The thumbnail phase keeps the listing whole: where the lines made so far
/// and the rows still pending make up a listing before a step, they do so
/// after it, and the reply is that listing.
pub proof fn lemma_listing_advances(
    location: LocationData,
    pending: Seq<FilePathWithObject>,
    items: Seq<ExplorerItem>,
    after: ExplorerQuery,
    action: ExplorerAction,
    has_thumbnail: spec_fn(Seq<char>) -> bool,
)
    requires
        listing_advances(location, pending, items, after, action),
    ensures
        action matches ExplorerAction::Reply(data) ==> data.items@ == items + listing_of(
            pending,
            has_thumbnail,
        ),
        after matches ExplorerQuery::CheckingThumbnails { location: l, pending: p, items: i }
            ==> p@.len() > 0 && p@[0].cas_id is Some && i@ + listing_of(p@, has_thumbnail)
            == items + listing_of(pending, has_thumbnail),
{
    lemma_plain_prefix(pending);
    let k = plain_prefix_len(pending) as int;
    let listed = items + plain_items(pending.take(k));
    assert(plain_items(pending.take(k)) =~= listing_of(pending.take(k), has_thumbnail));
    assert(listing_of(pending.take(k), has_thumbnail) + listing_of(pending.skip(k), has_thumbnail)
        =~= listing_of(pending, has_thumbnail));
    if k == pending.len() {
        assert(listed =~= items + listing_of(pending, has_thumbnail));
    } else {
        assert(listed + listing_of(pending.skip(k), has_thumbnail) =~= items + listing_of(
            pending,
            has_thumbnail,
        ));
        assert(pending.skip(k)[0] == pending[k]);
    }
}

/// An answer of the thumbnail cache adds the line of the row it was asked
/// about: where the answer is what `has_thumbnail` tells, the listing stays
/// whole.
pub proof fn lemma_thumbnail_answer(
    pending: Seq<FilePathWithObject>,
    items: Seq<ExplorerItem>,
    exists: bool,
    has_thumbnail: spec_fn(Seq<char>) -> bool,
)
    requires
        pending.len() > 0,
        pending[0].cas_id matches Some(cas_id) && exists == has_thumbnail(cas_id@),
    ensures
        items.push(path_item(exists, pending[0])) + listing_of(pending.skip(1), has_thumbnail)
            == items + listing_of(pending, has_thumbnail),
{
    assert(items.push(path_item(exists, pending[0])) + listing_of(pending.skip(1), has_thumbnail)
        =~= items + listing_of(pending, has_thumbnail));
}

/// What `plain_prefix_len` finds.
pub proof fn lemma_plain_prefix(files: Seq<FilePathWithObject>)
    ensures
        plain_prefix_len(files) <= files.len(),
        forall|i: int| 0 <= i < plain_prefix_len(files) ==> (#[trigger] files[i]).cas_id is None,
        plain_prefix_len(files) < files.len() ==> files[plain_prefix_len(files) as int].cas_id
            is Some,
    decreases files.len(),
{
    if files.len() == 0 || files[0].cas_id is Some {
    } else {
        let rest = files.skip(1);
        lemma_plain_prefix(rest);
        assert forall|i: int| 0 <= i < plain_prefix_len(files) implies (#[trigger] files[i]).cas_id
            is None by {
            if i > 0 {
                assert(rest[i - 1] == files[i]);
            }
        }
        let k = plain_prefix_len(rest) as int;
        if k < rest.len() {
            assert(rest[k] == files[k + 1]);
        }
    }
}

fn fail(code: ErrorCode, message: String) -> (r: (ExplorerQuery, ExplorerAction))
    ensures
        fails_with(r.0, r.1, code, message@),
{
    (ExplorerQuery::Finished, ExplorerAction::Fail(RpcError { code, message }))
}

fn fail_unexpected() -> (r: (ExplorerQuery, ExplorerAction))
    ensures
        fails_with(
            r.0,
            r.1,
            ErrorCode::InternalServerError,
            "Unexpected answer to an explorer query"@,
        ),
{
    fail(
        ErrorCode::InternalServerError,
        String::from_str("Unexpected answer to an explorer query"),
    )
}

fn fail_location(err: LocationError) -> (r: (ExplorerQuery, ExplorerAction))
    ensures
        fails_with(r.0, r.1, location_code(err), location_message(err)),
{
    let e = err.into_error();
    (ExplorerQuery::Finished, ExplorerAction::Fail(e))
}

proof fn lemma_plain_prefix_unique(files: Seq<FilePathWithObject>, k: int)
    requires
        0 <= k <= files.len(),
        forall|i: int| 0 <= i < k ==> (#[trigger] files[i]).cas_id is None,
        k < files.len() ==> files[k].cas_id is Some,
    ensures
        plain_prefix_len(files) == k,
    decreases files.len(),
{
    if files.len() == 0 || files[0].cas_id is Some {
        if k > 0 {
            assert(files[0].cas_id is None);
        }
    } else {
        let rest = files.skip(1);
        assert(k > 0);
        assert forall|i: int| 0 <= i < k - 1 implies (#[trigger] rest[i]).cas_id is None by {
            assert(rest[i] == files[i + 1]);
        }
        if k - 1 < rest.len() {
            assert(rest[k - 1] == files[k]);
        }
        lemma_plain_prefix_unique(rest, k - 1);
    }
}

fn advance_listing(
    location: LocationData,
    pending: VecDeque<FilePathWithObject>,
    items: Vec<ExplorerItem>,
) -> (r: (ExplorerQuery, ExplorerAction))
    ensures
        listing_advances(location, pending@, items@, r.0, r.1),
{
    let ghost all = pending@;
    let ghost made = items@;
    let mut queue = pending;
    let mut listed = items;
    let ghost mut taken: int = 0;
    loop
        invariant
            all == pending@,
            made == items@,
            0 <= taken <= all.len(),
            queue@ == all.skip(taken),
            listed@ == made + plain_items(all.take(taken)),
            forall|i: int| 0 <= i < taken ==> (#[trigger] all[i]).cas_id is None,
        decreases all.len() - taken,
    {
        if queue.len() == 0 {
            proof {
                assert(taken == all.len());
                lemma_plain_prefix_unique(all, taken);
            }
            let data = ExplorerData {
                context: ExplorerContext::Location(location),
                items: listed,
            };
            return (ExplorerQuery::Finished, ExplorerAction::Reply(data));
        }
        assert(queue@[0] == all[taken]);
        let with_cas: Option<String> = match &queue[0].cas_id {
            Some(cas_id) => Some(cas_id.clone()),
            None => None,
        };
        match with_cas {
            Some(cas_id) => {
                proof {
                    assert(all[taken].cas_id == Some(cas_id));
                    lemma_plain_prefix_unique(all, taken);
                }
                return (
                    ExplorerQuery::CheckingThumbnails { location, pending: queue, items: listed },
                    ExplorerAction::CheckThumbnail { cas_id },
                );
            },
            None => {
                let file = queue.pop_front().unwrap();
                listed.push(ExplorerItem::Path { has_thumbnail: false, item: file });
                proof {
                    taken = taken + 1;
                }
                assert(queue@ =~= all.skip(taken));
                assert(listed@ =~= made + plain_items(all.take(taken)));
            },
        }
    }
}

impl ExplorerQuery {
    /// Opens the query: the first question is for the location.
    pub fn start(args: LocationExplorerArgs) -> (r: (ExplorerQuery, ExplorerAction))
        ensures
            r.0 == (ExplorerQuery::FindingLocation { args }),
            r.1 == (ExplorerAction::FindLocation { location_id: args.location_id }),
    {
        let location_id = args.location_id;
        (ExplorerQuery::FindingLocation { args }, ExplorerAction::FindLocation { location_id })
    }

    /// Takes the answer to the question asked last and says what comes next.
    /// An answer to a question that was not asked ends the query with an
    /// internal error.
    pub fn step(self, event: ExplorerEvent) -> (r: (ExplorerQuery, ExplorerAction))
        ensures
            explorer_step(self, event, r.0, r.1),
    {
        match (self, event) {
            (ExplorerQuery::FindingLocation { args }, ExplorerEvent::Location(found)) => {
                match found {
                    None => fail_location(LocationError::IdNotFound(args.location_id)),
                    Some(location) => {
                        let location_id = location.id;
                        let materialized_path = normalize_directory_path(args.path);
                        (
                            ExplorerQuery::FindingDirectory { location },
                            ExplorerAction::FindDirectory { location_id, materialized_path },
                        )
                    },
                }
            },
            (ExplorerQuery::FindingDirectory { location }, ExplorerEvent::Directory(found)) => {
                match found {
                    None => fail(ErrorCode::NotFound, String::from_str("Directory not found")),
                    Some(dir) => {
                        let location_id = location.id;
                        (
                            ExplorerQuery::ListingChildren { location },
                            ExplorerAction::FindChildren { location_id, parent_id: dir.id },
                        )
                    },
                }
            },
            (ExplorerQuery::ListingChildren { location }, ExplorerEvent::Children(files)) => {
                let ghost all = files@;
                let mut pending: VecDeque<FilePathWithObject> = VecDeque::new();
                for file in it: files
                    invariant
                        it.seq() == all,
                        pending@ =~= all.take(it.index() as int),
                {
                    pending.push_back(file);
                }
                assert(pending@ =~= all);
                advance_listing(location, pending, Vec::new())
            },
            (
                ExplorerQuery::CheckingThumbnails { location, pending, items },
                ExplorerEvent::Thumbnail(answer),
            ) => {
                match answer {
                    Err(reason) => fail_location(LocationError::IOError(reason)),
                    Ok(exists) => {
                        let mut pending = pending;
                        let mut items = items;
                        match pending.pop_front() {
                            None => fail_unexpected(),
                            Some(file) => {
                                items.push(ExplorerItem::Path { has_thumbnail: exists, item: file });
                                advance_listing(location, pending, items)
                            },
                        }
                    },
                }
            },
            _ => fail_unexpected(),
        }
    }
}

} // verus!
