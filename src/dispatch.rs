//! The routing decision taken for each incoming request.
use vstd::prelude::*;
use vstd::string::StringSliceAdditionalSpecFns;
use crate::assets::{AssetTable, TableView, has_path, first_index, same_text};

verus! {

/// The body sent for every request that matches nothing.
pub const FALLBACK_BODY: &'static str = "Nothing here";

/// The path served by the asset registered under `INDEX_PATH`.
pub const ROOT_PATH: &'static str = "/";

/// The asset that answers a request for the root path.
pub const INDEX_PATH: &'static str = "/index.html";

/// The path that upgrades to a streaming session.
pub const STREAM_PATH: &'static str = "/ws";

/// What the answer to a request is, as a value.
pub enum Answer {
    /// A success response carrying these bytes.
    Body(Seq<u8>),
    /// The upgrade handshake, after which a streaming session starts.
    Upgrade,
}

/// The answer to a request.
pub enum Reply<'a> {
    /// Status 200 with these bytes as the body.
    Body(&'a [u8]),
    /// Status 101: hand the connection to a new streaming session.
    Upgrade,
}

impl<'a> View for Reply<'a> {
    type V = Answer;

    open spec fn view(&self) -> Answer {
        match self {
            Reply::Body(b) => Answer::Body(b@),
            Reply::Upgrade => Answer::Upgrade,
        }
    }
}

/// The asset path that a request path is looked up under.
pub open spec fn asset_key(path: Seq<char>) -> Seq<char> {
    if path == ROOT_PATH@ {
        INDEX_PATH@
    } else {
        path
    }
}

/// The answer owed to a request for `path`, where `upgrade` says whether the
/// request asked for a protocol upgrade.
pub open spec fn answer_for(t: TableView, path: Seq<char>, upgrade: bool) -> Answer {
    let key = asset_key(path);
    if has_path(t, key) {
        Answer::Body(t[first_index(t, key)].1)
    } else if path == STREAM_PATH@ && upgrade {
        Answer::Upgrade
    } else {
        Answer::Body(FALLBACK_BODY.spec_bytes())
    }
}

/// The HTTP status of an answer.
pub open spec fn answer_status(a: Answer) -> u16 {
    match a {
        Answer::Body(_) => 200,
        Answer::Upgrade => 101,
    }
}

impl<'a> Reply<'a> {
    /// The HTTP status of this reply.
    pub fn status(&self) -> (r: u16)
        ensures
            r == answer_status(self@),
    {
        match self {
            Reply::Body(_) => 200,
            Reply::Upgrade => 101,
        }
    }
}

/// Routes one request: the root path serves the index asset, a registered
/// path serves its asset, the streaming path with upgrade intent upgrades,
/// and everything else gets the fallback body with a success status.
pub fn handle_request<'a>(table: &'a AssetTable, path: &str, upgrade: bool) -> (r: Reply<'a>)
    ensures
        r@ == answer_for(table@, path@, upgrade),
{
    let key = if same_text(path, ROOT_PATH) {
        INDEX_PATH
    } else {
        path
    };
    match table.lookup(key) {
        Some(i) => Reply::Body(table.content(i)),
        None => {
            if upgrade && same_text(path, STREAM_PATH) {
                Reply::Upgrade
            } else {
                Reply::Body(FALLBACK_BODY.as_bytes())
            }
        },
    }
}

/// A request for the root path and one for the index asset's path get the
/// same answer, whatever the table and the upgrade intent.
pub proof fn lemma_root_serves_index(t: TableView, upgrade: bool)
    ensures
        answer_for(t, ROOT_PATH@, upgrade) == answer_for(t, INDEX_PATH@, upgrade),
{
    reveal_strlit("/");
    reveal_strlit("/index.html");
    reveal_strlit("/ws");
    assert(ROOT_PATH@ != INDEX_PATH@) by {
        assert(ROOT_PATH@.len() != INDEX_PATH@.len());
    }
    assert(INDEX_PATH@ != STREAM_PATH@) by {
        assert(INDEX_PATH@.len() != STREAM_PATH@.len());
    }
    assert(ROOT_PATH@ != STREAM_PATH@) by {
        assert(ROOT_PATH@.len() != STREAM_PATH@.len());
    }
}

/// A path that no asset is registered under, other than the streaming path
/// (and other than the root path while an index asset exists), gets the
/// fallback body with status 200, whatever the upgrade intent.
pub proof fn lemma_unmatched_path_falls_back(t: TableView, path: Seq<char>, upgrade: bool)
    requires
        !has_path(t, path),
        path != STREAM_PATH@,
        !(path == ROOT_PATH@ && has_path(t, INDEX_PATH@)),
    ensures
        answer_for(t, path, upgrade) == Answer::Body(FALLBACK_BODY.spec_bytes()),
        answer_status(answer_for(t, path, upgrade)) == 200,
{
}

} // verus!
