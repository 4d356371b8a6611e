//! Requests to the daemon, and the replies to them.

use vstd::prelude::*;

use crate::json::{
    items_view, no_fields, text_of, text_or_null, uint_json, Json, JsonView,
};
use crate::nudge::state::now_nanos;
use crate::selection::{gathering_goes_item_by_item, gathers};
use crate::text::{concat2, decimal, opt, opt_str, same, to_decimal};

verus! {

/// A request.
pub struct Request {
    pub id: Json,
    pub method: String,
    pub params: Option<Json>,
}

/// Why a request failed.
pub struct RpcError {
    pub code: i32,
    pub message: String,
    pub data: Option<Json>,
}

/// The reply to a request.
pub struct Response {
    pub id: Json,
    pub outcome: Result<Json, RpcError>,
}

impl RpcError {
    /// The error has this code and message, and says no more.
    pub open spec fn is_plain(self, code: int, message: Seq<char>) -> bool {
        self.code == code && self.message@ == message && self.data is None
    }

    pub fn parse_error() -> (r: RpcError)
        ensures
            r.is_plain(-32700, "Parse error"@),
    {
        RpcError { code: -32700, message: "Parse error".to_owned(), data: None }
    }

    pub fn method_not_found() -> (r: RpcError)
        ensures
            r.is_plain(-32601, "Method not found"@),
    {
        RpcError { code: -32601, message: "Method not found".to_owned(), data: None }
    }

    pub fn invalid_params() -> (r: RpcError)
        ensures
            r.is_plain(-32602, "Invalid params"@),
    {
        RpcError { code: -32602, message: "Invalid params".to_owned(), data: None }
    }

    pub fn with_data(code: i32, message: &str, data: Json) -> (r: RpcError)
        ensures
            r.code == code,
            r.message@ == message@,
            r.data == Some(data),
    {
        RpcError { code, message: message.to_owned(), data: Some(data) }
    }
}

impl Response {
    /// The reply to a request with this identifier is this result.
    pub open spec fn succeeds(self, id: JsonView, result: JsonView) -> bool {
        &&& self.id.jv() == id
        &&& self.outcome matches Ok(j)
        &&& j.jv() == result
    }

    /// The reply to a request with this identifier is an error without more.
    pub open spec fn fails(self, id: JsonView, code: int, message: Seq<char>) -> bool {
        &&& self.id.jv() == id
        &&& self.outcome matches Err(e)
        &&& e.is_plain(code, message)
    }

    /// The reply to a request with this identifier is an error with its cause.
    pub open spec fn fails_because(
        self,
        id: JsonView,
        code: int,
        message: Seq<char>,
        cause: Seq<char>,
    ) -> bool {
        &&& self.id.jv() == id
        &&& self.outcome matches Err(e)
        &&& e.code == code
        &&& e.message@ == message
        &&& e.data matches Some(d)
        &&& d.jv() == no_fields().with("error"@, JsonView::Str(cause))
    }

    pub fn success(id: Json, result: Json) -> (r: Response)
        ensures
            r.succeeds(id.jv(), result.jv()),
    {
        Response { id, outcome: Ok(result) }
    }

    pub fn error(id: Json, error: RpcError) -> (r: Response)
        ensures
            r.id == id,
            r.outcome == Result::<Json, RpcError>::Err(error),
    {
        Response { id, outcome: Err(error) }
    }
}

/// A parameter of a request.
pub open spec fn param(request: Request, name: Seq<char>) -> Option<JsonView> {
    match request.params {
        Some(p) => p.jv().field(name),
        None => None,
    }
}

/// Whether the work tree is removed though it holds work: only where the request says so.
pub open spec fn is_forced(request: Request) -> bool {
    match param(request, "force"@) {
        Some(j) => j.boolean() == Some(true),
        None => false,
    }
}

fn find_param<'a>(request: &'a Request, name: &str) -> (r: Option<&'a Json>)
    ensures
        match r {
            Some(j) => param(*request, name@) == Some(j.jv()),
            None => param(*request, name@) is None,
        },
{
    match &request.params {
        Some(p) => p.get(name),
        None => None,
    }
}

fn text_param<'a>(request: &'a Request, name: &str) -> (r: Option<&'a str>)
    ensures
        opt_str(r) == text_of(param(*request, name@)),
{
    match find_param(request, name) {
        Some(j) => j.as_str(),
        None => None,
    }
}

/// What a request asks for.
pub enum RpcStep {
    /// Nothing but this reply.
    Reply(Response),
    /// A work tree for a coworker.
    Spawn(String),
    /// The end of a coworker.
    Shutdown { name: String, force: bool },
    /// The coworkers there are.
    List,
}

/// The name of a coworker who was given none, from the time in seconds.
pub open spec fn name_at(secs: u64) -> Seq<char> {
    "coworker-"@ + decimal((secs % 100000) as nat)
}

/// The name of a coworker who was given none, from the time in seconds.
pub fn coworker_name_at(secs: u64) -> (r: String)
    ensures
        r@ == name_at(secs),
{
    concat2("coworker-", to_decimal(secs % 100000).as_str())
}

/// The name of a coworker who was given none.
pub fn generate_coworker_name() -> (r: String)
    ensures
        exists|secs: u64| r@ == #[trigger] name_at(secs),
{
    let secs = ((now_nanos() / 1_000_000_000) % 0x1_0000_0000_0000_0000) as u64;
    coworker_name_at(secs)
}

/// What a request asks for. A request that could not be read is answered with an error.
pub fn handle_request(request: Option<&Request>, version: &str) -> (r: RpcStep)
    ensures
        match request {
            None => r matches RpcStep::Reply(x) && x.fails(
                JsonView::Null,
                -32700,
                "Parse error"@,
            ),
            Some(q) => if q.method@ == "ping"@ {
                r matches RpcStep::Reply(x) && x.succeeds(q.id.jv(), JsonView::Str("pong"@))
            } else if q.method@ == "version"@ {
                r matches RpcStep::Reply(x) && x.succeeds(
                    q.id.jv(),
                    no_fields().with("name"@, JsonView::Str("midtownd"@)).with(
                        "version"@,
                        JsonView::Str(version@),
                    ),
                )
            } else if q.method@ == "shutdown"@ {
                r matches RpcStep::Reply(x) && x.succeeds(
                    q.id.jv(),
                    no_fields().with("status"@, JsonView::Str("shutting_down"@)),
                )
            } else if q.method@ == "coworker.spawn"@ {
                r matches RpcStep::Spawn(name) && match text_of(param(*q, "name"@)) {
                    Some(given) => name@ == given,
                    None => exists|secs: u64| name@ == #[trigger] name_at(secs),
                }
            } else if q.method@ == "coworker.shutdown"@ {
                match text_of(param(*q, "name"@)) {
                    Some(given) => r matches RpcStep::Shutdown { name, force } && name@ == given
                        && force == is_forced(*q),
                    None => r matches RpcStep::Reply(x) && x.fails(
                        q.id.jv(),
                        -32602,
                        "Invalid params"@,
                    ),
                }
            } else if q.method@ == "coworker.list"@ {
                r is List
            } else {
                r matches RpcStep::Reply(x) && x.fails(q.id.jv(), -32601, "Method not found"@)
            },
        },
{
    let q = match request {
        Some(q) => q,
        None => {
            return RpcStep::Reply(Response::error(Json::Null, RpcError::parse_error()));
        },
    };
    let method = q.method.as_str();
    if same(method, "ping") {
        return RpcStep::Reply(Response::success(q.id.duplicate(), Json::text("pong")));
    }
    if same(method, "version") {
        let about = Json::object().with("name", Json::text("midtownd")).with(
            "version",
            Json::text(version),
        );
        return RpcStep::Reply(Response::success(q.id.duplicate(), about));
    }
    if same(method, "shutdown") {
        let status = Json::object().with("status", Json::text("shutting_down"));
        return RpcStep::Reply(Response::success(q.id.duplicate(), status));
    }
    if same(method, "coworker.spawn") {
        return match text_param(q, "name") {
            Some(name) => RpcStep::Spawn(name.to_owned()),
            None => RpcStep::Spawn(generate_coworker_name()),
        };
    }
    if same(method, "coworker.shutdown") {
        let name = match text_param(q, "name") {
            Some(name) => name.to_owned(),
            None => {
                return RpcStep::Reply(
                    Response::error(q.id.duplicate(), RpcError::invalid_params()),
                );
            },
        };
        let force = match find_param(q, "force") {
            Some(j) => match j.as_bool() {
                Some(b) => b,
                None => false,
            },
            None => false,
        };
        return RpcStep::Shutdown { name, force };
    }
    if same(method, "coworker.list") {
        return RpcStep::List;
    }
    RpcStep::Reply(Response::error(q.id.duplicate(), RpcError::method_not_found()))
}

/// Why something could not be done with a work tree.
pub enum WorktreeFailure {
    /// There is no repository, and why.
    NoRepository(String),
    /// It could not be done, and why.
    Failed(String),
}

/// The error replies to a request about work trees.
pub open spec fn answers_failure(
    r: Response,
    id: JsonView,
    failure: WorktreeFailure,
    code: int,
    message: Seq<char>,
) -> bool {
    match failure {
        WorktreeFailure::NoRepository(cause) => r.fails_because(
            id,
            -32000,
            "Failed to detect repository"@,
            cause@,
        ),
        WorktreeFailure::Failed(cause) => r.fails_because(id, code, message, cause@),
    }
}

fn failure_response(id: &Json, failure: &WorktreeFailure, code: i32, message: &str) -> (r: Response)
    ensures
        answers_failure(r, id.jv(), *failure, code as int, message@),
{
    match failure {
        WorktreeFailure::NoRepository(cause) => {
            let data = Json::object().with("error", Json::text(cause.as_str()));
            Response::error(
                id.duplicate(),
                RpcError::with_data(-32000, "Failed to detect repository", data),
            )
        },
        WorktreeFailure::Failed(cause) => {
            let data = Json::object().with("error", Json::text(cause.as_str()));
            Response::error(id.duplicate(), RpcError::with_data(code, message, data))
        },
    }
}

/// A work tree that was made.
pub struct CreatedWorktree {
    pub path: String,
    pub branch: String,
    pub repo: String,
}

/// The reply to a request for a coworker.
pub fn handle_coworker_spawn(
    id: &Json,
    name: &str,
    outcome: Result<CreatedWorktree, WorktreeFailure>,
) -> (r: Response)
    ensures
        match outcome {
            Ok(tree) => r.succeeds(
                id.jv(),
                no_fields().with("name"@, JsonView::Str(name@)).with(
                    "worktree_path"@,
                    JsonView::Str(tree.path@),
                ).with("branch"@, JsonView::Str(tree.branch@)).with(
                    "repo"@,
                    JsonView::Str(tree.repo@),
                ),
            ),
            Err(failure) => answers_failure(
                r,
                id.jv(),
                failure,
                -32001,
                "Failed to create worktree"@,
            ),
        },
{
    match outcome {
        Ok(tree) => {
            let result = Json::object().with("name", Json::text(name)).with(
                "worktree_path",
                Json::text(tree.path.as_str()),
            ).with("branch", Json::text(tree.branch.as_str())).with(
                "repo",
                Json::text(tree.repo.as_str()),
            );
            Response::success(id.duplicate(), result)
        },
        Err(failure) => failure_response(id, &failure, -32001, "Failed to create worktree"),
    }
}

/// The reply to a request to end a coworker.
pub fn handle_coworker_shutdown(id: &Json, name: &str, outcome: Result<(), WorktreeFailure>) -> (r:
    Response)
    ensures
        match outcome {
            Ok(()) => r.succeeds(
                id.jv(),
                no_fields().with("name"@, JsonView::Str(name@)).with(
                    "status"@,
                    JsonView::Str("removed"@),
                ),
            ),
            Err(failure) => answers_failure(
                r,
                id.jv(),
                failure,
                -32002,
                "Failed to remove worktree"@,
            ),
        },
{
    match outcome {
        Ok(()) => {
            let result = Json::object().with("name", Json::text(name)).with(
                "status",
                Json::text("removed"),
            );
            Response::success(id.duplicate(), result)
        },
        Err(failure) => failure_response(id, &failure, -32002, "Failed to remove worktree"),
    }
}

/// A work tree of the repository.
pub struct ListedWorktree {
    pub is_coworker: bool,
    pub coworker_name: Option<String>,
    pub path: String,
    pub branch: Option<String>,
}

/// A work tree in a reply.
pub open spec fn listed(tree: ListedWorktree) -> JsonView {
    no_fields().with("name"@, text_or_null(opt(tree.coworker_name))).with(
        "path"@,
        JsonView::Str(tree.path@),
    ).with("branch"@, text_or_null(opt(tree.branch)))
}

/// The work trees of coworkers.
pub open spec fn coworker_trees(trees: Seq<ListedWorktree>) -> Seq<JsonView>
    decreases trees.len(),
{
    if trees.len() == 0 {
        Seq::empty()
    } else if trees.last().is_coworker {
        coworker_trees(trees.drop_last()).push(listed(trees.last()))
    } else {
        coworker_trees(trees.drop_last())
    }
}

/// The reply to a request for the coworkers there are.
pub fn handle_coworker_list(id: &Json, outcome: Result<Vec<ListedWorktree>, WorktreeFailure>) -> (r:
    Response)
    ensures
        match outcome {
            Ok(trees) => r.succeeds(
                id.jv(),
                no_fields().with("coworkers"@, JsonView::Arr(coworker_trees(trees@))).with(
                    "count"@,
                    uint_json(coworker_trees(trees@).len() as u64),
                ),
            ),
            Err(failure) => answers_failure(
                r,
                id.jv(),
                failure,
                -32003,
                "Failed to list worktrees"@,
            ),
        },
{
    let trees = match outcome {
        Ok(trees) => trees,
        Err(failure) => {
            return failure_response(id, &failure, -32003, "Failed to list worktrees");
        },
    };
    let mut items: Vec<Json> = Vec::new();
    let mut i: usize = 0;
    assert(trees@.take(0) =~= Seq::<ListedWorktree>::empty());
    assert(items_view(items@) =~= coworker_trees(trees@.take(0)));
    while i < trees.len()
        invariant
            i <= trees.len(),
            items_view(items@) == coworker_trees(trees@.take(i as int)),
        decreases trees.len() - i,
    {
        assert(trees@.take(i + 1).drop_last() =~= trees@.take(i as int));
        assert(trees@.take(i + 1).last() == trees@[i as int]);
        let tree = &trees[i];
        if tree.is_coworker {
            let ghost before = items@;
            let item = Json::object().with("name", Json::text_or_null(&tree.coworker_name)).with(
                "path",
                Json::text(tree.path.as_str()),
            ).with("branch", Json::text_or_null(&tree.branch));
            items.push(item);
            assert(items_view(items@) =~= items_view(before).push(item.jv()));
        }
        i += 1;
    }
    assert(trees@.take(i as int) =~= trees@);
    let count = items.len() as u64;
    let result = Json::object().with("coworkers", Json::Arr(items)).with(
        "count",
        Json::uint(count),
    );
    Response::success(id.duplicate(), result)
}

/// A reply that succeeds has the identifier of its request and the result; one that fails has
/// the identifier, the code and the message, and the cause where there is one.
pub proof fn replies_bear_the_identifier_of_their_request(
    r: Response,
    id: JsonView,
    result: JsonView,
    code: int,
    message: Seq<char>,
    cause: Seq<char>,
)
    ensures
        r.succeeds(id, result) <==> r.id.jv() == id && (r.outcome matches Ok(j) && j.jv() == result),
        r.fails(id, code, message) <==> r.id.jv() == id && (r.outcome matches Err(e) && e.code
            == code && e.message@ == message && e.data is None),
        r.fails_because(id, code, message, cause) ==> r.id.jv() == id && (
        r.outcome matches Err(e) && e.code == code && e.message@ == message && (
        e.data matches Some(d) && d.jv().field("error"@) == Some(JsonView::Str(cause)))),
        !(r.succeeds(id, result) && r.fails(id, code, message)),
{
}

/// A parameter is a field of what the request brings along; a request that brings nothing along
/// has none.
pub proof fn parameters_are_fields(request: Request, name: Seq<char>)
    ensures
        request.params is None ==> param(request, name) is None,
        request.params matches Some(p) ==> param(request, name) == p.jv().field(name),
{
}

/// Work is thrown away only where the request says in so many words that it is to be.
pub proof fn only_true_forces(request: Request)
    ensures
        is_forced(request) <==> param(request, "force"@) == Some(JsonView::Bool(true)),
{
}

/// A coworker without a name is called by the last five digits of the time in seconds.
pub proof fn nameless_coworkers_are_called_by_the_time(secs: u64)
    ensures
        name_at(secs) == "coworker-"@ + decimal((secs % 100_000) as nat),
        secs < 100_000 ==> name_at(secs) == "coworker-"@ + decimal(secs as nat),
{
}

/// A missing repository is told as such, whatever was asked for; every other failure has the
/// code and the message of what was asked for. Both tell the cause.
pub proof fn failures_tell_their_cause(
    r: Response,
    id: JsonView,
    cause: String,
    code: int,
    message: Seq<char>,
)
    ensures
        answers_failure(r, id, WorktreeFailure::NoRepository(cause), code, message)
            <==> r.fails_because(id, -32000, "Failed to detect repository"@, cause@),
        answers_failure(r, id, WorktreeFailure::Failed(cause), code, message) <==> r.fails_because(
            id,
            code,
            message,
            cause@,
        ),
{
}

/// A work tree is listed with the name of its coworker, its path and its branch; what is not
/// known is null.
pub proof fn work_trees_are_listed_with_what_is_known(tree: ListedWorktree)
    ensures
        listed(tree).field("path"@) == Some(JsonView::Str(tree.path@)),
        tree.coworker_name matches Some(name) ==> listed(tree).field("name"@) == Some(
            JsonView::Str(name@),
        ),
        tree.coworker_name is None ==> listed(tree).field("name"@) == Some(JsonView::Null),
        tree.branch matches Some(branch) ==> listed(tree).field("branch"@) == Some(
            JsonView::Str(branch@),
        ),
        tree.branch is None ==> listed(tree).field("branch"@) == Some(JsonView::Null),
{
    reveal_strlit("name");
    reveal_strlit("path");
    reveal_strlit("branch");
    assert("name"@.len() == 4);
    assert("path"@.len() == 4);
    assert("branch"@.len() == 6);
    assert("path"@[0] == 'p');
    assert("name"@[0] == 'n');
}

/// The coworkers there are are listed by the work trees that are a coworker's, in their order.
pub proof fn coworkers_are_listed_by_their_work_trees(trees: Seq<ListedWorktree>)
    ensures
        gathers(
            trees,
            |tree: ListedWorktree| tree.is_coworker,
            |tree: ListedWorktree| listed(tree),
            coworker_trees(trees),
        ),
    decreases trees.len(),
{
    let wanted = |tree: ListedWorktree| tree.is_coworker;
    let told = |tree: ListedWorktree| listed(tree);
    if trees.len() == 0 {
        gathering_goes_item_by_item(trees, trees[0], wanted, told, Seq::<JsonView>::empty());
        assert(trees =~= Seq::<ListedWorktree>::empty());
        assert(coworker_trees(trees) =~= Seq::<JsonView>::empty());
    } else {
        let init = trees.drop_last();
        coworkers_are_listed_by_their_work_trees(init);
        assert(trees =~= init.push(trees.last()));
        gathering_goes_item_by_item(init, trees.last(), wanted, told, coworker_trees(init));
    }
}

} // verus!
