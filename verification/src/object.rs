//! The worker in front of the databases and the durable object that holds one of them: who is let
//! in, what a request asks for, and which database is open.
use crate::do_cache::DoCacheStorage;
use crate::names::{is_database_name, law_names_are_one_segment, names_a_database};
use crate::rows::{
    asked_limit, law_limits_lie_between_one_and_a_thousand, limited, read_limit, scan_limit,
};
use crate::session::{opening, Opening, Session};
use crate::text::{
    joined_by, law_pieces_make_up_the_text, law_trimming_takes_one_character, lemma_one_piece,
    lemma_pieces_of_two, pair_texts, pieces, same_text, split,
    strip_prefix, texts, trim_end_matches, trim_start_matches, trimmed_end, trimmed_start,
};
use vstd::prelude::*;
use vstd::string::*;

verus! {

/// The binding of the durable objects.
pub const DB_BINDING: &'static str = "SLATEDB_OBJECTS";

/// The binding of the bucket.
pub const R2_BINDING: &'static str = "SLATEDB_BUCKET";

/// The secret that holds the token.
pub const TOKEN_SECRET: &'static str = "PROBE_TOKEN";

/// Where a database lies under the prefix of its name.
pub const DB_ROOT: &'static str = "slatedb";

/// How many bytes a part of a cached object has.
pub const CACHE_PART_SIZE: usize = 1_048_576;

/// What the worker calls itself where it is asked for its health.
pub const SERVICE: &'static str = "slatedb-cloudflare-feasibility";

/// What a request is refused with.
#[derive(Debug)]
pub struct Refusal {
    pub status: u16,
    pub message: String,
    /// Whether the message is sent as the `error` of a JSON object; else it is sent as it is.
    pub json: bool,
}

/// A refusal by its texts.
#[verifier::ext_equal]
pub struct Refused {
    pub status: u16,
    pub message: Seq<char>,
    pub json: bool,
}

impl View for Refusal {
    type V = Refused;

    open spec fn view(&self) -> Refused {
        Refused { status: self.status, message: self.message@, json: self.json }
    }
}

/// Whether a path asks for the health of the worker.
pub open spec fn asks_for_health(path: Seq<char>) -> bool {
    path == "/"@ || path == "/health"@
}

/// Whether an authorization carries the token.
pub open spec fn carries_token(authorization: Option<Seq<char>>, expected: Seq<char>) -> bool {
    authorization == Some("Bearer "@ + expected)
}

/// Whether the authorization of a request carries the token.
pub fn authorized(expected: &str, authorization: Option<&str>) -> (granted: bool)
    ensures
        granted == carries_token(
            (match authorization {
                Some(text) => Some(text@),
                None => None,
            }),
            expected@,
        ),
{
    match authorization {
        Some(text) => match strip_prefix(text, "Bearer ") {
            Some(supplied) => {
                let granted: bool = same_text(supplied, expected);
                proof {
                    let prefix = "Bearer "@;
                    assert(text@ =~= prefix + supplied@);
                    assert((prefix + expected@).skip(prefix.len() as int) =~= expected@);
                }
                granted
            },
            None => {
                proof {
                    let prefix = "Bearer "@;
                    assert((prefix + expected@).take(prefix.len() as int) =~= prefix);
                    assert(prefix.is_prefix_of(prefix + expected@));
                }
                false
            },
        },
        None => false,
    }
}

/// The segments of a path, without the slashes at its ends.
pub open spec fn segments_of(path: Seq<char>) -> Seq<Seq<char>> {
    pieces(trimmed_end(trimmed_start(path, '/'), '/'), '/')
}

/// Whether segments are a route to a database: `v1`, `db`, a name and what is asked for.
pub open spec fn is_route(segments: Seq<Seq<char>>) -> bool {
    segments.len() >= 4 && segments[0] == "v1"@ && segments[1] == "db"@
}

/// The segments of a path to a database.
pub fn route_segments(path: &str) -> (segments: Result<Vec<String>, String>)
    ensures
        segments is Ok <==> is_route(segments_of(path@)),
        segments matches Ok(segments) ==> texts(segments@) == segments_of(path@),
        segments matches Err(words) ==> words@ == "route not found"@,
{
    let inner = trim_end_matches(trim_start_matches(path, '/'), '/');
    let segments: Vec<String> = split(inner, '/');
    proof {
        let all = texts(segments@);
        assert(all.len() == segments@.len());
        assert(all.len() > 1 ==> all[0] == segments@[0]@ && all[1] == segments@[1]@);
    }
    if segments.len() < 4 || !same_text(segments[0].as_str(), "v1") || !same_text(
        segments[1].as_str(),
        "db",
    ) {
        return Err("route not found".to_owned());
    }
    Ok(segments)
}

/// Refuses a text that is no name of a database.
pub fn validate_database_name(name: &str) -> (checked: Result<(), String>)
    ensures
        checked is Ok <==> is_database_name(name@),
        checked matches Err(words) ==> words@ == "invalid database name"@,
{
    if names_a_database(name) {
        Ok(())
    } else {
        Err("invalid database name".to_owned())
    }
}

/// What is wrong with a path, in words: it is no route to a database, or names none.
pub open spec fn route_fault(path: Seq<char>) -> Option<Seq<char>> {
    if !is_route(segments_of(path)) {
        Some("route not found"@)
    } else if !is_database_name(segments_of(path)[2]) {
        Some("invalid database name"@)
    } else {
        None
    }
}

/// The words of a failed outcome.
pub open spec fn fault_words<T>(outcome: Result<T, String>) -> Option<Seq<char>> {
    match outcome {
        Ok(_) => None,
        Err(words) => Some(words@),
    }
}

fn checked_segments(path: &str) -> (segments: Result<Vec<String>, String>)
    ensures
        fault_words(segments) == route_fault(path@),
        segments matches Ok(segments) ==> texts(segments@) == segments_of(path@) && segments@.len()
            >= 4,
{
    let segments: Vec<String> = match route_segments(path) {
        Ok(segments) => segments,
        Err(words) => {
            return Err(words);
        },
    };
    proof {
        assert(texts(segments@).len() == segments@.len());
        assert(texts(segments@)[2] == segments@[2]@);
    }
    match validate_database_name(segments[2].as_str()) {
        Ok(()) => Ok(segments),
        Err(words) => Err(words),
    }
}

/// What a path says, and the texts of its query, in order.
#[derive(Debug)]
pub struct UrlParts {
    pub path: String,
    pub query: Vec<(String, String)>,
}

/// The words with which `worker::Url` refuses a text, where it does.
pub uninterp spec fn url_fault(url: Seq<char>) -> Option<Seq<char>>;

/// The path of a URL, which `worker::Url::path` gives.
pub uninterp spec fn url_path(url: Seq<char>) -> Seq<char>;

/// The names and texts in the query of a URL, which `worker::Url::query_pairs` gives.
pub uninterp spec fn url_query(url: Seq<char>) -> Seq<(Seq<char>, Seq<char>)>;

/// Calls `worker::Url::parse`, and `worker::Url::path` and `worker::Url::query_pairs` on what it
/// gives. Which texts are URLs, what their paths are and how their queries are decoded is left to
/// names.
#[verifier::external_body]
fn read_url(url: &str) -> (parts: Result<UrlParts, String>)
    ensures
        parts is Ok <==> url_fault(url@) is None,
        parts matches Err(words) ==> url_fault(url@) == Some(words@),
        parts matches Ok(read) ==> read.path@ == url_path(url@),
        parts matches Ok(read) ==> pair_texts(read.query@) == url_query(url@),
{
    let url = worker::Url::parse(url).map_err(|error| error.to_string())?;
    let query = url.query_pairs().into_owned().collect();
    Ok(UrlParts { path: url.path().to_owned(), query })
}

/// What is wrong with a text that is no URL, in words that name it.
pub open spec fn url_failure(url: Seq<char>) -> Option<Seq<char>> {
    match url_fault(url) {
        Some(words) => Some("failed to parse Url from "@ + words + ": "@ + url),
        None => None,
    }
}

/// Reads the parts of a URL.
fn parts_of_url(url: &str) -> (parts: Result<UrlParts, String>)
    ensures
        fault_words(parts) == url_failure(url@),
        parts matches Ok(parts) ==> parts.path@ == url_path(url@) && pair_texts(parts.query@)
            == url_query(url@),
{
    match read_url(url) {
        Ok(parts) => Ok(parts),
        Err(words) => {
            let mut message = "failed to parse Url from ".to_owned();
            message.append(words.as_str());
            message.append(": ");
            message.append(url);
            Err(message)
        },
    }
}

/// A refusal, where an outcome is one.
pub open spec fn refusal<T>(outcome: Result<T, Refusal>) -> Option<Refused> {
    match outcome {
        Ok(_) => None,
        Err(refusal) => Some(refusal@),
    }
}

/// The failure of the worker, which is sent as text.
pub open spec fn worker_failure(words: Seq<char>) -> Refused {
    Refused { status: 500, message: words, json: false }
}

/// What arrives at the worker.
#[derive(Debug)]
pub enum Arrival {
    /// Somebody asks for its health.
    Health,
    /// A request to a path that only the token opens.
    Guarded(String),
}

/// Whether a path asks for the health of the worker, which anybody may.
pub fn is_health_path(path: &str) -> (health: bool)
    ensures
        health == asks_for_health(path@),
{
    same_text(path, "/") || same_text(path, "/health")
}

/// What arrives with a URL.
pub fn arrive(url: &str) -> (arrival: Result<Arrival, Refusal>)
    ensures
        refusal(arrival) == (match url_failure(url@) {
            Some(words) => Some(worker_failure(words)),
            None => None,
        }),
        arrival matches Ok(arrival) ==> (arrival is Health <==> asks_for_health(url_path(url@))),
        arrival matches Ok(Arrival::Guarded(path)) ==> path@ == url_path(url@),
{
    match parts_of_url(url) {
        Ok(parts) => if is_health_path(parts.path.as_str()) {
            Ok(Arrival::Health)
        } else {
            Ok(Arrival::Guarded(parts.path))
        },
        Err(words) => Err(Refusal { status: 500, message: words, json: false }),
    }
}

/// What the worker refuses a request to a guarded path with: one without the token with the word
/// for that, one whose path is no route with the words for that.
pub open spec fn entry_refusal(
    path: Seq<char>,
    expected: Seq<char>,
    authorization: Option<Seq<char>>,
) -> Option<Refused> {
    if !carries_token(authorization, expected) {
        Some(Refused { status: 401, message: "unauthorized"@, json: false })
    } else {
        match route_fault(path) {
            Some(words) => Some(worker_failure(words)),
            None => None,
        }
    }
}

/// The database to whose object the worker sends a request to a guarded path.
pub fn let_in(path: &str, expected: &str, authorization: Option<&str>) -> (database: Result<
    String,
    Refusal,
>)
    ensures
        refusal(database) == entry_refusal(
            path@,
            expected@,
            (match authorization {
                Some(text) => Some(text@),
                None => None,
            }),
        ),
        database matches Ok(database) ==> database@ == segments_of(path@)[2],
{
    if !authorized(expected, authorization) {
        return Err(Refusal { status: 401, message: "unauthorized".to_owned(), json: false });
    }
    match checked_segments(path) {
        Ok(segments) => {
            assert(texts(segments@)[2] == segments@[2]@);
            Ok(segments[2].clone())
        },
        Err(words) => Err(Refusal { status: 500, message: words, json: false }),
    }
}

/// The method of a request, as far as it matters.
#[derive(Clone, Copy, Debug, PartialEq, Eq, Structural)]
pub enum Verb {
    Get,
    Post,
    Other,
}

/// What a request asks of a database.
#[derive(Debug)]
pub enum Action {
    Put,
    Get { key: String },
    Delete,
    Scan { prefix: String, limit: usize },
    Reopen,
    Flush,
    ClearCache,
    Stats,
}

/// What a request asks of a database, by its texts.
pub enum Asked {
    Put,
    Get { key: Seq<char> },
    Delete,
    Scan { prefix: Seq<char>, limit: usize },
    Reopen,
    Flush,
    ClearCache,
    Stats,
}

impl View for Action {
    type V = Asked;

    open spec fn view(&self) -> Asked {
        match self {
            Action::Put => Asked::Put,
            Action::Get { key } => Asked::Get { key: key@ },
            Action::Delete => Asked::Delete,
            Action::Scan { prefix, limit } => Asked::Scan { prefix: prefix@, limit: *limit },
            Action::Reopen => Asked::Reopen,
            Action::Flush => Asked::Flush,
            Action::ClearCache => Asked::ClearCache,
            Action::Stats => Asked::Stats,
        }
    }
}

/// The first text under a name in a query.
pub open spec fn first_under(query: Seq<(Seq<char>, Seq<char>)>, name: Seq<char>) -> Option<
    Seq<char>,
>
    decreases query.len(),
{
    if query.len() == 0 {
        None
    } else if query[0].0 == name {
        Some(query[0].1)
    } else {
        first_under(query.skip(1), name)
    }
}

fn find_under<'a>(query: &'a Vec<(String, String)>, name: &str) -> (found: Option<&'a str>)
    ensures
        (match found {
            Some(text) => Some(text@),
            None => None,
        }) == first_under(pair_texts(query@), name@),
{
    let ghost all = pair_texts(query@);
    assert(all.skip(0) =~= all);
    for i in 0..query.len()
        invariant
            all == pair_texts(query@),
            first_under(all.skip(i as int), name@) == first_under(all, name@),
    {
        assert(all.skip(i as int).skip(1) =~= all.skip(i + 1));
        assert(all[i as int] == (query@[i as int].0@, query@[i as int].1@));
        if same_text(query[i].0.as_str(), name) {
            return Some(query[i].1.as_str());
        }
    }
    None
}

/// Reads a text out of a query in which it must stand.
pub fn query(pairs: &Vec<(String, String)>, name: &str) -> (text: Result<String, String>)
    ensures
        text is Ok <==> first_under(pair_texts(pairs@), name@) is Some,
        text matches Ok(text) ==> first_under(pair_texts(pairs@), name@) == Some(text@),
        text matches Err(words) ==> words@ == "missing query parameter: "@ + name@,
{
    match find_under(pairs, name) {
        Some(text) => Ok(text.to_owned()),
        None => {
            let mut words = "missing query parameter: ".to_owned();
            words.append(name);
            Err(words)
        },
    }
}

/// What stands behind the name in the segments of a route.
pub open spec fn tail_of(segments: Seq<Seq<char>>) -> Seq<Seq<char>> {
    segments.skip(3)
}

/// What a request asks for by its method and the tail of its route: nothing where there is no such
/// route. A read of a key must name it.
pub open spec fn asked_for(
    verb: Verb,
    tail: Seq<Seq<char>>,
    query: Seq<(Seq<char>, Seq<char>)>,
) -> Option<Asked> {
    if verb == Verb::Post && tail == seq!["put"@] {
        Some(Asked::Put)
    } else if verb == Verb::Get && tail == seq!["get"@] {
        Some(Asked::Get { key: first_under(query, "key"@)->0 })
    } else if verb == Verb::Post && tail == seq!["delete"@] {
        Some(Asked::Delete)
    } else if verb == Verb::Get && tail == seq!["scan"@] {
        Some(
            Asked::Scan {
                prefix: match first_under(query, "prefix"@) {
                    Some(prefix) => prefix,
                    None => Seq::empty(),
                },
                limit: limited(asked_limit(first_under(query, "limit"@))),
            },
        )
    } else if verb == Verb::Post && tail == seq!["admin"@, "reopen"@] {
        Some(Asked::Reopen)
    } else if verb == Verb::Post && tail == seq!["admin"@, "flush"@] {
        Some(Asked::Flush)
    } else if verb == Verb::Post && tail == seq!["admin"@, "cache"@, "clear"@] {
        Some(Asked::ClearCache)
    } else if verb == Verb::Get && tail == seq!["stats"@] {
        Some(Asked::Stats)
    } else {
        None
    }
}

/// The failure of an object, which is sent as JSON.
pub open spec fn object_failure(words: Seq<char>) -> Refused {
    Refused { status: 500, message: words, json: true }
}

/// What an object answers a request that fails.
pub fn failed(words: String) -> (refusal: Refusal)
    ensures
        refusal@ == object_failure(words@),
{
    Refusal { status: 500, message: words, json: true }
}

/// What an object refuses a request with.
pub open spec fn request_refusal(
    verb: Verb,
    path: Seq<char>,
    query: Seq<(Seq<char>, Seq<char>)>,
) -> Option<Refused> {
    let tail = tail_of(segments_of(path));
    if route_fault(path) is Some {
        Some(object_failure(route_fault(path)->0))
    } else if asked_for(verb, tail, query) is None {
        Some(Refused { status: 404, message: "route not found"@, json: false })
    } else if asked_for(verb, tail, query)->0 is Get && first_under(query, "key"@) is None {
        Some(object_failure("missing query parameter: "@ + "key"@))
    } else {
        None
    }
}

fn tail_is(segments: &Vec<String>, text: &str) -> (same: bool)
    requires
        segments@.len() >= 3,
    ensures
        same == (tail_of(texts(segments@)) == seq![text@]),
{
    let ghost tail = tail_of(texts(segments@));
    if segments.len() != 4 {
        assert(tail.len() != 1);
        return false;
    }
    assert(tail[0] == segments@[3]@);
    assert(tail =~= seq![segments@[3]@]);
    assert(seq![text@][0] == text@);
    same_text(segments[3].as_str(), text)
}

fn admin_tail_is(segments: &Vec<String>, text: &str) -> (same: bool)
    requires
        segments@.len() >= 3,
    ensures
        same == (tail_of(texts(segments@)) == seq!["admin"@, text@]),
{
    let ghost tail = tail_of(texts(segments@));
    let ghost wanted = seq!["admin"@, text@];
    if segments.len() != 5 {
        assert(tail.len() != 2);
        return false;
    }
    assert(tail =~= seq![segments@[3]@, segments@[4]@]);
    assert(wanted[0] == "admin"@ && wanted[1] == text@);
    assert(tail[0] == segments@[3]@ && tail[1] == segments@[4]@);
    same_text(segments[3].as_str(), "admin") && same_text(segments[4].as_str(), text)
}

fn clear_tail(segments: &Vec<String>) -> (same: bool)
    requires
        segments@.len() >= 3,
    ensures
        same == (tail_of(texts(segments@)) == seq!["admin"@, "cache"@, "clear"@]),
{
    let ghost tail = tail_of(texts(segments@));
    let ghost wanted = seq!["admin"@, "cache"@, "clear"@];
    if segments.len() != 6 {
        assert(tail.len() != 3);
        return false;
    }
    assert(tail =~= seq![segments@[3]@, segments@[4]@, segments@[5]@]);
    assert(wanted[0] == "admin"@ && wanted[1] == "cache"@ && wanted[2] == "clear"@);
    assert(tail[0] == segments@[3]@ && tail[1] == segments@[4]@ && tail[2] == segments@[5]@);
    same_text(segments[3].as_str(), "admin") && same_text(segments[4].as_str(), "cache")
        && same_text(segments[5].as_str(), "clear")
}

/// A request to an object: for which database, and what of it.
#[derive(Debug)]
pub struct ObjectRequest {
    pub database: String,
    pub action: Action,
}

/// What a request with these parts asks of an object.
pub fn dispatch(verb: Verb, parts: &UrlParts) -> (request: Result<ObjectRequest, Refusal>)
    ensures
        refusal(request) == request_refusal(verb, parts.path@, pair_texts(parts.query@)),
        request matches Ok(request) ==> request.database@ == segments_of(parts.path@)[2] && Some(
            request.action@,
        ) == asked_for(verb, tail_of(segments_of(parts.path@)), pair_texts(parts.query@)),
{
    let segments: Vec<String> = match checked_segments(parts.path.as_str()) {
        Ok(segments) => segments,
        Err(words) => {
            return Err(failed(words));
        },
    };
    assert(texts(segments@)[2] == segments@[2]@);
    let database: String = segments[2].clone();
    let (get, post): (bool, bool) = (verb == Verb::Get, verb == Verb::Post);
    let action: Action = if post && tail_is(&segments, "put") {
        Action::Put
    } else if get && tail_is(&segments, "get") {
        match query(&parts.query, "key") {
            Ok(key) => Action::Get { key },
            Err(words) => {
                return Err(failed(words));
            },
        }
    } else if post && tail_is(&segments, "delete") {
        Action::Delete
    } else if get && tail_is(&segments, "scan") {
        let prefix: String = match find_under(&parts.query, "prefix") {
            Some(prefix) => prefix.to_owned(),
            None => {
                proof {
                    reveal_strlit("");
                    assert(""@ =~= Seq::<char>::empty());
                }
                "".to_owned()
            },
        };
        Action::Scan { prefix, limit: scan_limit(read_limit(find_under(&parts.query, "limit"))) }
    } else if post && admin_tail_is(&segments, "reopen") {
        Action::Reopen
    } else if post && admin_tail_is(&segments, "flush") {
        Action::Flush
    } else if post && clear_tail(&segments) {
        Action::ClearCache
    } else if get && tail_is(&segments, "stats") {
        Action::Stats
    } else {
        return Err(Refusal { status: 404, message: "route not found".to_owned(), json: false });
    };
    Ok(ObjectRequest { database, action })
}

/// What a request to a URL asks of an object.
pub fn handle(verb: Verb, url: &str) -> (request: Result<ObjectRequest, Refusal>)
    ensures
        refusal(request) == (match url_failure(url@) {
            Some(words) => Some(object_failure(words)),
            None => request_refusal(verb, url_path(url@), url_query(url@)),
        }),
        request matches Ok(request) ==> request.database@ == segments_of(url_path(url@))[2] && Some(
            request.action@,
        ) == asked_for(verb, tail_of(segments_of(url_path(url@))), url_query(url@)),
{
    match parts_of_url(url) {
        Ok(parts) => dispatch(verb, &parts),
        Err(words) => Err(failed(words)),
    }
}

/// The words of a failure of the database.
pub fn slatedb_error(words: &str) -> (message: String)
    ensures
        message@ == "SlateDB: "@ + words@,
{
    let mut message = "SlateDB: ".to_owned();
    message.append(words);
    message
}

/// What an object says of itself.
#[derive(Clone, Copy, Debug, PartialEq, Eq, Structural)]
pub struct StatusResponse {
    pub open: bool,
    pub cache_populated: bool,
}

/// What a database is opened with.
#[derive(Debug)]
pub struct OpenSettings {
    /// What its objects' paths start with in the bucket.
    pub prefix: String,
    pub root: String,
    pub cache_part_size: usize,
}

/// What the database `name` is opened with.
pub fn open_settings(name: &str) -> (settings: OpenSettings)
    ensures
        settings.prefix@ == name@,
        settings.root@ == DB_ROOT@,
        settings.cache_part_size == CACHE_PART_SIZE,
        settings.root@ == "slatedb"@,
        settings.cache_part_size == 1024 * 1024,
{
    OpenSettings {
        prefix: name.to_owned(),
        root: DB_ROOT.to_owned(),
        cache_part_size: CACHE_PART_SIZE,
    }
}

/// A durable object: which database it holds open.
#[derive(Debug)]
pub struct SlateDbObject {
    pub session: Session,
    pub cache: DoCacheStorage,
}

impl SlateDbObject {
    /// An object that has nothing open.
    pub fn new() -> (object: SlateDbObject)
        ensures
            object.session@ is None,
    {
        SlateDbObject { session: Session::new(), cache: DoCacheStorage::new() }
    }

    /// How a request gets at the database `name`. It fails where another one is open.
    pub fn database(&self, name: &str) -> (how: Result<Opening, String>)
        ensures
            how is Ok <==> opening(self.session@, name@) is Some,
            how matches Ok(how) ==> opening(self.session@, name@) == Some(how),
            how matches Err(words) ==> words@
                == "Durable Object was routed with two database names"@,
    {
        match self.session.request(name) {
            Some(how) => Ok(how),
            None => Err("Durable Object was routed with two database names".to_owned()),
        }
    }

    /// What the object says of itself, by the number of keys in its cache.
    pub fn status(&self, entries: u32) -> (status: StatusResponse)
        ensures
            status == (StatusResponse {
                open: self.session@ is Some,
                cache_populated: entries > 0,
            }),
    {
        StatusResponse {
            open: self.session.is_open(),
            cache_populated: self.cache.is_populated(entries),
        }
    }
}

/// Without the token no guarded path is let in, whatever it is, and the answer does not tell one
/// path from another.
pub proof fn law_only_the_token_lets_in(
    path: Seq<char>,
    expected: Seq<char>,
    authorization: Option<Seq<char>>,
)
    ensures
        entry_refusal(path, expected, authorization) is None ==> carries_token(
            authorization,
            expected,
        ),
        !carries_token(authorization, expected) ==> entry_refusal(path, expected, authorization)
            == Some(Refused { status: 401, message: "unauthorized"@, json: false }),
{
}

/// What the worker lets in reaches an object that finds the same database in it: the object refuses
/// it for no fault of its route, and the name is the name of a database.
pub proof fn law_worker_and_object_agree(
    verb: Verb,
    path: Seq<char>,
    query: Seq<(Seq<char>, Seq<char>)>,
    expected: Seq<char>,
    authorization: Option<Seq<char>>,
)
    requires
        entry_refusal(path, expected, authorization) is None,
    ensures
        route_fault(path) is None,
        is_database_name(segments_of(path)[2]),
        request_refusal(verb, path, query) is None <==> (asked_for(
            verb,
            tail_of(segments_of(path)),
            query,
        ) matches Some(asked) && (asked is Get ==> first_under(query, "key"@) is Some)),
{
}

/// The path to something of a database.
pub open spec fn path_to(name: Seq<char>, tail: Seq<char>) -> Seq<char> {
    "/v1/db/"@ + name + "/"@ + tail
}

/// The path to something of a database leads there: its third segment is the name, and behind it
/// stand the segments of what is asked for.
pub proof fn law_paths_lead_to_their_database(name: Seq<char>, tail: Seq<char>)
    requires
        is_database_name(name),
        tail.len() > 0,
        tail.last() != '/',
    ensures
        segments_of(path_to(name, tail)) == seq!["v1"@, "db"@, name] + pieces(tail, '/'),
        route_fault(path_to(name, tail)) is None,
        tail_of(segments_of(path_to(name, tail))) == pieces(tail, '/'),
{
    reveal_strlit("/v1/db/");
    reveal_strlit("v1");
    reveal_strlit("db");
    reveal_strlit("/");
    let path = path_to(name, tail);
    let inner = "v1"@ + seq!['/'] + ("db"@ + seq!['/'] + (name + seq!['/'] + tail));
    assert(path =~= seq!['/'] + inner);
    assert(path.skip(1) =~= inner);
    assert(inner[0] == 'v');
    assert(trimmed_start(path, '/') == trimmed_start(inner, '/'));
    assert(inner.last() == tail.last());
    assert(trimmed_end(inner, '/') == inner);
    lemma_pieces_of_two("v1"@, "db"@ + seq!['/'] + (name + seq!['/'] + tail), '/');
    lemma_pieces_of_two("db"@, name + seq!['/'] + tail, '/');
    lemma_pieces_of_two(name, tail, '/');
    assert(!"v1"@.contains('/'));
    assert(!"db"@.contains('/'));
    lemma_one_piece("v1"@, '/');
    lemma_one_piece("db"@, '/');
    law_names_are_one_segment(name);
    let all = seq!["v1"@, "db"@, name] + pieces(tail, '/');
    assert(segments_of(path) =~= all);
    assert(pieces(tail, '/').len() >= 1);
    assert(all.skip(3) =~= pieces(tail, '/'));
}

/// Only two paths ask for the health of the worker: the root and the one named so.
pub proof fn law_health_has_two_paths(path: Seq<char>)
    ensures
        asks_for_health(path) <==> path == seq!['/'] || path == seq!['/', 'h', 'e', 'a', 'l', 't', 'h'],
{
    reveal_strlit("/");
    reveal_strlit("/health");
    assert("/"@ =~= seq!['/']);
    assert("/health"@ =~= seq!['/', 'h', 'e', 'a', 'l', 't', 'h']);
}

/// An authorization carries the token where it is the scheme, a space and the token, each character
/// for character, and nothing more.
pub proof fn law_the_token_is_carried_whole(text: Seq<char>, supplied: Seq<char>, expected: Seq<char>)
    ensures
        !carries_token(None, expected),
        carries_token(Some(text), expected) <==> text.len() == expected.len() + 7 && text.take(7)
            == seq!['B', 'e', 'a', 'r', 'e', 'r', ' '] && text.skip(7) == expected,
        carries_token(Some("Bearer "@ + supplied), expected) <==> supplied == expected,
{
    reveal_strlit("Bearer ");
    assert("Bearer "@ =~= seq!['B', 'e', 'a', 'r', 'e', 'r', ' ']);
    let whole = "Bearer "@ + expected;
    assert(whole.take(7) =~= "Bearer "@);
    assert(whole.skip(7) =~= expected);
    assert(("Bearer "@ + supplied).skip(7) =~= supplied);
    if text.len() == expected.len() + 7 && text.take(7) == "Bearer "@ && text.skip(7) == expected {
        assert(text =~= text.take(7) + text.skip(7));
    }
}

/// The segments of a path hold no slash and, joined by slashes, are the path but for the slashes at
/// its ends.
pub proof fn law_segments_make_up_the_path(path: Seq<char>)
    ensures
        segments_of(path).len() > 0,
        forall|i: int|
            0 <= i < segments_of(path).len() ==> !(#[trigger] segments_of(path)[i]).contains('/'),
        exists|from: int, to: int|
            {
                &&& 0 <= from <= to <= path.len()
                &&& joined_by(segments_of(path), '/') == #[trigger] path.subrange(from, to)
                &&& forall|i: int| 0 <= i < from || to <= i < path.len() ==> path[i] == '/'
                &&& from < to ==> path[from] != '/' && path[to - 1] != '/'
            },
{
    let inner = trimmed_start(path, '/');
    let bare = trimmed_end(inner, '/');
    law_trimming_takes_one_character(path, '/');
    law_trimming_takes_one_character(inner, '/');
    law_pieces_make_up_the_text(bare, '/');
    let from = path.len() - inner.len();
    let to = from + bare.len();
    assert(bare =~= path.subrange(from, to));
    assert forall|i: int| 0 <= i < from || to <= i < path.len() implies path[i] == '/' by {
        if i >= to {
            assert(inner[i - from] == path[i]);
        }
    }
    if from < to {
        assert(inner[0] == path[from]);
        assert(bare.last() == path[to - 1]);
    }
}

/// A path leads to a database exactly where it has four segments or more, of which the first is `v1`,
/// the second `db` and the third a name; else it fails in the words for what is wrong.
pub proof fn law_routes_have_four_segments(path: Seq<char>)
    ensures
        ({
            let segments = segments_of(path);
            let routed = segments.len() >= 4 && segments[0] == seq!['v', '1'] && segments[1] == seq![
                'd',
                'b',
            ];
            &&& is_route(segments) <==> routed
            &&& route_fault(path) is None <==> routed && is_database_name(segments[2])
            &&& !routed ==> route_fault(path) == Some("route not found"@)
            &&& routed && !is_database_name(segments[2]) ==> route_fault(path) == Some(
                "invalid database name"@,
            )
        }),
{
    reveal_strlit("v1");
    reveal_strlit("db");
    assert("v1"@ =~= seq!['v', '1']);
    assert("db"@ =~= seq!['d', 'b']);
}

/// A text that is no URL fails in words that hold the reason and the text.
pub proof fn law_bad_urls_are_named(url: Seq<char>)
    ensures
        url_failure(url) is None <==> url_fault(url) is None,
        url_fault(url) matches Some(words) ==> url_failure(url) == Some(
            "failed to parse Url from "@ + words + ": "@ + url,
        ),
{
}

/// A refusal shows its status, its message and how it is sent; failures are sent with the status of a
/// failure, by the worker as text and by the object as JSON.
pub proof fn law_refusals_show_what_they_hold(refused: Refusal, words: Seq<char>, text: String)
    ensures
        refused@.status == refused.status,
        refused@.message == refused.message@,
        refused@.json == refused.json,
        refusal(Err::<(), Refusal>(refused)) == Some(refused@),
        refusal(Ok::<(), Refusal>(())) is None,
        fault_words(Err::<(), String>(text)) == Some(text@),
        fault_words(Ok::<(), String>(())) is None,
        worker_failure(words).status == 500 && worker_failure(words).message == words
            && !worker_failure(words).json,
        object_failure(words).status == 500 && object_failure(words).message == words
            && object_failure(words).json,
{
}

/// The worker lets in exactly the requests that carry the token to a path that leads to a database. A
/// request without the token is refused before its path is looked at.
pub proof fn law_entry_needs_the_token_and_a_route(
    path: Seq<char>,
    expected: Seq<char>,
    authorization: Option<Seq<char>>,
)
    ensures
        entry_refusal(path, expected, authorization) is None <==> carries_token(
            authorization,
            expected,
        ) && route_fault(path) is None,
        carries_token(authorization, expected) ==> (route_fault(path) matches Some(words)
            ==> entry_refusal(path, expected, authorization) == Some(
            Refused { status: 500, message: words, json: false },
        )),
{
}

/// Of the texts under a name in a query the first counts, and where there is none, none does.
pub proof fn law_the_first_text_counts(
    query: Seq<(Seq<char>, Seq<char>)>,
    name: Seq<char>,
    at: int,
)
    ensures
        0 <= at < query.len() && query[at].0 == name && (forall|i: int|
            0 <= i < at ==> (#[trigger] query[i]).0 != name) ==> first_under(query, name) == Some(
            query[at].1,
        ),
        (forall|i: int| 0 <= i < query.len() ==> (#[trigger] query[i]).0 != name) ==> first_under(
            query,
            name,
        ) is None,
    decreases query.len(),
{
    if query.len() > 0 {
        let rest = query.skip(1);
        law_the_first_text_counts(rest, name, at - 1);
        assert(forall|i: int| 0 <= i < rest.len() ==> #[trigger] rest[i] == query[i + 1]);
        if query[0].0 != name && 0 < at < query.len() {
            assert(rest[at - 1] == query[at]);
            if forall|i: int| 0 <= i < at ==> (#[trigger] query[i]).0 != name {
                assert(forall|i: int| 0 <= i < at - 1 ==> (#[trigger] rest[i]).0 != name);
            }
        }
    }
}

/// What stands behind the name is every segment from the fourth on.
pub proof fn law_tails_start_behind_the_name(segments: Seq<Seq<char>>, at: int)
    requires
        3 <= at < segments.len(),
    ensures
        tail_of(segments).len() == segments.len() - 3,
        tail_of(segments)[at - 3] == segments[at],
{
}

/// Each of the eight things that can be asked of a database has one method and one route, and every
/// other request asks for nothing.
pub proof fn law_each_request_has_one_route(
    verb: Verb,
    tail: Seq<Seq<char>>,
    query: Seq<(Seq<char>, Seq<char>)>,
)
    ensures
        ({
            let asked = asked_for(verb, tail, query);
            let put = verb == Verb::Post && tail.len() == 1 && tail[0] == "put"@;
            let get = verb == Verb::Get && tail.len() == 1 && tail[0] == "get"@;
            let delete = verb == Verb::Post && tail.len() == 1 && tail[0] == "delete"@;
            let scan = verb == Verb::Get && tail.len() == 1 && tail[0] == "scan"@;
            let reopen = verb == Verb::Post && tail.len() == 2 && tail[0] == "admin"@ && tail[1]
                == "reopen"@;
            let flush = verb == Verb::Post && tail.len() == 2 && tail[0] == "admin"@ && tail[1]
                == "flush"@;
            let clear = verb == Verb::Post && tail.len() == 3 && tail[0] == "admin"@ && tail[1]
                == "cache"@ && tail[2] == "clear"@;
            let stats = verb == Verb::Get && tail.len() == 1 && tail[0] == "stats"@;
            &&& put <==> asked == Some(Asked::Put)
            &&& get <==> asked is Some && asked->0 is Get
            &&& delete <==> asked == Some(Asked::Delete)
            &&& scan <==> asked is Some && asked->0 is Scan
            &&& reopen <==> asked == Some(Asked::Reopen)
            &&& flush <==> asked == Some(Asked::Flush)
            &&& clear <==> asked == Some(Asked::ClearCache)
            &&& stats <==> asked == Some(Asked::Stats)
            &&& asked is None <==> !put && !get && !delete && !scan && !reopen && !flush && !clear
                && !stats
        }),
{
    reveal_strlit("put");
    reveal_strlit("get");
    reveal_strlit("delete");
    reveal_strlit("scan");
    reveal_strlit("stats");
    reveal_strlit("reopen");
    reveal_strlit("flush");
    assert("put"@.len() == 3 && "delete"@.len() == 6);
    assert("get"@.len() == 3 && "scan"@.len() == 4 && "stats"@.len() == 5);
    assert("reopen"@.len() == 6 && "flush"@.len() == 5);
    assert(tail.len() == 1 ==> tail =~= seq![tail[0]]);
    assert(tail.len() == 2 ==> tail =~= seq![tail[0], tail[1]]);
    assert(tail.len() == 3 ==> tail =~= seq![tail[0], tail[1], tail[2]]);
    assert(seq!["put"@][0] == "put"@ && seq!["put"@].len() == 1);
    assert(seq!["get"@][0] == "get"@ && seq!["get"@].len() == 1);
    assert(seq!["delete"@][0] == "delete"@ && seq!["delete"@].len() == 1);
    assert(seq!["scan"@][0] == "scan"@ && seq!["scan"@].len() == 1);
    assert(seq!["stats"@][0] == "stats"@ && seq!["stats"@].len() == 1);
    assert(seq!["admin"@, "reopen"@][0] == "admin"@ && seq!["admin"@, "reopen"@][1] == "reopen"@);
    assert(seq!["admin"@, "flush"@][0] == "admin"@ && seq!["admin"@, "flush"@][1] == "flush"@);
    let clear = seq!["admin"@, "cache"@, "clear"@];
    assert(clear[0] == "admin"@ && clear[1] == "cache"@ && clear[2] == "clear"@);
}

/// A read asks for the first key in its query; a scan asks for the first prefix, or for every key, and
/// for as many rows as the first limit says, kept within bounds.
pub proof fn law_requests_ask_for_what_the_query_says(
    verb: Verb,
    tail: Seq<Seq<char>>,
    query: Seq<(Seq<char>, Seq<char>)>,
)
    ensures
        asked_for(verb, tail, query) matches Some(Asked::Get { key }) ==> (first_under(query, "key"@)
            is Some ==> first_under(query, "key"@) == Some(key)),
        asked_for(verb, tail, query) matches Some(Asked::Scan { prefix, limit }) ==> {
            &&& first_under(query, "prefix"@) matches Some(text) ==> prefix == text
            &&& first_under(query, "prefix"@) is None ==> prefix.len() == 0
            &&& limit == limited(asked_limit(first_under(query, "limit"@)))
            &&& 1 <= limit <= 1000
        },
{
    if let Some(Asked::Scan { limit, .. }) = asked_for(verb, tail, query) {
        law_limits_lie_between_one_and_a_thousand(asked_limit(first_under(query, "limit"@)));
    }
}

/// A request is refused exactly where its path leads to no database, where nothing can be asked for
/// so, or where a read names no key; what is wrong first is named, in this order.
pub proof fn law_requests_are_refused_for_a_reason(
    verb: Verb,
    path: Seq<char>,
    query: Seq<(Seq<char>, Seq<char>)>,
)
    ensures
        ({
            let fault = route_fault(path);
            let asked = asked_for(verb, segments_of(path).skip(3), query);
            let keyless = asked is Some && asked->0 is Get && first_under(query, "key"@) is None;
            let refused = request_refusal(verb, path, query);
            &&& refused is None <==> fault is None && asked is Some && !keyless
            &&& fault matches Some(words) ==> refused == Some(
                Refused { status: 500, message: words, json: true },
            )
            &&& fault is None && asked is None ==> refused == Some(
                Refused { status: 404, message: "route not found"@, json: false },
            )
            &&& fault is None && keyless ==> refused == Some(
                Refused {
                    status: 500,
                    message: "missing query parameter: "@ + "key"@,
                    json: true,
                },
            )
        }),
{
}

/// What is asked for shows its texts and its limit.
pub proof fn law_actions_show_what_they_ask(text: String, limit: usize)
    ensures
        Action::Put@ == Asked::Put,
        (Action::Get { key: text })@ == (Asked::Get { key: text@ }),
        Action::Delete@ == Asked::Delete,
        (Action::Scan { prefix: text, limit })@ == (Asked::Scan { prefix: text@, limit }),
        Action::Reopen@ == Asked::Reopen,
        Action::Flush@ == Asked::Flush,
        Action::ClearCache@ == Asked::ClearCache,
        Action::Stats@ == Asked::Stats,
{
}

} // verus!
