//! The container that holds one database: its configuration, its cache directory and what it
//! answers.
use crate::names::{is_database_name, law_names_are_one_segment, names_a_database};
use crate::session::{opening, Opening, Session};
use crate::text::{lemma_pieces_of_two, pieces};
use vstd::prelude::*;
use vstd::string::*;

verus! {

/// The directory under which each database has its cache.
pub const CACHE_ROOT: &'static str = "/var/cache/slatedb";

/// How many bytes the cache on disk may have.
pub const CACHE_BYTES: usize = 536_870_912;

/// How many bytes the cache in memory may have.
pub const MEMORY_CACHE_BYTES: u64 = 134_217_728;

/// Into how many shards the cache in memory is parted.
pub const MEMORY_CACHE_SHARDS: usize = 8;

/// How many bytes a table of the first level has.
pub const L0_SST_BYTES: usize = 67_108_864;

/// How many bytes may wait to be flushed.
pub const MAX_UNFLUSHED_BYTES: usize = 268_435_456;

/// Where a database lies under the prefix of its name.
pub const DB_ROOT: &'static str = "slatedb";

/// The region of the bucket.
pub const REGION: &'static str = "auto";

/// What the container calls itself where it is asked for its health.
pub const SERVICE: &'static str = "slatedb-cloudflare-container";

/// What a request fails with.
#[derive(Debug)]
pub struct AppError {
    pub status: u16,
    pub message: String,
}

impl AppError {
    /// A failure of the container.
    pub fn internal(message: String) -> (error: AppError)
        ensures
            error.status == 500,
            error.message == message,
    {
        AppError { status: 500, message }
    }

    /// A fault of the request.
    pub fn bad_request(message: &str) -> (error: AppError)
        ensures
            error.status == 400,
            error.message@ == message@,
    {
        AppError { status: 400, message: message.to_owned() }
    }
}

/// The status and the words of a failed outcome.
pub open spec fn app_failure<T>(outcome: Result<T, AppError>) -> Option<(u16, Seq<char>)> {
    match outcome {
        Ok(_) => None,
        Err(error) => Some((error.status, error.message@)),
    }
}

/// The words that say that a variable is missing.
pub open spec fn missing_variable(name: Seq<char>) -> Seq<char> {
    "missing environment variable "@ + name
}

/// The value of a variable that must be set.
pub fn required_env(name: &str, value: Option<String>) -> (text: Result<String, String>)
    ensures
        text is Ok <==> value is Some,
        text matches Ok(text) ==> Some(text) == value,
        text matches Err(words) ==> words@ == missing_variable(name@),
{
    match value {
        Some(text) => Ok(text),
        None => {
            let mut words = "missing environment variable ".to_owned();
            words.append(name);
            Err(words)
        },
    }
}

/// How the container gets at its bucket.
#[derive(Debug)]
pub struct Config {
    pub endpoint: String,
    pub bucket: String,
    pub access_key_id: String,
    pub secret_access_key: String,
}

/// The variables that the configuration is read from.
#[derive(Debug)]
pub struct Variables {
    /// `R2_ACCOUNT_ID`
    pub account_id: Option<String>,
    /// `R2_BUCKET`
    pub bucket: Option<String>,
    /// `R2_ACCESS_KEY_ID`
    pub access_key_id: Option<String>,
    /// `R2_SECRET_ACCESS_KEY`
    pub secret_access_key: Option<String>,
}

/// What is wrong with the variables, in words: the first one that is missing.
pub open spec fn config_fault(variables: Variables) -> Option<Seq<char>> {
    if variables.account_id is None {
        Some(missing_variable("R2_ACCOUNT_ID"@))
    } else if variables.bucket is None {
        Some(missing_variable("R2_BUCKET"@))
    } else if variables.access_key_id is None {
        Some(missing_variable("R2_ACCESS_KEY_ID"@))
    } else if variables.secret_access_key is None {
        Some(missing_variable("R2_SECRET_ACCESS_KEY"@))
    } else {
        None
    }
}

impl Config {
    /// Reads the configuration from variables.
    pub fn from_env(variables: Variables) -> (config: Result<Config, String>)
        ensures
            config is Ok <==> config_fault(variables) is None,
            config matches Err(words) ==> config_fault(variables) == Some(words@),
            config matches Ok(config) ==> config.endpoint@ == "https://"@
                + variables.account_id->0@ + ".r2.cloudflarestorage.com"@ && Some(config.bucket)
                == variables.bucket && Some(config.access_key_id) == variables.access_key_id
                && Some(config.secret_access_key) == variables.secret_access_key,
    {
        let account_id: String = match required_env("R2_ACCOUNT_ID", variables.account_id) {
            Ok(text) => text,
            Err(words) => {
                return Err(words);
            },
        };
        let mut endpoint = "https://".to_owned();
        endpoint.append(account_id.as_str());
        endpoint.append(".r2.cloudflarestorage.com");
        let bucket: String = match required_env("R2_BUCKET", variables.bucket) {
            Ok(text) => text,
            Err(words) => {
                return Err(words);
            },
        };
        let access_key_id: String = match required_env(
            "R2_ACCESS_KEY_ID",
            variables.access_key_id,
        ) {
            Ok(text) => text,
            Err(words) => {
                return Err(words);
            },
        };
        match required_env("R2_SECRET_ACCESS_KEY", variables.secret_access_key) {
            Ok(secret_access_key) => Ok(
                Config { endpoint, bucket, access_key_id, secret_access_key },
            ),
            Err(words) => Err(words),
        }
    }
}

/// What a text that is no name of a database fails with.
pub open spec fn name_failure(name: Seq<char>) -> Option<(u16, Seq<char>)> {
    if is_database_name(name) {
        None
    } else {
        Some((400, "invalid database name"@))
    }
}

/// Refuses a text that is no name of a database.
pub fn validate_database_name(name: &str) -> (checked: Result<(), AppError>)
    ensures
        app_failure(checked) == name_failure(name@),
{
    if names_a_database(name) {
        Ok(())
    } else {
        Err(AppError::bad_request("invalid database name"))
    }
}

/// The path of `name` seen from the directory `root`, which has no slash at its end. One that
/// starts with a slash stands for itself.
pub open spec fn path_under(root: Seq<char>, name: Seq<char>) -> Seq<char> {
    if name.len() > 0 && name[0] == '/' {
        name
    } else {
        root + "/"@ + name
    }
}

/// The cache directory of a database.
pub fn cache_dir(name: &str) -> (path: String)
    ensures
        path@ == path_under(CACHE_ROOT@, name@),
{
    if name.unicode_len() > 0 && name.get_char(0) == '/' {
        return name.to_owned();
    }
    let mut path = CACHE_ROOT.to_owned();
    path.append("/");
    path.append(name);
    path
}

/// The cache directory of a database lies directly under the root: it has one segment more, the
/// name.
pub proof fn law_cache_directories_lie_under_the_root(name: Seq<char>)
    requires
        is_database_name(name),
    ensures
        path_under(CACHE_ROOT@, name) == CACHE_ROOT@ + "/"@ + name,
        pieces(path_under(CACHE_ROOT@, name), '/') == pieces(CACHE_ROOT@, '/').push(name),
{
    law_names_are_one_segment(name);
    assert(name.contains(name[0]));
    reveal_strlit("/");
    assert("/"@ =~= seq!['/']);
    lemma_pieces_of_two(CACHE_ROOT@, name, '/');
    assert(pieces(CACHE_ROOT@, '/') + seq![name] =~= pieces(CACHE_ROOT@, '/').push(name));
}

/// No two databases share a cache directory.
pub proof fn law_cache_directories_are_apart(left: Seq<char>, right: Seq<char>)
    requires
        is_database_name(left),
        is_database_name(right),
        path_under(CACHE_ROOT@, left) == path_under(CACHE_ROOT@, right),
    ensures
        left == right,
{
    law_cache_directories_lie_under_the_root(left);
    law_cache_directories_lie_under_the_root(right);
    let all = pieces(CACHE_ROOT@, '/');
    assert(all.push(left).last() == left);
    assert(all.push(right).last() == right);
}

/// What a database is opened with.
#[derive(Debug)]
pub struct DatabaseSettings {
    /// What its objects' paths start with in the bucket.
    pub prefix: String,
    pub root: String,
    pub cache_dir: String,
    pub cache_bytes: usize,
    pub memory_cache_bytes: u64,
    pub memory_cache_shards: usize,
    pub l0_sst_bytes: usize,
    pub max_unflushed_bytes: usize,
}

/// What the database `name` is opened with.
pub fn database_settings(name: &str) -> (settings: DatabaseSettings)
    ensures
        settings.prefix@ == name@,
        settings.root@ == DB_ROOT@,
        settings.cache_dir@ == path_under(CACHE_ROOT@, name@),
        settings.cache_bytes == CACHE_BYTES,
        settings.memory_cache_bytes == MEMORY_CACHE_BYTES,
        settings.memory_cache_shards == MEMORY_CACHE_SHARDS,
        settings.l0_sst_bytes == L0_SST_BYTES,
        settings.max_unflushed_bytes == MAX_UNFLUSHED_BYTES,
        settings.root@ == "slatedb"@,
        settings.cache_bytes == 512 * 1024 * 1024,
        settings.memory_cache_bytes == 128 * 1024 * 1024,
        settings.memory_cache_shards == 8,
        settings.l0_sst_bytes == 64 * 1024 * 1024,
        settings.max_unflushed_bytes == 256 * 1024 * 1024,
{
    DatabaseSettings {
        prefix: name.to_owned(),
        root: DB_ROOT.to_owned(),
        cache_dir: cache_dir(name),
        cache_bytes: CACHE_BYTES,
        memory_cache_bytes: MEMORY_CACHE_BYTES,
        memory_cache_shards: MEMORY_CACHE_SHARDS,
        l0_sst_bytes: L0_SST_BYTES,
        max_unflushed_bytes: MAX_UNFLUSHED_BYTES,
    }
}

/// What a request for the database `name` fails with: the name is none, or another database is open.
pub open spec fn database_failure(active: Option<Seq<char>>, name: Seq<char>) -> Option<
    (u16, Seq<char>),
> {
    if !is_database_name(name) {
        name_failure(name)
    } else if opening(active, name) is None {
        Some((500, "container was routed with two database names"@))
    } else {
        None
    }
}

/// What the container says of itself, but for the metrics of the database.
#[derive(Debug)]
pub struct StatusResponse {
    pub runtime: String,
    pub open: bool,
    pub cache_populated: bool,
    pub cache_storage_bytes: u64,
}

/// A container: which database it holds open.
#[derive(Debug)]
pub struct Container {
    pub session: Session,
}

impl Container {
    /// A container that has nothing open.
    pub fn new() -> (container: Container)
        ensures
            container.session@ is None,
    {
        Container { session: Session::new() }
    }

    /// How a request gets at the database `name`.
    pub fn database(&self, name: &str) -> (how: Result<Opening, AppError>)
        ensures
            app_failure(how) == database_failure(self.session@, name@),
            how matches Ok(how) ==> opening(self.session@, name@) == Some(how),
    {
        if let Err(error) = validate_database_name(name) {
            return Err(error);
        }
        match self.session.request(name) {
            Some(how) => Ok(how),
            None => Err(
                AppError::internal("container was routed with two database names".to_owned()),
            ),
        }
    }

    /// Makes way for the database `name` to be opened anew, and says whether there is one to close.
    pub fn make_way(&mut self, name: &str) -> (close: Result<bool, AppError>)
        ensures
            app_failure(close) == name_failure(name@),
            close matches Ok(close) ==> close == (old(self).session@ is Some)
                && final(self).session@ is None,
            close is Err ==> final(self).session@ == old(self).session@,
    {
        if let Err(error) = validate_database_name(name) {
            return Err(error);
        }
        Ok(self.session.take())
    }

    /// What the container says of itself, by the bytes in the cache directory.
    pub fn status(&self, cache_storage_bytes: u64) -> (status: StatusResponse)
        ensures
            status.runtime@ == "container"@,
            status.open == (self.session@ is Some),
            status.cache_populated == (cache_storage_bytes > 0),
            status.cache_storage_bytes == cache_storage_bytes,
    {
        StatusResponse {
            runtime: "container".to_owned(),
            open: self.session.is_open(),
            cache_populated: cache_storage_bytes > 0,
            cache_storage_bytes,
        }
    }
}

/// How a directory was removed.
#[derive(Debug)]
pub enum Removal {
    Removed,
    /// There was none.
    Missing,
    Failed(String),
}

/// What the removal of a cache directory comes to: it may be missing.
pub fn cache_removed(removal: Removal) -> (cleared: Result<(), AppError>)
    ensures
        app_failure(cleared) == (match removal {
            Removal::Failed(words) => Some((500u16, words@)),
            _ => None,
        }),
{
    match removal {
        Removal::Removed => Ok(()),
        Removal::Missing => Ok(()),
        Removal::Failed(words) => Err(AppError::internal(words)),
    }
}

/// What is found at a path.
#[derive(Debug)]
pub enum Tree {
    /// A file of so many bytes.
    File(u64),
    /// A directory with these entries.
    Directory(Vec<Tree>),
    /// Nothing: it has gone meanwhile, or was never there.
    Missing,
    /// Something that cannot be read.
    Failed(String),
}

/// The bytes of the files that are found at a path.
pub open spec fn tree_bytes(tree: Tree) -> nat
    decreases tree,
{
    match tree {
        Tree::File(bytes) => bytes as nat,
        Tree::Directory(entries) => trees_bytes(entries@),
        _ => 0,
    }
}

/// The bytes of the files that are found at paths.
pub open spec fn trees_bytes(trees: Seq<Tree>) -> nat
    decreases trees,
{
    if trees.len() == 0 {
        0
    } else {
        trees_bytes(trees.drop_last()) + tree_bytes(trees.last())
    }
}

/// The words for the first thing at a path that cannot be read.
pub open spec fn tree_fault(tree: Tree) -> Option<Seq<char>>
    decreases tree,
{
    match tree {
        Tree::Directory(entries) => trees_fault(entries@),
        Tree::Failed(words) => Some(words@),
        _ => None,
    }
}

/// The words for the first thing at paths that cannot be read.
pub open spec fn trees_fault(trees: Seq<Tree>) -> Option<Seq<char>>
    decreases trees,
{
    if trees.len() == 0 {
        None
    } else if trees_fault(trees.drop_last()) is Some {
        trees_fault(trees.drop_last())
    } else {
        tree_fault(trees.last())
    }
}

proof fn lemma_part_of_trees(trees: Seq<Tree>, count: int)
    requires
        0 <= count <= trees.len(),
    ensures
        trees_bytes(trees.take(count)) <= trees_bytes(trees),
        trees_fault(trees.take(count)) is Some ==> trees_fault(trees) == trees_fault(
            trees.take(count),
        ),
    decreases trees.len() - count,
{
    if count < trees.len() {
        lemma_part_of_trees(trees, count + 1);
        assert(trees.take(count + 1).drop_last() =~= trees.take(count));
    } else {
        assert(trees.take(count) =~= trees);
    }
}

/// The bytes of the files that are found at a path, a directory or not.
fn tree_size(tree: &Tree) -> (bytes: Result<u64, String>)
    requires
        tree_bytes(*tree) <= u64::MAX,
    ensures
        bytes is Ok <==> tree_fault(*tree) is None,
        bytes matches Ok(bytes) ==> bytes == tree_bytes(*tree),
        bytes matches Err(words) ==> tree_fault(*tree) == Some(words@),
    decreases tree,
{
    match tree {
        Tree::File(bytes) => Ok(*bytes),
        Tree::Missing => Ok(0),
        Tree::Failed(words) => Err(words.clone()),
        Tree::Directory(entries) => {
            let mut total: u64 = 0;
            assert(entries@.take(0) =~= Seq::<Tree>::empty());
            for i in 0..entries.len()
                invariant
                    *tree == Tree::Directory(*entries),
                    trees_bytes(entries@) <= u64::MAX,
                    total == trees_bytes(entries@.take(i as int)),
                    trees_fault(entries@.take(i as int)) is None,
            {
                proof {
                    assert(entries@.take(i + 1).drop_last() =~= entries@.take(i as int));
                    assert(entries@.take(i + 1).last() == entries@[i as int]);
                    lemma_part_of_trees(entries@, i + 1);
                }
                match tree_size(&entries[i]) {
                    Ok(bytes) => {
                        total = total + bytes;
                    },
                    Err(words) => {
                        return Err(words);
                    },
                }
            }
            assert(entries@.take(entries@.len() as int) =~= entries@);
            Ok(total)
        },
    }
}

/// The words for what keeps a path from being read as a directory: it is a file, or something in it
/// or below it cannot be read.
pub open spec fn directory_fault(tree: Tree) -> Option<Seq<char>> {
    if tree is File {
        Some("not a directory"@)
    } else {
        tree_fault(tree)
    }
}

/// The bytes of the files in a directory and in those below it. A missing directory has none, and a
/// file is no directory.
pub fn directory_size(tree: &Tree) -> (bytes: Result<u64, String>)
    requires
        tree_bytes(*tree) <= u64::MAX,
    ensures
        bytes is Ok <==> directory_fault(*tree) is None,
        bytes matches Ok(bytes) ==> bytes == tree_bytes(*tree),
        bytes matches Err(words) ==> directory_fault(*tree) == Some(words@),
{
    match tree {
        Tree::File(_) => Err("not a directory".to_owned()),
        _ => tree_size(tree),
    }
}

/// The configuration is missing exactly where a variable is, and names the first that is, in the order
/// of account, bucket, key and secret.
pub proof fn law_the_first_missing_variable_is_named(variables: Variables, name: Seq<char>)
    ensures
        missing_variable(name) == "missing environment variable "@ + name,
        config_fault(variables) is None <==> variables.account_id is Some && variables.bucket is Some
            && variables.access_key_id is Some && variables.secret_access_key is Some,
        variables.account_id is None ==> config_fault(variables) == Some(
            "missing environment variable "@ + "R2_ACCOUNT_ID"@,
        ),
        variables.account_id is Some && variables.bucket is None ==> config_fault(variables) == Some(
            "missing environment variable "@ + "R2_BUCKET"@,
        ),
        variables.account_id is Some && variables.bucket is Some && variables.access_key_id is None
            ==> config_fault(variables) == Some(
            "missing environment variable "@ + "R2_ACCESS_KEY_ID"@,
        ),
        variables.account_id is Some && variables.bucket is Some && variables.access_key_id is Some
            && variables.secret_access_key is None ==> config_fault(variables) == Some(
            "missing environment variable "@ + "R2_SECRET_ACCESS_KEY"@,
        ),
{
}

/// A path under a root is the root, a slash and the name, unless the name starts with a slash: then it
/// is the name. The root has no slash at its end.
pub proof fn law_names_stand_behind_the_root(root: Seq<char>, name: Seq<char>)
    ensures
        name.len() > 0 && name[0] == '/' ==> path_under(root, name) == name,
        name.len() == 0 || name[0] != '/' ==> path_under(root, name).len() == root.len() + 1
            + name.len() && path_under(root, name).take(root.len() as int) == root && path_under(
            root,
            name,
        )[root.len() as int] == '/' && path_under(root, name).skip(root.len() as int + 1) == name,
        CACHE_ROOT@ == "/var/cache/slatedb"@,
{
    reveal_strlit("/");
    let path = root + "/"@ + name;
    assert(path.take(root.len() as int) =~= root);
    assert(path.skip(root.len() as int + 1) =~= name);
}

/// A request fails as a bad one where its name is no name, as a failure of the container where another
/// database is open, and not otherwise.
pub proof fn law_requests_fail_for_their_name_first(active: Option<Seq<char>>, name: Seq<char>)
    ensures
        name_failure(name) is None <==> is_database_name(name),
        !is_database_name(name) ==> name_failure(name) == Some((400u16, "invalid database name"@))
            && database_failure(active, name) == Some((400u16, "invalid database name"@)),
        is_database_name(name) ==> (database_failure(active, name) is None <==> active is None
            || active == Some(name)),
        is_database_name(name) && active is Some && active != Some(name) ==> database_failure(
            active,
            name,
        ) == Some((500u16, "container was routed with two database names"@)),
{
}

/// What is found adds up: a file has its bytes, a directory those of its entries, anything else none,
/// and the entries of two runs together have the bytes of both.
pub proof fn law_files_add_up(
    bytes: u64,
    words: String,
    entries: Vec<Tree>,
    left: Seq<Tree>,
    right: Seq<Tree>,
    tree: Tree,
)
    ensures
        tree_bytes(Tree::File(bytes)) == bytes,
        tree_bytes(Tree::Directory(entries)) == trees_bytes(entries@),
        tree_bytes(Tree::Missing) == 0,
        tree_bytes(Tree::Failed(words)) == 0,
        trees_bytes(Seq::empty()) == 0,
        trees_bytes(seq![tree]) == tree_bytes(tree),
        trees_bytes(left + right) == trees_bytes(left) + trees_bytes(right),
    decreases right.len(),
{
    assert(seq![tree].drop_last() =~= Seq::<Tree>::empty());
    assert(trees_bytes(seq![tree].drop_last()) == 0);
    if right.len() == 0 {
        assert(left + right =~= left);
    } else {
        law_files_add_up(bytes, words, entries, left, right.drop_last(), tree);
        assert((left + right).drop_last() =~= left + right.drop_last());
    }
}

/// The first thing that cannot be read decides: something that failed fails in its own words, a
/// directory as its entries do, and entries as the first of them that does. A file or a missing thing
/// does not fail, but a file is no directory.
pub proof fn law_the_first_failure_decides(
    bytes: u64,
    words: String,
    entries: Vec<Tree>,
    left: Seq<Tree>,
    right: Seq<Tree>,
    tree: Tree,
)
    ensures
        tree_fault(Tree::File(bytes)) is None,
        tree_fault(Tree::Missing) is None,
        tree_fault(Tree::Failed(words)) == Some(words@),
        tree_fault(Tree::Directory(entries)) == trees_fault(entries@),
        trees_fault(Seq::empty()) is None,
        trees_fault(seq![tree]) == tree_fault(tree),
        trees_fault(left) is Some ==> trees_fault(left + right) == trees_fault(left),
        trees_fault(left) is None ==> trees_fault(left + right) == trees_fault(right),
        directory_fault(Tree::File(bytes)) == Some("not a directory"@),
        !(tree is File) ==> directory_fault(tree) == tree_fault(tree),
    decreases right.len(),
{
    assert(seq![tree].drop_last() =~= Seq::<Tree>::empty());
    assert(trees_fault(seq![tree].drop_last()) is None);
    if right.len() == 0 {
        assert(left + right =~= left);
    } else {
        law_the_first_failure_decides(bytes, words, entries, left, right.drop_last(), tree);
        assert((left + right).drop_last() =~= left + right.drop_last());
    }
}

/// An outcome shows the status and the words of its error.
pub proof fn law_failures_show_their_error(error: AppError)
    ensures
        app_failure(Err::<(), AppError>(error)) == Some((error.status, error.message@)),
        app_failure(Ok::<(), AppError>(())) is None,
{
}

} // verus!
