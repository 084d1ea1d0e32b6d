//! Which database a process holds open: at most one, so that each has a single writer.
use crate::text::{opt_text, same_text};
use vstd::prelude::*;
use vstd::string::*;

verus! {

/// How a request gets at its database.
#[derive(Clone, Copy, Debug, PartialEq, Eq, Structural)]
pub enum Opening {
    /// It is open.
    Current,
    /// It has to be opened first.
    Open,
}

/// How a request for the database `name` gets at it, if it does: not where another one is open.
pub open spec fn opening(active: Option<Seq<char>>, name: Seq<char>) -> Option<Opening> {
    match active {
        Some(current) => if current == name {
            Some(Opening::Current)
        } else {
            None
        },
        None => Some(Opening::Open),
    }
}

/// The name of the open database, if one is open.
#[derive(Debug)]
pub struct Session {
    pub active: Option<String>,
}

impl View for Session {
    type V = Option<Seq<char>>;

    open spec fn view(&self) -> Option<Seq<char>> {
        opt_text(self.active)
    }
}

impl Session {
    /// Nothing is open.
    pub fn new() -> (session: Session)
        ensures
            session@ is None,
    {
        Session { active: None }
    }

    /// How a request for the database `name` gets at it; nothing where another one is open.
    pub fn request(&self, name: &str) -> (how: Option<Opening>)
        ensures
            how == opening(self@, name@),
    {
        match &self.active {
            Some(current) => if same_text(current.as_str(), name) {
                Some(Opening::Current)
            } else {
                None
            },
            None => Some(Opening::Open),
        }
    }

    /// Notes that the database `name` has been opened.
    pub fn opened(&mut self, name: &str)
        requires
            old(self)@ is None,
        ensures
            final(self)@ == Some(name@),
    {
        self.active = Some(name.to_owned());
    }

    /// Lets go of what is open, and says whether there is something to close.
    pub fn take(&mut self) -> (close: bool)
        ensures
            close == (old(self)@ is Some),
            final(self)@ is None,
    {
        let close: bool = self.active.is_some();
        self.active = None;
        close
    }

    /// Whether a database is open.
    pub fn is_open(&self) -> (open: bool)
        ensures
            open == (self@ is Some),
    {
        self.active.is_some()
    }
}

/// What is open after a request for the database `name` has been served or refused.
pub open spec fn after_request(active: Option<Seq<char>>, name: Seq<char>) -> Option<Seq<char>> {
    match opening(active, name) {
        Some(_) => Some(name),
        None => active,
    }
}

/// What is open after requests have been served or refused in turn.
pub open spec fn after_requests(active: Option<Seq<char>>, names: Seq<Seq<char>>) -> Option<
    Seq<char>,
>
    decreases names.len(),
{
    if names.len() == 0 {
        active
    } else {
        after_request(after_requests(active, names.drop_last()), names.last())
    }
}

/// Until it is let go of, one database stays open, whatever is asked for: requests for it are
/// served, and requests for every other are refused.
pub proof fn law_one_database_stays_open(
    active: Seq<char>,
    names: Seq<Seq<char>>,
    name: Seq<char>,
)
    ensures
        after_requests(Some(active), names) == Some(active),
        opening(after_requests(Some(active), names), name) is Some <==> name == active,
    decreases names.len(),
{
    if names.len() > 0 {
        law_one_database_stays_open(active, names.drop_last(), name);
    }
}

/// The first database that is asked for is the one that is opened.
pub proof fn law_the_first_request_decides(names: Seq<Seq<char>>)
    requires
        names.len() > 0,
    ensures
        after_requests(None, names) == Some(names[0]),
    decreases names.len(),
{
    if names.len() > 1 {
        law_the_first_request_decides(names.drop_last());
    } else {
        assert(after_requests(None, names.drop_last()) is None);
    }
}

/// A request for a database gets at it where it is open or nothing is, and where nothing is it has to
/// be opened first; a request that gets at its database leaves that one open, and one that does not
/// leaves what was open.
pub proof fn law_requests_get_at_the_open_database(
    active: Option<Seq<char>>,
    name: Seq<char>,
    other: Seq<char>,
)
    ensures
        opening(None, name) == Some(Opening::Open),
        opening(Some(name), name) == Some(Opening::Current),
        other != name ==> opening(Some(other), name) is None,
        opening(active, name) is Some ==> after_request(active, name) == Some(name) && opening(
            after_request(active, name),
            name,
        ) == Some(Opening::Current),
        opening(active, name) is None ==> after_request(active, name) == active,
{
}

} // verus!
