//! Session persistence switches as the command line gives them.
use vstd::prelude::*;

verus! {

/// The `--session-persist [path]` and `--no-session-persist` switches.
pub struct SessionPersistCli {
    /// `None` when `--session-persist` is absent; `Some(None)` when it is
    /// given without a directory; `Some(Some(dir))` with one.
    session_persist: Option<Option<String>>,
    /// Whether `--no-session-persist` was given.
    no_session_persist: bool,
}

impl SessionPersistCli {
    pub closed spec fn persist_arg(&self) -> Option<Option<Seq<char>>> {
        match self.session_persist {
            Some(Some(p)) => Some(Some(p@)),
            Some(None) => Some(None),
            None => None,
        }
    }

    pub closed spec fn disabled(&self) -> bool {
        self.no_session_persist
    }

    /// The switches as parsed.
    pub fn new(session_persist: Option<Option<String>>, no_session_persist: bool) -> (r: Self)
        ensures
            r.disabled() == no_session_persist,
            r.persist_arg() == match session_persist {
                Some(Some(p)) => Some(Some(p@)),
                Some(None) => Some(None::<Seq<char>>),
                None => None,
            },
    {
        SessionPersistCli { session_persist, no_session_persist }
    }

    /// Whether persistence was switched: off when `--no-session-persist` was
    /// given (it wins), on when `--session-persist` was, else not said.
    pub fn flag(&self) -> (r: Option<bool>)
        ensures
            r == if self.disabled() {
                Some(false)
            } else if self.persist_arg() is Some {
                Some(true)
            } else {
                None::<bool>
            },
    {
        if self.no_session_persist {
            Some(false)
        } else if self.session_persist.is_some() {
            Some(true)
        } else {
            None
        }
    }

    /// `--session-persist` as given: absent, bare, or with a directory.
    pub fn session_persist(&self) -> (r: Option<Option<String>>)
        ensures
            match r {
                Some(Some(p)) => self.persist_arg() == Some(Some(p@)),
                Some(None) => self.persist_arg() == Some(None::<Seq<char>>),
                None => self.persist_arg() is None,
            },
    {
        match &self.session_persist {
            Some(Some(p)) => Some(Some(p.clone())),
            Some(None) => Some(None),
            None => None,
        }
    }

    /// Whether `--no-session-persist` was given.
    pub fn no_session_persist(&self) -> (r: bool)
        ensures
            r == self.disabled(),
    {
        self.no_session_persist
    }

    /// The directory given to `--session-persist`, if any.
    pub fn path(&self) -> (r: Option<String>)
        ensures
            match self.persist_arg() {
                Some(Some(p)) => r is Some && r->0@ == p,
                _ => r is None,
            },
    {
        match &self.session_persist {
            Some(Some(p)) => Some(p.clone()),
            _ => None,
        }
    }
}

impl Default for SessionPersistCli {
    fn default() -> (r: Self)
        ensures
            r.persist_arg() is None,
            !r.disabled(),
    {
        SessionPersistCli { session_persist: None, no_session_persist: false }
    }
}

} // verus!
