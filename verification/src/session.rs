//! Session state: identity, privilege flag, reference secret, current
//! working directory, and the append-only history log.
use vstd::prelude::*;

use crate::outcome::{ShellError, STATUS_OK};

verus! {

/// Mathematical model of a session.
pub ghost struct SessV {
    pub username: Seq<char>,
    pub root: bool,
    pub secret: Seq<char>,
    pub cwd: Seq<char>,
    pub history: Seq<Seq<char>>,
}

/// The state one interactive session owns: who is logged in, whether the
/// session is elevated, the secret that elevation is checked against, the
/// current working directory, and every raw line entered so far.
pub struct SessionContext {
    pub username: String,
    pub root: bool,
    pub secret: String,
    pub cwd: String,
    pub history: Vec<String>,
}

impl View for SessionContext {
    type V = SessV;

    open spec fn view(&self) -> SessV {
        SessV {
            username: self.username@,
            root: self.root,
            secret: self.secret@,
            cwd: self.cwd@,
            history: self.history.deep_view(),
        }
    }
}

impl SessionContext {
    /// A fresh, unelevated session for `username`, with `secret` as the
    /// reference secret and `cwd` as the starting directory.
    pub fn new(username: String, secret: String, cwd: String) -> (s: Self)
        ensures
            s@.username == username@,
            s@.root == false,
            s@.secret == secret@,
            s@.cwd == cwd@,
            s@.history == Seq::<Seq<char>>::empty(),
    {
        let s = SessionContext { username, root: false, secret, cwd, history: Vec::new() };
        proof {
            assert(s@.history =~= Seq::<Seq<char>>::empty());
        }
        s
    }

    /// The identity the session reports: the real username, owned.
    pub fn get_username(&self) -> (r: String)
        ensures
            r@ == self@.username,
    {
        let mut r = String::new();
        r.append(self.username.as_str());
        r
    }

    /// Attempt the `normal -> elevated` transition. The supplied secret is
    /// validated against the session's reference secret; a match sets the
    /// privilege flag, a mismatch changes nothing and reports the failure
    /// so the caller may prompt again.
    pub fn toggle_root(&mut self, supplied: String) -> (r: Result<(usize, String), ShellError>)
        ensures
            supplied@ == old(self)@.secret ==> {
                &&& final(self)@ == (SessV { root: true, ..old(self)@ })
                &&& r is Ok
                &&& r->Ok_0.0 == STATUS_OK
                &&& r->Ok_0.1@ == "Sucessfully to change root"@
            },
            supplied@ != old(self)@.secret ==> {
                &&& final(self)@ == old(self)@
                &&& r == Result::<(usize, String), ShellError>::Err(ShellError::ElevationFailure)
            },
    {
        if supplied == self.secret {
            self.root = true;
            let mut t = String::new();
            t.append("Sucessfully to change root");
            Ok((STATUS_OK, t))
        } else {
            Err(ShellError::ElevationFailure)
        }
    }
}

/// Append one raw command line to the session's history log. The log is
/// append-only: every existing entry keeps its index and value.
pub fn history_push(session: &mut SessionContext, command: String)
    ensures
        final(session)@ == (SessV { history: old(session)@.history.push(command@), ..old(session)@ }),
{
    let ghost cv = command@;
    session.history.push(command);
    proof {
        assert(session.history.deep_view() =~= old(session).history.deep_view().push(cv));
    }
}

} // verus!
