use vstd::prelude::*;

use crate::text::{pieces, split_on, views};

verus! {

/// The view of an optional string.
pub open spec fn opt_view(o: Option<String>) -> Option<Seq<char>> {
    match o {
        Some(s) => Some(s@),
        None => None,
    }
}

/// The arguments of `ssh` for a session to `destination`: with a tmux
/// session name, ssh asks the remote tmux to attach to that session or to
/// create it, in UTF-8 mode. The words are split at each space, the name's
/// own included.
pub open spec fn session_args(destination: Seq<char>, tmux: Option<Seq<char>>) -> Seq<Seq<char>> {
    match tmux {
        Some(t) => seq![destination] + pieces("-t tmux -u new -As"@ + t, ' '),
        None => seq![destination],
    }
}

/// An interactive ssh session, as the arguments to run ssh with.
#[derive(Debug)]
pub struct SSH {
    args: Vec<String>,
}

impl View for SSH {
    type V = Seq<Seq<char>>;

    closed spec fn view(&self) -> Seq<Seq<char>> {
        views(self.args@)
    }
}

impl SSH {
    /// A session to `destination`, inside the remote tmux session `tmux`
    /// where one is named.
    pub fn new(destination: String, tmux: Option<String>) -> (r: Self)
        ensures
            r@ == session_args(destination@, opt_view(tmux)),
    {
        let ghost dest = destination@;
        let mut args: Vec<String> = Vec::new();
        args.push(destination);
        match tmux {
            Some(t) => {
                let mut command = String::from_str("-t tmux -u new -As");
                command.append(t.as_str());
                let mut words = split_on(command.as_str(), ' ');
                args.append(&mut words);
                proof {
                    assert(views(args@) =~= seq![dest] + pieces(command@, ' '));
                }
            },
            None => {
                proof {
                    assert(views(args@) =~= seq![dest]);
                }
            },
        }
        SSH { args }
    }

    /// The arguments to run ssh with.
    pub fn args(&self) -> (r: &Vec<String>)
        ensures
            views(r@) == self@,
    {
        &self.args
    }
}

/// The command line: a destination to connect to, or a source to sync the
/// config from.
#[derive(Debug)]
pub struct Args {
    pub destination: Option<String>,
    pub tmux: Option<String>,
    pub save: bool,
    pub sync: Option<String>,
    pub overwrite: bool,
}

/// What one run of the program does.
#[derive(Debug)]
pub enum Action {
    /// Sync the config from Tailscale, replacing existing entries or not.
    SyncTailscale { overwrite: bool },
    /// The sync source is not known: report it and change nothing.
    InvalidSource,
    /// Start this ssh session.
    Connect(SSH),
    /// Nothing was asked for.
    Nothing,
}

impl Args {
    /// The action that these arguments ask for. A sync source is handled
    /// first; `tailscale` is the only source known.
    pub fn action(self) -> (r: Action)
        ensures
            self.sync matches Some(s) && s@ == "tailscale"@ ==> r == (Action::SyncTailscale {
                overwrite: self.overwrite,
            }),
            self.sync matches Some(s) && s@ != "tailscale"@ ==> r is InvalidSource,
            self.sync is None && self.destination is None ==> r is Nothing,
            self.sync is None && self.destination is Some ==> (r matches Action::Connect(ssh)
                && ssh@ == session_args(self.destination->Some_0@, opt_view(self.tmux))),
    {
        match self.sync {
            Some(source) => {
                let known = String::from_str("tailscale");
                if source == known {
                    Action::SyncTailscale { overwrite: self.overwrite }
                } else {
                    Action::InvalidSource
                }
            },
            None => match self.destination {
                Some(destination) => Action::Connect(SSH::new(destination, self.tmux)),
                None => Action::Nothing,
            },
        }
    }
}

} // verus!
