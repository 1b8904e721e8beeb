use vstd::prelude::*;

use crate::host::{host_block, HostView, SSHHost};
use crate::text::views;

verus! {

/// No two entries of `s` share a name.
pub open spec fn names_unique(s: Seq<HostView>) -> bool {
    forall|i: int, j: int|
        0 <= i < s.len() && 0 <= j < s.len() && i != j ==> #[trigger] s[i].hostname
            != #[trigger] s[j].hostname
}

/// Some entry of `s` is named `name`.
pub open spec fn has_name(s: Seq<HostView>, name: Seq<char>) -> bool {
    exists|i: int| 0 <= i < s.len() && #[trigger] s[i].hostname == name
}

/// The position of the entry named `name` in `s`, if there is one.
pub open spec fn position(s: Seq<HostView>, name: Seq<char>) -> int {
    choose|i: int| 0 <= i < s.len() && #[trigger] s[i].hostname == name
}

/// The entry of `s` named `name`, if there is one.
pub open spec fn lookup(s: Seq<HostView>, name: Seq<char>) -> Option<HostView> {
    if has_name(s, name) {
        Some(s[position(s, name)])
    } else {
        None
    }
}

/// The entries after `h` is added: an entry of the same name is kept when
/// `overwrite` is false and replaced in place when it is true; a new name is
/// appended.
pub open spec fn added(s: Seq<HostView>, h: HostView, overwrite: bool) -> Seq<HostView> {
    if has_name(s, h.hostname) {
        if overwrite {
            s.update(position(s, h.hostname), h)
        } else {
            s
        }
    } else {
        s.push(h)
    }
}

/// The entries after each host of `hs` is added in turn.
pub open spec fn added_all(s: Seq<HostView>, hs: Seq<HostView>, overwrite: bool) -> Seq<
    HostView,
>
    decreases hs.len(),
{
    if hs.len() == 0 {
        s
    } else {
        added(added_all(s, hs.drop_last(), overwrite), hs.last(), overwrite)
    }
}

/// The names of the hosts of `hs` that adding them in turn skips, because
/// the name was there already and `overwrite` is false.
pub open spec fn skipped_all(s: Seq<HostView>, hs: Seq<HostView>, overwrite: bool) -> Seq<
    Seq<char>,
>
    decreases hs.len(),
{
    if hs.len() == 0 {
        Seq::empty()
    } else {
        let before = skipped_all(s, hs.drop_last(), overwrite);
        if !overwrite && has_name(added_all(s, hs.drop_last(), overwrite), hs.last().hostname) {
            before.push(hs.last().hostname)
        } else {
            before
        }
    }
}

/// Adding a host without overwrite, under a name that is there already,
/// leaves the entry of that name as it was.
pub proof fn lemma_add_keeps_existing(s: Seq<HostView>, h: HostView)
    requires
        names_unique(s),
        has_name(s, h.hostname),
    ensures
        lookup(added(s, h, false), h.hostname) == lookup(s, h.hostname),
        added(s, h, false) == s,
{
}

/// Adding a host with overwrite, under a name that is there already,
/// makes that host the entry of that name.
pub proof fn lemma_add_overwrite_replaces(s: Seq<HostView>, h: HostView)
    requires
        names_unique(s),
        has_name(s, h.hostname),
    ensures
        lookup(added(s, h, true), h.hostname) == Some(h),
        added(s, h, true).len() == s.len(),
{
    let p = position(s, h.hostname);
    let t = added(s, h, true);
    assert(t[p].hostname == h.hostname);
    assert(has_name(t, h.hostname));
    let q = position(t, h.hostname);
    if q != p {
        assert(t[q] == s[q]);
        assert(s[q].hostname != s[p].hostname);
    }
}

/// The host entries of an SSH client config file, each name at most once,
/// in the order in which they were added.
#[derive(Debug)]
pub struct SSHConfig {
    filename: String,
    hosts: Vec<SSHHost>,
}

impl View for SSHConfig {
    type V = Seq<HostView>;

    closed spec fn view(&self) -> Seq<HostView> {
        self.hosts@.map_values(|h: SSHHost| h@)
    }
}

impl SSHConfig {
    /// The path of the config file.
    pub closed spec fn path(&self) -> Seq<char> {
        self.filename@
    }

    pub open spec fn wf(&self) -> bool {
        names_unique(self@)
    }

    /// An empty config for the file at `filename`; the file's own entries are
    /// not read, so entries added later are appended after them on save.
    pub fn load(filename: String) -> (r: Self)
        ensures
            r@ == Seq::<HostView>::empty(),
            r.path() == filename@,
            r.wf(),
    {
        let r = SSHConfig { filename, hosts: Vec::new() };
        proof {
            assert(r@ =~= Seq::<HostView>::empty());
        }
        r
    }

    /// The path of the config file.
    pub fn filename(&self) -> (r: &String)
        ensures
            r@ == self.path(),
    {
        &self.filename
    }

    /// The position of the host named `name`, if there is one.
    fn find(&self, name: &String) -> (r: Option<usize>)
        requires
            self.wf(),
        ensures
            r.is_some() == has_name(self@, name@),
            r matches Some(i) ==> i < self@.len() && i == position(self@, name@),
    {
        let mut i: usize = 0;
        while i < self.hosts.len()
            invariant
                i <= self.hosts@.len(),
                self@.len() == self.hosts@.len(),
                forall|j: int| 0 <= j < self.hosts@.len() ==> #[trigger] self@[j] == self.hosts@[j]@,
                forall|j: int| 0 <= j < i ==> self@[j].hostname != name@,
                self.wf(),
            decreases self.hosts.len() - i,
        {
            if self.hosts[i].hostname == *name {
                proof {
                    assert(self@[i as int].hostname == name@);
                    let p = position(self@, name@);
                    assert(has_name(self@, name@));
                    assert(self@[p].hostname == name@);
                    if p != i as int {
                        assert(self@[p].hostname != self@[i as int].hostname);
                    }
                }
                return Some(i);
            }
            i = i + 1;
        }
        None
    }

    /// Adds `host`. Where an entry of the same name is there already, it is
    /// kept unless `overwrite` is set, in which case `host` replaces it.
    /// Returns whether `host` was stored.
    pub fn add(&mut self, host: SSHHost, overwrite: bool) -> (r: bool)
        requires
            old(self).wf(),
        ensures
            r == !(has_name(old(self)@, host@.hostname) && !overwrite),
            final(self)@ == added(old(self)@, host@, overwrite),
            final(self).path() == old(self).path(),
            final(self).wf(),
    {
        match self.find(&host.hostname) {
            Some(i) => {
                if overwrite {
                    self.hosts.set(i, host);
                    proof {
                        assert(self@ =~= added(old(self)@, host@, overwrite));
                    }
                    true
                } else {
                    false
                }
            },
            None => {
                self.hosts.push(host);
                proof {
                    assert(self@ =~= old(self)@.push(host@));
                }
                true
            },
        }
    }

    /// The names of the hosts, in the order in which they were added.
    pub fn list(&self) -> (r: Vec<String>)
        ensures
            views(r@) == self@.map_values(|h: HostView| h.hostname),
    {
        let mut out: Vec<String> = Vec::new();
        let mut i: usize = 0;
        while i < self.hosts.len()
            invariant
                i <= self.hosts@.len(),
                self@.len() == self.hosts@.len(),
                forall|j: int| 0 <= j < self.hosts@.len() ==> #[trigger] self@[j] == self.hosts@[j]@,
                views(out@) == self@.subrange(0, i as int).map_values(|h: HostView| h.hostname),
            decreases self.hosts.len() - i,
        {
            let ghost before = out@;
            let x = self.hosts[i].hostname.clone();
            out.push(x);
            proof {
                assert(views(out@) =~= views(before).push(x@));
                assert(self@.subrange(0, i + 1) =~= self@.subrange(0, i as int).push(self@[i as int]));
            }
            i = i + 1;
            proof {
                assert(views(out@) =~= self@.subrange(0, i as int).map_values(
                    |h: HostView| h.hostname,
                ));
            }
        }
        proof {
            assert(self@.subrange(0, i as int) =~= self@);
        }
        out
    }

    /// The entry named `name`, if there is one.
    pub fn get(&self, name: &String) -> (r: Option<&SSHHost>)
        requires
            self.wf(),
        ensures
            r matches Some(h) ==> lookup(self@, name@) == Some(h@),
            r is None ==> lookup(self@, name@) is None,
    {
        match self.find(name) {
            Some(i) => Some(&self.hosts[i]),
            None => None,
        }
    }

    /// The blocks that saving writes to the file, one per host, in order.
    pub fn blocks(&self) -> (r: Vec<String>)
        ensures
            views(r@) == self@.map_values(|h: HostView| host_block(h)),
    {
        let mut out: Vec<String> = Vec::new();
        let mut i: usize = 0;
        while i < self.hosts.len()
            invariant
                i <= self.hosts@.len(),
                self@.len() == self.hosts@.len(),
                forall|j: int| 0 <= j < self.hosts@.len() ==> #[trigger] self@[j] == self.hosts@[j]@,
                views(out@) == self@.subrange(0, i as int).map_values(|h: HostView| host_block(h)),
            decreases self.hosts.len() - i,
        {
            let ghost before = out@;
            let x = self.hosts[i].to_string();
            out.push(x);
            proof {
                assert(views(out@) =~= views(before).push(x@));
                assert(self@.subrange(0, i + 1) =~= self@.subrange(0, i as int).push(self@[i as int]));
            }
            i = i + 1;
            proof {
                assert(views(out@) =~= self@.subrange(0, i as int).map_values(
                    |h: HostView| host_block(h),
                ));
            }
        }
        proof {
            assert(self@.subrange(0, i as int) =~= self@);
        }
        out
    }
}

} // verus!
