use vstd::prelude::*;

use crate::text::{lemma_pieces_concat, lemma_pieces_single, pieces, split_on, views};

verus! {

/// What a host entry means: its name, address and login account.
pub struct HostView {
    pub hostname: Seq<char>,
    pub ip: Seq<char>,
    pub user: Seq<char>,
}

/// One `Host` block of an SSH client configuration.
#[derive(Debug, Clone)]
pub struct SSHHost {
    pub hostname: String,
    pub user: String,
    pub ip: String,
}

impl View for SSHHost {
    type V = HostView;

    open spec fn view(&self) -> HostView {
        HostView { hostname: self.hostname@, ip: self.ip@, user: self.user@ }
    }
}

/// The text of the block that describes `h` in the config file.
pub open spec fn host_block(h: HostView) -> Seq<char> {
    "\nHost "@ + h.hostname + "\n    HostName "@ + h.ip + "\n    User "@ + h.user
        + "\n    StrictHostKeyChecking no\n"@
}

/// What follows `prefix` in `line`, where `line` starts with it.
pub open spec fn after_prefix(line: Seq<char>, prefix: Seq<char>) -> Option<Seq<char>> {
    if prefix.len() <= line.len() && line.subrange(0, prefix.len() as int) == prefix {
        Some(line.subrange(prefix.len() as int, line.len() as int))
    } else {
        None
    }
}

/// The host that a block describes, where `s` is a block in the form that
/// `host_block` writes.
pub open spec fn parsed_block(s: Seq<char>) -> Option<HostView> {
    let l = pieces(s, '\n');
    if l.len() == 6 && l[0].len() == 0 && l[5].len() == 0 && l[4]
        == "    StrictHostKeyChecking no"@ && after_prefix(l[1], "Host "@) is Some && after_prefix(
        l[2],
        "    HostName "@,
    ) is Some && after_prefix(l[3], "    User "@) is Some {
        Some(
            HostView {
                hostname: after_prefix(l[1], "Host "@)->Some_0,
                ip: after_prefix(l[2], "    HostName "@)->Some_0,
                user: after_prefix(l[3], "    User "@)->Some_0,
            },
        )
    } else {
        None
    }
}

/// What follows `prefix` in `line`, where `line` starts with it.
fn strip_prefix(line: &String, prefix: &str) -> (r: Option<String>)
    ensures
        r is Some == after_prefix(line@, prefix@) is Some,
        r matches Some(rest) ==> rest@ == after_prefix(line@, prefix@)->Some_0,
{
    let n = line.as_str().unicode_len();
    let k = prefix.unicode_len();
    if k > n {
        return None;
    }
    let head = String::from_str(line.as_str().substring_char(0, k));
    let expected = String::from_str(prefix);
    if head == expected {
        Some(String::from_str(line.as_str().substring_char(k, n)))
    } else {
        None
    }
}

/// A block written from a host, whose fields hold no line break, reads back
/// as that same host.
pub proof fn lemma_block_round_trip(h: HostView)
    requires
        !h.hostname.contains('\n'),
        !h.ip.contains('\n'),
        !h.user.contains('\n'),
    ensures
        parsed_block(host_block(h)) == Some(h),
{
    let nl = seq!['\n'];
    let e = Seq::<char>::empty();
    let l1 = "Host "@ + h.hostname;
    let l2 = "    HostName "@ + h.ip;
    let l3 = "    User "@ + h.user;
    let l4 = "    StrictHostKeyChecking no"@;
    reveal_strlit("\nHost ");
    reveal_strlit("\n    HostName ");
    reveal_strlit("\n    User ");
    reveal_strlit("\n    StrictHostKeyChecking no\n");
    reveal_strlit("Host ");
    reveal_strlit("    HostName ");
    reveal_strlit("    User ");
    reveal_strlit("    StrictHostKeyChecking no");
    let s = host_block(h);
    assert(s =~= e + nl + (l1 + nl + (l2 + nl + (l3 + nl + (l4 + nl + e)))));
    assert forall|a: Seq<char>, b: Seq<char>|
        !a.contains('\n') && !b.contains('\n') implies !(#[trigger] (a + b)).contains('\n') by {
        if (a + b).contains('\n') {
            let i = choose|i: int| 0 <= i < (a + b).len() && (a + b)[i] == '\n';
            if i < a.len() {
                assert(a[i] == '\n');
            } else {
                assert(b[i - a.len()] == '\n');
            }
        }
    }
    assert(!"Host "@.contains('\n')) by {
        if "Host "@.contains('\n') {
            let i = choose|i: int| 0 <= i < "Host "@.len() && "Host "@[i] == '\n';
        }
    }
    assert(!"    HostName "@.contains('\n')) by {
        if "    HostName "@.contains('\n') {
            let i = choose|i: int| 0 <= i < "    HostName "@.len() && "    HostName "@[i] == '\n';
        }
    }
    assert(!"    User "@.contains('\n')) by {
        if "    User "@.contains('\n') {
            let i = choose|i: int| 0 <= i < "    User "@.len() && "    User "@[i] == '\n';
        }
    }
    assert(!l4.contains('\n')) by {
        if l4.contains('\n') {
            let i = choose|i: int| 0 <= i < l4.len() && l4[i] == '\n';
        }
    }
    assert(!e.contains('\n'));
    lemma_pieces_single(e, '\n');
    lemma_pieces_single(l1, '\n');
    lemma_pieces_single(l2, '\n');
    lemma_pieces_single(l3, '\n');
    lemma_pieces_single(l4, '\n');
    lemma_pieces_concat(l4, e, '\n');
    lemma_pieces_concat(l3, l4 + nl + e, '\n');
    lemma_pieces_concat(l2, l3 + nl + (l4 + nl + e), '\n');
    lemma_pieces_concat(l1, l2 + nl + (l3 + nl + (l4 + nl + e)), '\n');
    lemma_pieces_concat(e, l1 + nl + (l2 + nl + (l3 + nl + (l4 + nl + e))), '\n');
    let l = pieces(s, '\n');
    assert(l =~= seq![e, l1, l2, l3, l4, e]);
    assert(l1.subrange(0, 5) =~= "Host "@);
    assert(l1.subrange(5, l1.len() as int) =~= h.hostname);
    assert(l2.subrange(0, 13) =~= "    HostName "@);
    assert(l2.subrange(13, l2.len() as int) =~= h.ip);
    assert(l3.subrange(0, 9) =~= "    User "@);
    assert(l3.subrange(9, l3.len() as int) =~= h.user);
}

impl SSHHost {
    /// A host named `hostname` at address `ip` that logs in as `user`.
    pub fn new(hostname: String, ip: String, user: String) -> (r: Self)
        ensures
            r@ == (HostView { hostname: hostname@, ip: ip@, user: user@ }),
    {
        SSHHost { hostname, user, ip }
    }

    /// The block that describes this host in the config file.
    pub fn to_string(&self) -> (r: String)
        ensures
            r@ == host_block(self@),
    {
        let mut out = String::from_str("\nHost ");
        out.append(self.hostname.as_str());
        out.append("\n    HostName ");
        out.append(self.ip.as_str());
        out.append("\n    User ");
        out.append(self.user.as_str());
        out.append("\n    StrictHostKeyChecking no\n");
        out
    }

    /// The host that `block` describes, where it is a block in the form
    /// that `to_string` writes.
    pub fn parse(block: &str) -> (r: Option<Self>)
        ensures
            r is Some == parsed_block(block@) is Some,
            r matches Some(h) ==> h@ == parsed_block(block@)->Some_0,
    {
        let lines = split_on(block, '\n');
        if lines.len() != 6 {
            return None;
        }
        let ghost l = views(lines@);
        proof {
            assert(l[0] == lines@[0]@ && l[1] == lines@[1]@ && l[2] == lines@[2]@);
            assert(l[3] == lines@[3]@ && l[4] == lines@[4]@ && l[5] == lines@[5]@);
        }
        let empty = String::new();
        let hardening = String::from_str("    StrictHostKeyChecking no");
        if !(lines[0] == empty) || !(lines[5] == empty) || !(lines[4] == hardening) {
            proof {
                if l[0].len() == 0 {
                    assert(l[0] =~= empty@);
                }
                if l[5].len() == 0 {
                    assert(l[5] =~= empty@);
                }
            }
            return None;
        }
        proof {
            assert(l[0].len() == 0 && l[5].len() == 0);
        }
        let hostname = strip_prefix(&lines[1], "Host ");
        let ip = strip_prefix(&lines[2], "    HostName ");
        let user = strip_prefix(&lines[3], "    User ");
        match (hostname, ip, user) {
            (Some(hostname), Some(ip), Some(user)) => Some(SSHHost { hostname, user, ip }),
            _ => None,
        }
    }
}

} // verus!
