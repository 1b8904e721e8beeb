use vstd::prelude::*;

use crate::text::{copy_strings, views};

verus! {

/// The tag that marks a peer as a server whose host entry is kept in sync.
pub open spec fn server_tag() -> Seq<char> {
    "tag:server"@
}

/// What a peer of the directory means: its name, its addresses (the first
/// one is the one used) and its tags, where it has any.
pub struct PeerView {
    pub hostname: Seq<char>,
    pub ips: Seq<Seq<char>>,
    pub tags: Option<Seq<Seq<char>>>,
}

/// The peer is tagged as a server.
pub open spec fn is_server(p: PeerView) -> bool {
    p.tags matches Some(t) && t.contains(server_tag())
}

/// One peer of the Tailscale directory.
#[derive(Debug)]
pub struct TailscalePeer {
    pub hostname: String,
    pub ips: Vec<String>,
    pub tags: Option<Vec<String>>,
}

impl View for TailscalePeer {
    type V = PeerView;

    open spec fn view(&self) -> PeerView {
        PeerView {
            hostname: self.hostname@,
            ips: views(self.ips@),
            tags: match self.tags {
                Some(t) => Some(views(t@)),
                None => None,
            },
        }
    }
}

/// The views of a sequence of peers.
pub open spec fn peer_views(v: Seq<TailscalePeer>) -> Seq<PeerView> {
    v.map_values(|p: TailscalePeer| p@)
}

impl TailscalePeer {
    /// A copy of this peer.
    pub fn duplicate(&self) -> (r: Self)
        ensures
            r@ == self@,
    {
        let tags = match &self.tags {
            Some(t) => Some(copy_strings(t)),
            None => None,
        };
        TailscalePeer { hostname: self.hostname.clone(), ips: copy_strings(&self.ips), tags }
    }

    /// Whether this peer is tagged as a server.
    pub fn is_server(&self) -> (r: bool)
        ensures
            r == is_server(self@),
    {
        match &self.tags {
            None => false,
            Some(t) => {
                let marker = String::from_str("tag:server");
                let mut i: usize = 0;
                while i < t.len()
                    invariant
                        i <= t@.len(),
                        self@.tags == Some(views(t@)),
                        marker@ == server_tag(),
                        forall|j: int| 0 <= j < i ==> views(t@)[j] != server_tag(),
                    decreases t.len() - i,
                {
                    if t[i] == marker {
                        proof {
                            assert(self@.tags == Some(views(t@)));
                            assert(views(t@)[i as int] == server_tag());
                            assert(views(t@).contains(server_tag()));
                        }
                        return true;
                    }
                    i = i + 1;
                }
                proof {
                    assert(!views(t@).contains(server_tag()));
                }
                false
            },
        }
    }

    /// The address to connect to: the first one listed, if any.
    pub fn address(&self) -> (r: Option<&String>)
        ensures
            r is None == (self@.ips.len() == 0),
            r matches Some(a) ==> a@ == self@.ips[0],
    {
        if self.ips.len() == 0 {
            None
        } else {
            Some(&self.ips[0])
        }
    }
}

/// The server peers of the Tailscale directory.
#[derive(Debug)]
pub struct Tailscale {
    pub peers: Vec<TailscalePeer>,
}

impl Tailscale {
    /// Keeps, of the peers of the directory, those tagged as servers, in
    /// their order.
    pub fn new(peers: Vec<TailscalePeer>) -> (r: Self)
        ensures
            peer_views(r.peers@) == peer_views(peers@).filter(|p: PeerView| is_server(p)),
    {
        let mut kept: Vec<TailscalePeer> = Vec::new();
        let mut i: usize = 0;
        while i < peers.len()
            invariant
                i <= peers@.len(),
                peer_views(kept@) == peer_views(peers@).subrange(0, i as int).filter(
                    |p: PeerView| is_server(p),
                ),
            decreases peers.len() - i,
        {
            let ghost before = kept@;
            let ghost all = peer_views(peers@);
            proof {
                reveal(Seq::filter);
                assert(all.subrange(0, i + 1).drop_last() =~= all.subrange(0, i as int));
                assert(all.subrange(0, i + 1).last() == peers@[i as int]@);
            }
            if peers[i].is_server() {
                let p = peers[i].duplicate();
                kept.push(p);
                proof {
                    assert(peer_views(kept@) =~= peer_views(before).push(p@));
                }
            }
            i = i + 1;
        }
        proof {
            assert(peer_views(peers@).subrange(0, i as int) =~= peer_views(peers@));
        }
        Tailscale { peers: kept }
    }
}

/// The server peers that the directory yields hold exactly the peers of the
/// directory that are tagged as servers: none without the tag, and none that
/// the directory does not hold.
pub proof fn lemma_servers_only(all: Seq<PeerView>, kept: Seq<PeerView>)
    requires
        kept == all.filter(|p: PeerView| is_server(p)),
    ensures
        forall|p: PeerView| kept.contains(p) ==> is_server(p) && all.contains(p),
        forall|p: PeerView| all.contains(p) && is_server(p) ==> kept.contains(p),
{
    let f = |p: PeerView| is_server(p);
    assert forall|p: PeerView| kept.contains(p) implies is_server(p) && all.contains(p) by {
        let i = choose|i: int| 0 <= i < kept.len() && kept[i] == p;
        all.lemma_filter_pred(f, i);
        all.lemma_filter_contains_rev(f, p);
    }
    assert forall|p: PeerView| all.contains(p) && is_server(p) implies kept.contains(p) by {
        let i = choose|i: int| 0 <= i < all.len() && all[i] == p;
        all.lemma_filter_contains(f, i);
    }
}

} // verus!
