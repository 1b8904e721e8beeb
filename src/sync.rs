use vstd::prelude::*;

use crate::config::{added_all, skipped_all, SSHConfig};
use crate::host::{HostView, SSHHost};
use crate::peers::{peer_views, PeerView, Tailscale, TailscalePeer};
use crate::text::views;

verus! {

/// Why a sync stopped before it changed the config.
#[derive(Debug)]
pub enum SyncError {
    /// A server peer, named here, was listed without an address.
    MissingAddress(String),
}

/// The host entries for `peers`, each at its first address and logging in
/// as the account at the same position of `accounts`.
pub open spec fn resolved(peers: Seq<PeerView>, accounts: Seq<Seq<char>>) -> Seq<HostView> {
    Seq::new(
        peers.len(),
        |i: int| HostView { hostname: peers[i].hostname, ip: peers[i].ips[0], user: accounts[i] },
    )
}

/// Every peer lists at least one address.
pub open spec fn all_addressed(peers: Seq<PeerView>) -> bool {
    forall|i: int| 0 <= i < peers.len() ==> #[trigger] peers[i].ips.len() > 0
}

/// The position of the first peer that lists no address, if one does.
fn first_unaddressed(peers: &Vec<TailscalePeer>) -> (r: Option<usize>)
    ensures
        r is None == all_addressed(peer_views(peers@)),
        r matches Some(k) ==> k < peers@.len() && peers@[k as int]@.ips.len() == 0,
{
    let ghost pv = peer_views(peers@);
    let mut k: usize = 0;
    while k < peers.len()
        invariant
            k <= peers@.len(),
            pv == peer_views(peers@),
            forall|j: int| 0 <= j < k ==> #[trigger] pv[j].ips.len() > 0,
        decreases peers.len() - k,
    {
        proof {
            assert(pv[k as int] == peers@[k as int]@);
        }
        if peers[k].ips.len() == 0 {
            proof {
                assert(pv[k as int].ips.len() == 0);
            }
            return Some(k);
        }
        k = k + 1;
    }
    None
}

/// Merges the server peers of a directory into a config.
#[derive(Debug)]
pub struct Sync {
    overwrite: bool,
}

impl Sync {
    /// Whether entries already in the config are replaced.
    pub closed spec fn overwrites(&self) -> bool {
        self.overwrite
    }

    /// A sync that replaces existing entries exactly when `overwrite` is set.
    pub fn new(overwrite: bool) -> (r: Self)
        ensures
            r.overwrites() == overwrite,
    {
        Sync { overwrite }
    }

    /// Adds a host for each server peer of `tailscale`, in order, at the
    /// peer's first address and with the account at the same position of
    /// `accounts`, and returns the names of the hosts skipped because they
    /// were there already. Where a peer has no address, nothing is added.
    pub fn tailscale(
        &self,
        config: &mut SSHConfig,
        tailscale: &Tailscale,
        accounts: &Vec<String>,
    ) -> (r: Result<Vec<String>, SyncError>)
        requires
            old(config).wf(),
            accounts@.len() == tailscale.peers@.len(),
        ensures
            final(config).wf(),
            final(config).path() == old(config).path(),
            r is Ok == all_addressed(peer_views(tailscale.peers@)),
            r is Ok ==> final(config)@ == added_all(
                old(config)@,
                resolved(peer_views(tailscale.peers@), views(accounts@)),
                self.overwrites(),
            ),
            r matches Ok(names) ==> views(names@) == skipped_all(
                old(config)@,
                resolved(peer_views(tailscale.peers@), views(accounts@)),
                self.overwrites(),
            ),
            r is Err ==> final(config)@ == old(config)@,
            r matches Err(SyncError::MissingAddress(name)) ==> exists|i: int|
                0 <= i < tailscale.peers@.len() && #[trigger] tailscale.peers@[i]@.ips.len() == 0
                    && name@ == tailscale.peers@[i]@.hostname,
    {
        let peers = &tailscale.peers;
        let ghost pv = peer_views(peers@);
        if let Some(k) = first_unaddressed(peers) {
            return Err(SyncError::MissingAddress(peers[k].hostname.clone()));
        }
        let ghost hosts = resolved(pv, views(accounts@));
        let ghost start = config@;
        let mut skipped: Vec<String> = Vec::new();
        let mut i: usize = 0;
        while i < peers.len()
            invariant
                views(skipped@) == skipped_all(start, hosts.subrange(0, i as int), self.overwrites()),
                i <= peers@.len(),
                accounts@.len() == peers@.len(),
                pv == peer_views(peers@),
                hosts == resolved(pv, views(accounts@)),
                all_addressed(pv),
                config.wf(),
                config.path() == old(config).path(),
                config@ == added_all(start, hosts.subrange(0, i as int), self.overwrites()),
            decreases peers.len() - i,
        {
            let peer = &peers[i];
            proof {
                assert(pv[i as int].ips.len() > 0);
            }
            let host = SSHHost::new(peer.hostname.clone(), peer.ips[0].clone(), accounts[i].clone());
            proof {
                assert(host@ == hosts[i as int]);
                assert(hosts.subrange(0, i + 1).drop_last() =~= hosts.subrange(0, i as int));
            }
            let ghost name = host@.hostname;
            let ghost before = skipped@;
            let name_copy = host.hostname.clone();
            let stored = config.add(host, self.overwrite);
            if !stored {
                skipped.push(name_copy);
            }
            proof {
                if !stored {
                    assert(views(skipped@) =~= views(before).push(name));
                } else {
                    assert(views(skipped@) =~= views(before));
                }
            }
            i = i + 1;
        }
        proof {
            assert(hosts.subrange(0, i as int) =~= hosts);
        }
        Ok(skipped)
    }
}

} // verus!
