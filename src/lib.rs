//! Maintains an SSH client configuration: builds the arguments of
//! interactive sessions, decides which login account a host accepts, and
//! merges host entries from a Tailscale peer directory into the config.
mod config;
mod host;
mod inference;
mod peers;
mod session;
mod sync;
mod text;

pub use config::{
    added, added_all, has_name, lemma_add_keeps_existing, lemma_add_overwrite_replaces, lookup,
    names_unique, position, skipped_all, SSHConfig,
};
pub use host::{
    after_prefix, host_block, lemma_block_round_trip, parsed_block, HostView, SSHHost,
};
pub use inference::{
    chosen, decimal, digit, finished, lemma_all_probes_fail, lemma_only_one_probe_succeeds,
    probe_args_of, run, start, stepped, InferenceConfig, InferenceView, UserInference,
    CONNECT_TIMEOUT, WAIT_KILL, WAIT_TERM,
};
pub use peers::{
    is_server, lemma_servers_only, peer_views, server_tag, PeerView, Tailscale, TailscalePeer,
};
pub use session::{opt_view, session_args, Action, Args, SSH};
pub use sync::{all_addressed, resolved, Sync, SyncError};
pub use text::{lemma_pieces_concat, lemma_pieces_single, pieces, split_on, views};
