use vstd::prelude::*;

use crate::text::{copy_strings, pieces, split_on, views};

verus! {

/// Seconds that `timeout` waits after its TERM signal before it kills a probe.
pub const WAIT_KILL: u64 = 2;

/// Seconds that a probe may run before `timeout` sends it TERM.
pub const WAIT_TERM: u64 = 10;

/// Seconds that ssh waits for the connection of a probe.
pub const CONNECT_TIMEOUT: u64 = 5;

/// The decimal digit of `d`, for `d < 10`.
pub open spec fn digit(d: nat) -> char {
    seq!['0', '1', '2', '3', '4', '5', '6', '7', '8', '9'][d as int]
}

/// The decimal digits of `n`, without sign or leading zeros.
pub open spec fn decimal(n: nat) -> Seq<char>
    decreases n,
{
    if n < 10 {
        seq![digit(n)]
    } else {
        decimal(n / 10).push(digit(n % 10))
    }
}

/// Relies on std's `ToString` for `u64`, which writes the number in decimal
/// digits, without sign or leading zeros.
#[verifier::external_body]
fn decimal_string(n: u64) -> (r: String)
    ensures
        r@ == decimal(n as nat),
{
    n.to_string()
}

/// The candidate accounts and the time limits of the probes.
pub struct InferenceConfig {
    pub users: Vec<String>,
    pub wait_kill: u64,
    pub wait_term: u64,
    pub connect_timeout: u64,
}

impl InferenceConfig {
    /// The usual candidates, `ubuntu`, `debian` and `root`, with the usual
    /// time limits.
    pub fn standard() -> (r: Self)
        ensures
            r.users@.len() == 3,
            views(r.users@) == seq!["ubuntu"@, "debian"@, "root"@],
            r.wait_kill == WAIT_KILL,
            r.wait_term == WAIT_TERM,
            r.connect_timeout == CONNECT_TIMEOUT,
    {
        let mut users: Vec<String> = Vec::new();
        users.push(String::from_str("ubuntu"));
        users.push(String::from_str("debian"));
        users.push(String::from_str("root"));
        proof {
            assert(views(users@) =~= seq!["ubuntu"@, "debian"@, "root"@]);
        }
        InferenceConfig {
            users,
            wait_kill: WAIT_KILL,
            wait_term: WAIT_TERM,
            connect_timeout: CONNECT_TIMEOUT,
        }
    }
}

/// The arguments of `timeout` that probe whether `user` can log in to `ip`
/// without a prompt.
pub open spec fn probe_args_of(
    wait_kill: u64,
    wait_term: u64,
    connect_timeout: u64,
    user: Seq<char>,
    ip: Seq<char>,
) -> Seq<Seq<char>> {
    seq![
        "-k"@,
        decimal(wait_kill as nat),
        decimal(wait_term as nat),
        "ssh"@,
        "-o"@,
        "StrictHostKeyChecking=no"@,
        "-o"@,
        "ConnectTimeout="@ + decimal(connect_timeout as nat),
        "-o"@,
        "BatchMode=true"@,
        "-Cq"@,
    ] + pieces(user + "@"@ + ip, ' ') + seq!["exit"@]
}

/// Where an inference stands: the candidates, how many were probed, and
/// which one succeeded, if one did.
pub struct InferenceView {
    pub users: Seq<Seq<char>>,
    pub ip: Seq<char>,
    pub probed: nat,
    pub found: Option<nat>,
}

/// The inference before any probe.
pub open spec fn start(users: Seq<Seq<char>>, ip: Seq<char>) -> InferenceView {
    InferenceView { users, ip, probed: 0, found: None }
}

/// No probe is left to make: one succeeded or every candidate failed.
pub open spec fn finished(v: InferenceView) -> bool {
    v.found is Some || v.probed >= v.users.len()
}

/// The inference after the next probe gave `succeeded`.
pub open spec fn stepped(v: InferenceView, succeeded: bool) -> InferenceView {
    InferenceView {
        probed: v.probed + 1,
        found: if succeeded {
            Some(v.probed)
        } else {
            None
        },
        ..v
    }
}

/// The account decided: the candidate that succeeded, else the last one.
pub open spec fn chosen(v: InferenceView) -> Seq<char> {
    match v.found {
        Some(i) => v.users[i as int],
        None => v.users.last(),
    }
}

/// The inference once probes have run to the end, where probing candidate
/// `i` gives `outcomes[i]`.
pub open spec fn run(v: InferenceView, outcomes: Seq<bool>) -> InferenceView
    decreases v.users.len() - v.probed,
{
    if finished(v) {
        v
    } else {
        run(stepped(v, outcomes[v.probed as int]), outcomes)
    }
}

proof fn lemma_run_all_fail(users: Seq<Seq<char>>, ip: Seq<char>, outcomes: Seq<bool>, p: nat)
    requires
        p <= users.len(),
        forall|i: int| 0 <= i < users.len() ==> !#[trigger] outcomes[i],
    ensures
        run(InferenceView { users, ip, probed: p, found: None }, outcomes) == (InferenceView {
            users,
            ip,
            probed: users.len(),
            found: None,
        }),
    decreases users.len() - p,
{
    if p < users.len() {
        lemma_run_all_fail(users, ip, outcomes, p + 1);
    }
}

proof fn lemma_run_first_success(
    users: Seq<Seq<char>>,
    ip: Seq<char>,
    outcomes: Seq<bool>,
    k: nat,
    p: nat,
)
    requires
        p <= k < users.len(),
        k < outcomes.len(),
        outcomes[k as int],
        forall|i: int| 0 <= i < k ==> !#[trigger] outcomes[i],
    ensures
        run(InferenceView { users, ip, probed: p, found: None }, outcomes) == (InferenceView {
            users,
            ip,
            probed: k + 1,
            found: Some(k),
        }),
    decreases k - p,
{
    if p < k {
        lemma_run_first_success(users, ip, outcomes, k, p + 1);
    } else {
        let next = stepped(InferenceView { users, ip, probed: p, found: None }, outcomes[p as int]);
        assert(finished(next));
        assert(run(next, outcomes) == next);
    }
}

/// When every probe fails, every candidate is probed once and the account
/// decided is the last candidate.
pub proof fn lemma_all_probes_fail(users: Seq<Seq<char>>, ip: Seq<char>, outcomes: Seq<bool>)
    requires
        users.len() > 0,
        outcomes.len() == users.len(),
        forall|i: int| 0 <= i < outcomes.len() ==> !#[trigger] outcomes[i],
    ensures
        chosen(run(start(users, ip), outcomes)) == users.last(),
        run(start(users, ip), outcomes).probed == users.len(),
{
    lemma_run_all_fail(users, ip, outcomes, 0);
}

/// When only the probe of candidate `k` succeeds, the candidates up to `k`
/// are probed, `k + 1` probes in all and none after it, and the account
/// decided is candidate `k`.
pub proof fn lemma_only_one_probe_succeeds(
    users: Seq<Seq<char>>,
    ip: Seq<char>,
    outcomes: Seq<bool>,
    k: nat,
)
    requires
        k < users.len(),
        outcomes.len() == users.len(),
        outcomes[k as int],
        forall|i: int| 0 <= i < outcomes.len() && i != k ==> !#[trigger] outcomes[i],
    ensures
        chosen(run(start(users, ip), outcomes)) == users[k as int],
        run(start(users, ip), outcomes).probed == k + 1,
{
    assert forall|i: int| 0 <= i < k implies !#[trigger] outcomes[i] by {
        assert(i != k);
    }
    lemma_run_first_success(users, ip, outcomes, k, 0);
}

/// Decides the login account of one host by probing candidates in order,
/// stopping at the first that succeeds.
pub struct UserInference {
    users: Vec<String>,
    ip: String,
    wait_kill: u64,
    wait_term: u64,
    connect_timeout: u64,
    probed: usize,
    found: Option<usize>,
}

impl View for UserInference {
    type V = InferenceView;

    closed spec fn view(&self) -> InferenceView {
        InferenceView {
            users: views(self.users@),
            ip: self.ip@,
            probed: self.probed as nat,
            found: match self.found {
                Some(i) => Some(i as nat),
                None => None,
            },
        }
    }
}

impl UserInference {
    pub closed spec fn limits(&self) -> (u64, u64, u64) {
        (self.wait_kill, self.wait_term, self.connect_timeout)
    }

    pub open spec fn wf(&self) -> bool {
        &&& self@.users.len() > 0
        &&& self@.probed <= self@.users.len()
        &&& self@.found matches Some(i) ==> i + 1 == self@.probed
    }

    /// An inference for the host at `ip` over the candidates of `config`.
    pub fn new(config: &InferenceConfig, ip: String) -> (r: Self)
        requires
            config.users@.len() > 0,
        ensures
            r@ == start(views(config.users@), ip@),
            r.limits() == (config.wait_kill, config.wait_term, config.connect_timeout),
            r.wf(),
    {
        let users = copy_strings(&config.users);
        UserInference {
            users,
            ip,
            wait_kill: config.wait_kill,
            wait_term: config.wait_term,
            connect_timeout: config.connect_timeout,
            probed: 0,
            found: None,
        }
    }

    /// Whether no probe is left to make.
    pub fn is_finished(&self) -> (r: bool)
        requires
            self.wf(),
        ensures
            r == finished(self@),
    {
        self.found.is_some() || self.probed >= self.users.len()
    }

    /// The arguments of `timeout` for the next probe, or `None` when no probe
    /// is left to make.
    pub fn next_probe(&self) -> (r: Option<Vec<String>>)
        requires
            self.wf(),
        ensures
            r is None == finished(self@),
            r matches Some(a) ==> views(a@) == probe_args_of(
                self.limits().0,
                self.limits().1,
                self.limits().2,
                self@.users[self@.probed as int],
                self@.ip,
            ),
    {
        if self.is_finished() {
            return None;
        }
        let user = &self.users[self.probed];
        let mut args: Vec<String> = Vec::new();
        args.push(String::from_str("-k"));
        args.push(decimal_string(self.wait_kill));
        args.push(decimal_string(self.wait_term));
        args.push(String::from_str("ssh"));
        args.push(String::from_str("-o"));
        args.push(String::from_str("StrictHostKeyChecking=no"));
        args.push(String::from_str("-o"));
        let mut connect = String::from_str("ConnectTimeout=");
        let seconds = decimal_string(self.connect_timeout);
        connect.append(seconds.as_str());
        args.push(connect);
        args.push(String::from_str("-o"));
        args.push(String::from_str("BatchMode=true"));
        args.push(String::from_str("-Cq"));
        let mut target = user.clone();
        target.append("@");
        target.append(self.ip.as_str());
        let ghost fixed = args@;
        let mut tokens = split_on(target.as_str(), ' ');
        args.append(&mut tokens);
        let ghost joined = args@;
        args.push(String::from_str("exit"));
        proof {
            assert(views(joined) =~= views(fixed) + pieces(target@, ' '));
            assert(views(args@) =~= views(joined).push("exit"@));
            assert(views(args@) =~= probe_args_of(
                self.limits().0,
                self.limits().1,
                self.limits().2,
                self@.users[self@.probed as int],
                self@.ip,
            ));
        }
        Some(args)
    }

    /// Records the outcome of the probe that `next_probe` gave.
    pub fn record(&mut self, succeeded: bool)
        requires
            old(self).wf(),
            !finished(old(self)@),
        ensures
            final(self)@ == stepped(old(self)@, succeeded),
            final(self).limits() == old(self).limits(),
            final(self).wf(),
    {
        let n = self.users.len();
        proof {
            assert(n == views(self.users@).len());
        }
        if succeeded {
            self.found = Some(self.probed);
        }
        self.probed = self.probed + 1;
    }

    /// How many probes were made.
    pub fn probes(&self) -> (r: usize)
        ensures
            r == self@.probed,
    {
        self.probed
    }

    /// The account decided once no probe is left: the first candidate whose
    /// probe succeeded, or the last candidate when none did.
    pub fn account(&self) -> (r: String)
        requires
            self.wf(),
            finished(self@),
        ensures
            r@ == chosen(self@),
    {
        match self.found {
            Some(i) => self.users[i].clone(),
            None => self.users[self.users.len() - 1].clone(),
        }
    }
}

} // verus!
