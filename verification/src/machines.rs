// The machines registry: a machine's short name (as Nix priority lists
// use it, e.g. "island") to its network address (its Tailscale host or
// IP). Failover for a multi-machine service tries the machines of a
// priority list in order and takes the first that answers its health
// check; this module says which URLs are tried, in which order.
use vstd::prelude::*;

use crate::text::{decimal, decimal_string, owned, push_all, same_text};

verus! {

/// Machine name → address; each name at most once (`wf`).
#[derive(Debug, Clone)]
pub struct MachineRegistry {
    pub machines: Vec<(String, String)>,
}

/// No machine name occurs twice.
pub open spec fn names_distinct(machines: Seq<(String, String)>) -> bool {
    forall|i: int, j: int| 0 <= i < j < machines.len() ==> #[trigger] machines[i].0@ != #[trigger] machines[j].0@
}

/// The address the last pair named `name` gives, if any.
pub open spec fn last_address(pairs: Seq<(String, String)>, name: Seq<char>) -> Option<String>
    decreases pairs.len(),
{
    if pairs.len() == 0 {
        None
    } else {
        match last_address(pairs.drop_first(), name) {
            Some(a) => Some(a),
            None => if pairs[0].0@ == name {
                Some(pairs[0].1)
            } else {
                None
            },
        }
    }
}

proof fn lemma_address_of_push(s: Seq<(String, String)>, p: (String, String), name: Seq<char>)
    ensures
        address_of(s.push(p), name) == match address_of(s, name) {
            Some(a) => Some(a),
            None => if p.0@ == name {
                Some(p.1)
            } else {
                None
            },
        },
    decreases s.len(),
{
    if s.len() > 0 {
        assert(s.push(p).drop_first() =~= s.drop_first().push(p));
        let t = s.push(p);
        assert(t[0] == s[0]);
        assert(t.len() > 0);
        lemma_address_of_push(s.drop_first(), p, name);
        assert(address_of(t, name) == if s[0].0@ == name {
            Some(s[0].1)
        } else {
            address_of(s.drop_first().push(p), name)
        });
    } else {
        let t = s.push(p);
        assert(t[0] == p);
        assert(t.drop_first().len() == 0);
        assert(address_of(t.drop_first(), name) is None);
        assert(address_of(s, name) is None);
        assert(t.len() == 1);
    }
}

proof fn lemma_address_of_none(s: Seq<(String, String)>, name: Seq<char>, k: int)
    requires
        address_of(s, name) is None,
        0 <= k < s.len(),
    ensures
        s[k].0@ != name,
    decreases s.len(),
{
    if k > 0 {
        lemma_address_of_none(s.drop_first(), name, k - 1);
    }
}

/// The address recorded for `name` (the first pair with that name).
pub open spec fn address_of(machines: Seq<(String, String)>, name: Seq<char>) -> Option<String>
    decreases machines.len(),
{
    if machines.len() == 0 {
        None
    } else if machines[0].0@ == name {
        Some(machines[0].1)
    } else {
        address_of(machines.drop_first(), name)
    }
}

impl MachineRegistry {
    /// A registry that knows no machine.
    pub fn empty() -> (r: MachineRegistry)
        ensures
            r.machines@.len() == 0,
            r.wf(),
    {
        MachineRegistry { machines: Vec::new() }
    }

    /// Every name at most once.
    pub open spec fn wf(&self) -> bool {
        names_distinct(self.machines@)
    }

    /// The registry of `pairs` (name, address); where a name occurs more
    /// than once, its last address counts.
    pub fn from_pairs(pairs: Vec<(String, String)>) -> (r: MachineRegistry)
        ensures
            r.wf(),
            forall|n: Seq<char>| #[trigger] address_of(r.machines@, n) == last_address(pairs@, n),
    {
        let mut out = MachineRegistry { machines: Vec::new() };
        let mut j: usize = pairs.len();
        proof {
            assert(pairs@.skip(j as int).len() == 0);
        }
        while j > 0
            invariant
                j <= pairs@.len(),
                names_distinct(out.machines@),
                forall|n: Seq<char>| #[trigger] address_of(out.machines@, n) == last_address(pairs@.skip(j as int), n),
            decreases j,
        {
            j = j - 1;
            let ghost before = out.machines@;
            let ghost tail = pairs@.skip(j + 1);
            proof {
                assert(pairs@.skip(j as int).drop_first() =~= tail);
                assert(pairs@.skip(j as int)[0] == pairs@[j as int]);
            }
            let known = out.host_for(pairs[j].0.as_str()).is_some();
            if !known {
                let p = (pairs[j].0.clone(), pairs[j].1.clone());
                out.machines.push(p);
                proof {
                    assert forall|n: Seq<char>| #[trigger] address_of(out.machines@, n) == last_address(
                        pairs@.skip(j as int),
                        n,
                    ) by {
                        lemma_address_of_push(before, p, n);
                    }
                    assert forall|a: int, b: int| 0 <= a < b < out.machines@.len() implies #[trigger] out.machines@[a].0@
                        != #[trigger] out.machines@[b].0@ by {
                        if b == before.len() {
                            lemma_address_of_none(before, p.0@, a);
                            assert(out.machines@[a] == before[a]);
                        } else {
                            assert(before[a].0@ != before[b].0@);
                        }
                    }
                }
            }
        }
        proof {
            assert(pairs@.skip(0) =~= pairs@);
        }
        out
    }

    /// The address of machine `name`, if known.
    pub fn host_for(&self, name: &str) -> (r: Option<&str>)
        ensures
            match address_of(self.machines@, name@) {
                Some(a) => r matches Some(h) && h@ == a@,
                None => r is None,
            },
    {
        let mut i: usize = 0;
        proof {
            assert(self.machines@.skip(0) =~= self.machines@);
        }
        while i < self.machines.len()
            invariant
                i <= self.machines@.len(),
                address_of(self.machines@, name@) == address_of(self.machines@.skip(i as int), name@),
            decreases self.machines.len() - i,
        {
            proof {
                assert(self.machines@.skip(i as int)[0] == self.machines@[i as int]);
                assert(self.machines@.skip(i as int).drop_first() =~= self.machines@.skip(i + 1));
            }
            if same_text(self.machines[i].0.as_str(), name) {
                return Some(self.machines[i].1.as_str());
            }
            i = i + 1;
        }
        None
    }
}

/// One machine of a priority list, as failover treats it.
#[derive(Debug, Clone)]
pub enum Candidate {
    /// Not in the registry: skipped with a warning.
    Unknown { name: String },
    /// Probe `health_url`; if it answers with success, `base_url` is the
    /// answer.
    Probe { name: String, base_url: String, health_url: String },
}

/// `http://{host}:{port}`.
pub open spec fn base_url_of(host: Seq<char>, port: u16) -> Seq<char> {
    "http://"@ + host + ":"@ + decimal(port as nat)
}

/// A candidate as text: the machine's name, and for a probe its base
/// URL and health URL.
pub open spec fn candidate_view(c: Candidate) -> (Seq<char>, Option<(Seq<char>, Seq<char>)>) {
    match c {
        Candidate::Unknown { name } => (name@, None),
        Candidate::Probe { name, base_url, health_url } => (name@, Some((base_url@, health_url@))),
    }
}

/// The candidates for a priority list, in its order.
pub open spec fn candidates_of(
    machines: Seq<(String, String)>,
    priority: Seq<String>,
    port: u16,
    health_path: Seq<char>,
) -> Seq<(Seq<char>, Option<(Seq<char>, Seq<char>)>)>
    decreases priority.len(),
{
    if priority.len() == 0 {
        Seq::empty()
    } else {
        let before = candidates_of(machines, priority.drop_last(), port, health_path);
        let name = priority.last()@;
        match address_of(machines, name) {
            None => before.push((name, None)),
            Some(h) => before.push(
                (name, Some((base_url_of(h@, port), base_url_of(h@, port) + health_path))),
            ),
        }
    }
}

/// What failover tries, in order: for each machine of `priority` in turn,
/// `http://{host}:{port}{health_path}` (the base URL being the answer if
/// it responds), or a skip for a machine the registry does not know.
pub fn failover_candidates(
    registry: &MachineRegistry,
    priority: &Vec<String>,
    port: u16,
    health_path: &str,
) -> (r: Vec<Candidate>)
    ensures
        r@.map_values(|c: Candidate| candidate_view(c)) == candidates_of(
            registry.machines@,
            priority@,
            port,
            health_path@,
        ),
{
    let mut out: Vec<Candidate> = Vec::new();
    let mut i: usize = 0;
    while i < priority.len()
        invariant
            i <= priority@.len(),
            out@.map_values(|c: Candidate| candidate_view(c)) == candidates_of(
                registry.machines@,
                priority@.take(i as int),
                port,
                health_path@,
            ),
        decreases priority.len() - i,
    {
        let name = priority[i].clone();
        proof {
            assert(priority@.take(i + 1).drop_last() =~= priority@.take(i as int));
            assert(priority@.take(i + 1).last() == priority@[i as int]);
        }
        let ghost before = out@;
        match registry.host_for(name.as_str()) {
            None => {
                out.push(Candidate::Unknown { name });
            },
            Some(host) => {
                let mut base = owned("http://");
                push_all(&mut base, host);
                push_all(&mut base, ":");
                let p = decimal_string(port as u64);
                push_all(&mut base, p.as_str());
                let mut health = owned(base.as_str());
                push_all(&mut health, health_path);
                proof {
                    assert(base@ =~= base_url_of(host@, port));
                    assert(health@ =~= base_url_of(host@, port) + health_path@);
                }
                out.push(Candidate::Probe { name, base_url: base, health_url: health });
            },
        }
        proof {
            assert(out@.map_values(|c: Candidate| candidate_view(c)) =~= before.map_values(
                |c: Candidate| candidate_view(c),
            ).push(candidate_view(out@.last())));
        }
        i = i + 1;
    }
    proof {
        assert(priority@.take(priority@.len() as int) =~= priority@);
    }
    out
}

/// Failover's answer once candidates have been probed in order (`ok[k]`:
/// whether candidate `k` answered its health check with success; an
/// unknown machine is never probed): the base URL of the first probed
/// candidate that answered, or none.
pub open spec fn first_available(
    cs: Seq<(Seq<char>, Option<(Seq<char>, Seq<char>)>)>,
    ok: Seq<bool>,
) -> Option<Seq<char>>
    decreases cs.len(),
{
    if cs.len() == 0 || ok.len() == 0 {
        None
    } else if cs[0].1 is Some && ok[0] {
        Some(cs[0].1.unwrap().0)
    } else {
        first_available(cs.drop_first(), ok.drop_first())
    }
}

/// The machine failover settles on: the base URL of the first candidate,
/// in priority order, whose health check succeeded (`ok[k]` for candidate
/// `k`; the checks may stop at the first success), or `None` when every
/// probed candidate failed.
pub fn first_available_url(candidates: &Vec<Candidate>, ok: &Vec<bool>) -> (r: Option<String>)
    ensures
        match first_available(candidates@.map_values(|c: Candidate| candidate_view(c)), ok@) {
            Some(u) => r matches Some(x) && x@ == u,
            None => r is None,
        },
{
    let ghost v = candidates@.map_values(|c: Candidate| candidate_view(c));
    let mut i: usize = 0;
    proof {
        assert(v.skip(0) =~= v);
        assert(ok@.skip(0) =~= ok@);
    }
    while i < candidates.len() && i < ok.len()
        invariant
            i <= candidates@.len(),
            i <= ok@.len(),
            v == candidates@.map_values(|c: Candidate| candidate_view(c)),
            first_available(v, ok@) == first_available(v.skip(i as int), ok@.skip(i as int)),
        decreases candidates.len() - i,
    {
        proof {
            assert(v.skip(i as int)[0] == candidate_view(candidates@[i as int]));
            assert(ok@.skip(i as int)[0] == ok@[i as int]);
            assert(v.skip(i as int).drop_first() =~= v.skip(i + 1));
            assert(ok@.skip(i as int).drop_first() =~= ok@.skip(i + 1));
        }
        match &candidates[i] {
            Candidate::Probe { base_url, .. } => {
                if ok[i] {
                    return Some(base_url.clone());
                }
            },
            Candidate::Unknown { .. } => {},
        }
        i = i + 1;
    }
    proof {
        assert(v.skip(i as int).len() == 0 || ok@.skip(i as int).len() == 0);
    }
    None
}

/// Whether candidate `k` was probed and answered its health check.
pub open spec fn healthy(cs: Seq<(Seq<char>, Option<(Seq<char>, Seq<char>)>)>, ok: Seq<bool>, k: int) -> bool {
    0 <= k < cs.len() && k < ok.len() && cs[k].1 is Some && ok[k]
}

/// Law: failover settles on the first healthy machine in priority order:
/// when candidate `k` answered and no candidate before it did, the answer
/// is `k`'s base URL (whatever later candidates did); when none answered,
/// there is no answer; and any answer is the base URL of a healthy
/// candidate that no healthy candidate precedes.
pub proof fn law_first_healthy_machine_wins(
    cs: Seq<(Seq<char>, Option<(Seq<char>, Seq<char>)>)>,
    ok: Seq<bool>,
    k: int,
)
    ensures
        healthy(cs, ok, k) && (forall|j: int| 0 <= j < k ==> !#[trigger] healthy(cs, ok, j)) ==> first_available(
            cs,
            ok,
        ) == Some(cs[k].1.unwrap().0),
        (forall|j: int| !#[trigger] healthy(cs, ok, j)) ==> first_available(cs, ok) is None,
        first_available(cs, ok) is Some ==> exists|i: int|
            #[trigger] healthy(cs, ok, i) && first_available(cs, ok) == Some(cs[i].1.unwrap().0) && forall|j: int|
                0 <= j < i ==> !#[trigger] healthy(cs, ok, j),
    decreases cs.len(),
{
    if cs.len() > 0 && ok.len() > 0 {
        let cs2 = cs.drop_first();
        let ok2 = ok.drop_first();
        assert forall|j: int| j >= 0 implies #[trigger] healthy(cs2, ok2, j) == healthy(cs, ok, j + 1) by {
            if 0 <= j < cs2.len() {
                assert(cs2[j] == cs[j + 1]);
            }
            if 0 <= j < ok2.len() {
                assert(ok2[j] == ok[j + 1]);
            }
        }
        law_first_healthy_machine_wins(cs2, ok2, k - 1);
        if healthy(cs, ok, 0) {
        } else {
            if healthy(cs, ok, k) && (forall|j: int| 0 <= j < k ==> !#[trigger] healthy(cs, ok, j)) {
                assert(k > 0);
                assert forall|j: int| 0 <= j < k - 1 implies !#[trigger] healthy(cs2, ok2, j) by {
                    assert(!healthy(cs, ok, j + 1));
                }
                assert(healthy(cs2, ok2, k - 1));
                assert(cs2[k - 1] == cs[k]);
            }
            if forall|j: int| !#[trigger] healthy(cs, ok, j) {
                assert forall|j: int| !#[trigger] healthy(cs2, ok2, j) by {
                    assert(!healthy(cs, ok, j + 1));
                }
            }
            if first_available(cs, ok) is Some {
                let i = choose|i: int|
                    #[trigger] healthy(cs2, ok2, i) && first_available(cs2, ok2) == Some(cs2[i].1.unwrap().0)
                        && forall|j: int| 0 <= j < i ==> !#[trigger] healthy(cs2, ok2, j);
                assert(healthy(cs, ok, i + 1));
                assert(cs2[i] == cs[i + 1]);
                assert forall|j: int| 0 <= j < i + 1 implies !#[trigger] healthy(cs, ok, j) by {
                    if j > 0 {
                        assert(!healthy(cs2, ok2, j - 1));
                    }
                }
            }
        }
    } else {
        assert forall|j: int| !#[trigger] healthy(cs, ok, j) by {}
    }
}

} // verus!
