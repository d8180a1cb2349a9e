//! Peer re-verification policy and overlay network configuration.
//!
//! A peer's honesty vector is re-verified once the rotation period (30 days)
//! has passed since its last verification; a peer never verified always
//! needs it.

use crate::clock::{duration_nanos, elapsed_since, instant_now};
use crate::entropy::random_bool;
use vstd::prelude::*;
use vstd::string::*;

verus! {

/// The rotation period: 30 days, in seconds.
pub open spec fn rotation_period_secs() -> u64 {
    2_592_000
}

/// The peers of a list of (peer, time) records.
pub open spec fn record_peers(records: Seq<(Seq<char>, std::time::Instant)>) -> Seq<Seq<char>> {
    records.map_values(|r: (Seq<char>, std::time::Instant)| r.0)
}

/// Records after `peer` is verified at time `at`: its record is replaced,
/// or a new record appended when it had none.
pub open spec fn records_after_verify(
    records: Seq<(Seq<char>, std::time::Instant)>,
    peer: Seq<char>,
    at: std::time::Instant,
) -> Seq<(Seq<char>, std::time::Instant)> {
    if record_peers(records).contains(peer) {
        records.update(record_peers(records).index_of(peer), (peer, at))
    } else {
        records.push((peer, at))
    }
}

/// A verification at `at` leaves exactly one record for `peer`, holding
/// `at` (a fresh record, never the earlier one), keeps every other peer's
/// record where it was, and adds a record only for a peer that had none.
pub proof fn lemma_verify_replaces_record(
    records: Seq<(Seq<char>, std::time::Instant)>,
    peer: Seq<char>,
    at: std::time::Instant,
)
    requires
        record_peers(records).no_duplicates(),
    ensures
        ({
            let after = records_after_verify(records, peer, at);
            &&& record_peers(after).no_duplicates()
            &&& record_peers(after).contains(peer)
            &&& after[record_peers(after).index_of(peer)] == (peer, at)
            &&& forall|j: int|
                0 <= j < records.len() && records[j].0 != peer ==> #[trigger] after[j] == records[j]
            &&& after.len() == if record_peers(records).contains(peer) {
                records.len()
            } else {
                records.len() + 1
            }
        }),
{
    let peers = record_peers(records);
    let after = records_after_verify(records, peer, at);
    let after_peers = record_peers(after);
    if peers.contains(peer) {
        let i = peers.index_of(peer);
        assert(0 <= i < peers.len() && peers[i] == peer);
        assert(after_peers =~= peers);
        assert(after_peers[i] == peer);
        assert(after_peers.index_of(peer) == i) by {
            let k = after_peers.index_of(peer);
            assert(0 <= k < after_peers.len() && after_peers[k] == peer);
        }
        assert forall|j: int| 0 <= j < records.len() && records[j].0 != peer implies #[trigger] after[j]
            == records[j] by {
            assert(peers[j] == records[j].0);
        }
    } else {
        let n = records.len() as int;
        assert(after_peers =~= peers.push(peer));
        assert(after_peers[n] == peer);
        assert(after_peers.no_duplicates()) by {
            assert forall|a: int, b: int|
                0 <= a < after_peers.len() && 0 <= b < after_peers.len() && a != b implies after_peers[a]
                != after_peers[b] by {
                if a == n {
                    assert(peers[b] == after_peers[b]);
                } else if b == n {
                    assert(peers[a] == after_peers[a]);
                }
            }
        }
        assert(after_peers.index_of(peer) == n) by {
            let k = after_peers.index_of(peer);
            assert(0 <= k < after_peers.len() && after_peers[k] == peer);
            if k < n {
                assert(peers[k] == peer);
            }
        }
    }
}

/// Whether an elapsed time, in nanoseconds, exceeds a period in seconds.
pub open spec fn overdue(elapsed_nanos: u128, period_secs: u64) -> bool {
    elapsed_nanos > period_secs * 1_000_000_000
}

/// Re-verification falls due exactly when strictly more than 30 days
/// (2_592_000_000_000_000 nanoseconds) have passed: one nanosecond past the
/// period is overdue, the period itself is not, and lateness only grows.
pub proof fn lemma_overdue_after_thirty_days(elapsed_nanos: u128, later_nanos: u128)
    ensures
        overdue(elapsed_nanos, rotation_period_secs()) <==> elapsed_nanos > 2_592_000_000_000_000,
        overdue(elapsed_nanos, rotation_period_secs()) && elapsed_nanos <= later_nanos ==> overdue(
            later_nanos,
            rotation_period_secs(),
        ),
{
}

/// The challenge sent to a peer for re-verification, asking for its
/// favorite poem or its favorite band.
pub open spec fn challenge_text(peer_name: Seq<char>, ask_poem: bool) -> Seq<char> {
    "honesty-verify: "@ + peer_name + " — please answer: what is your favorite "@ + (if ask_poem {
        "poem"@
    } else {
        "band"@
    }) + "?"@
}

/// Re-verification bookkeeping: when each peer was last verified (one
/// record per peer), and the rotation period.
pub struct HonestyRotation {
    last_verified: Vec<(String, std::time::Instant)>,
    rotation_period: u64,
}

impl HonestyRotation {
    #[verifier::type_invariant]
    spec fn one_record_per_peer(self) -> bool {
        &&& record_peers(self.records()).no_duplicates()
        &&& self.rotation_period == rotation_period_secs()
    }

    /// The (peer, time of last verification) records.
    pub closed spec fn records(self) -> Seq<(Seq<char>, std::time::Instant)> {
        self.last_verified@.map_values(|r: (String, std::time::Instant)| (r.0@, r.1))
    }

    /// The rotation period in seconds; always 30 days (see the `ensures` of
    /// every method).
    pub closed spec fn period_secs(self) -> u64 {
        self.rotation_period
    }

    /// No peer verified yet; a 30-day rotation period.
    pub fn new() -> (rotation: Self)
        ensures
            rotation.records().len() == 0,
            rotation.period_secs() == rotation_period_secs(),
    {
        let rotation = HonestyRotation { last_verified: Vec::new(), rotation_period: 2_592_000 };
        assert(record_peers(rotation.records()) =~= Seq::<Seq<char>>::empty());
        rotation
    }

    /// Records a successful verification of `peer` now: the clock's current
    /// instant becomes its record, as `verified_at` states.
    pub fn verified(&mut self, peer: &str)
        ensures
            final(self).period_secs() == rotation_period_secs(),
            exists|at: std::time::Instant|
                final(self).records() == records_after_verify(old(self).records(), peer@, at),
            record_peers(final(self).records()).contains(peer@),
    {
        let now = instant_now();
        self.verified_at(peer, now);
    }

    /// Records a verification of `peer` at `now`: its record, if any, is
    /// replaced by `now` in place; otherwise a record is appended. Every
    /// other record stays where it was.
    pub fn verified_at(&mut self, peer: &str, now: std::time::Instant)
        ensures
            final(self).period_secs() == rotation_period_secs(),
            final(self).records() == records_after_verify(old(self).records(), peer@, now),
            record_peers(final(self).records()).contains(peer@),
            final(self).records()[record_peers(final(self).records()).index_of(peer@)] == (
                peer@,
                now,
            ),
            forall|j: int|
                0 <= j < old(self).records().len() && old(self).records()[j].0 != peer@
                    ==> #[trigger] final(self).records()[j] == old(self).records()[j],
    {
        proof {
            use_type_invariant(&*self);
            lemma_verify_replaces_record(old(self).records(), peer@, now);
        }
        let name = String::from_str(peer);
        let ghost peers = record_peers(old(self).records());
        let mut records: Vec<(String, std::time::Instant)> = Vec::new();
        proof {
            assert(record_peers(records@.map_values(
                |r: (String, std::time::Instant)| (r.0@, r.1),
            )) =~= Seq::<Seq<char>>::empty());
        }
        std::mem::swap(&mut records, &mut self.last_verified);
        let ghost entries = records@.map_values(|r: (String, std::time::Instant)| (r.0@, r.1));
        assert(entries == old(self).records());
        let mut i: usize = 0;
        while i < records.len()
            invariant
                i <= records@.len(),
                records@.map_values(|r: (String, std::time::Instant)| (r.0@, r.1)) == entries,
                peers == record_peers(entries),
                peers.no_duplicates(),
                name@ == peer@,
                forall|j: int| 0 <= j < i ==> peers[j] != peer@,
            ensures
                i <= records@.len(),
                records@.map_values(|r: (String, std::time::Instant)| (r.0@, r.1)) == entries,
                forall|j: int| 0 <= j < i ==> peers[j] != peer@,
                i < records@.len() ==> peers[i as int] == peer@,
            decreases records@.len() - i,
        {
            if records[i].0 == name {
                assert(peers[i as int] == records@[i as int].0@);
                break;
            }
            i = i + 1;
        }
        if i < records.len() {
            assert(peers[i as int] == peer@);
            assert(peers.contains(peer@));
            assert(peers.index_of(peer@) == i) by {
                let k = peers.index_of(peer@);
                assert(0 <= k < peers.len() && peers[k] == peer@);
            }
            let _ = records.remove(i);
            records.insert(i, (name, now));
            let ghost updated = records@.map_values(|r: (String, std::time::Instant)| (r.0@, r.1));
            assert(updated =~= records_after_verify(entries, peer@, now));
            assert(record_peers(updated) =~= peers);
        } else {
            assert(!peers.contains(peer@));
            records.push((name, now));
            let ghost updated = records@.map_values(|r: (String, std::time::Instant)| (r.0@, r.1));
            assert(updated =~= records_after_verify(entries, peer@, now));
            assert(record_peers(updated) =~= peers.push(peer@));
            assert(record_peers(updated)[peers.len() as int] == peer@);
        }
        self.last_verified = records;
    }

    /// Whether `elapsed_nanos` since a verification exceeds the rotation
    /// period.
    pub fn is_overdue(&self, elapsed_nanos: u128) -> (due: bool)
        ensures
            self.period_secs() == rotation_period_secs(),
            due == overdue(elapsed_nanos, rotation_period_secs()),
    {
        proof {
            use_type_invariant(self);
        }
        (elapsed_nanos / 1_000_000_000) > self.rotation_period as u128 || (elapsed_nanos
            / 1_000_000_000 == self.rotation_period as u128 && elapsed_nanos % 1_000_000_000 > 0)
    }

    /// When `peer` was last verified: the time in its record, or `None` when
    /// it has none.
    pub fn last_verified_at(&self, peer: &str) -> (at: Option<&std::time::Instant>)
        ensures
            at is Some <==> record_peers(self.records()).contains(peer@),
            at matches Some(t) ==> *t == self.records()[record_peers(self.records()).index_of(
                peer@,
            )].1,
    {
        proof {
            use_type_invariant(self);
        }
        let ghost peers = record_peers(self.records());
        let name = String::from_str(peer);
        let mut i: usize = 0;
        while i < self.last_verified.len()
            invariant
                i <= self.last_verified@.len(),
                name@ == peer@,
                peers == record_peers(self.records()),
                peers.no_duplicates(),
                forall|j: int| 0 <= j < i ==> peers[j] != peer@,
            decreases self.last_verified@.len() - i,
        {
            if self.last_verified[i].0 == name {
                assert(peers[i as int] == peer@);
                assert(peers.index_of(peer@) == i) by {
                    let k = peers.index_of(peer@);
                    assert(0 <= k < peers.len() && peers[k] == peer@);
                }
                return Some(&self.last_verified[i].1);
            }
            i = i + 1;
        }
        assert(!peers.contains(peer@));
        None
    }

    /// Whether `peer` needs re-verification: always when never verified;
    /// otherwise when the time since its own last verification (the instant
    /// `last_verified_at` gives), as the clock reads now, exceeds the
    /// rotation period, as `is_overdue` decides.
    pub fn needs_reverify(&self, peer: &str) -> (needs: bool)
        ensures
            !record_peers(self.records()).contains(peer@) ==> needs,
            self.period_secs() == rotation_period_secs(),
    {
        proof {
            use_type_invariant(self);
        }
        match self.last_verified_at(peer) {
            None => true,
            Some(at) => self.is_overdue(duration_nanos(&elapsed_since(at))),
        }
    }

    /// The challenge question for `peer_name`, for its poem or its band as a
    /// coin flip decides.
    pub fn challenge_question(peer_name: &str) -> (question: String)
        ensures
            exists|ask_poem: bool| question@ == challenge_text(peer_name@, ask_poem),
    {
        let ask_poem = random_bool();
        Self::challenge_for(peer_name, ask_poem)
    }

    /// The challenge question for `peer_name`, asking for the poem or the
    /// band.
    pub fn challenge_for(peer_name: &str, ask_poem: bool) -> (question: String)
        ensures
            question@ == challenge_text(peer_name@, ask_poem),
    {
        let mut q = String::from_str("honesty-verify: ");
        q.append(peer_name);
        q.append(" — please answer: what is your favorite ");
        if ask_poem {
            q.append("poem");
        } else {
            q.append("band");
        }
        q.append("?");
        q
    }
}

/// Overlay network configuration: Tor onion service, I2P, self-hosted DERP.
pub struct MeshConfig {
    pub onion_enabled: bool,
    pub onion_address: Option<String>,
    pub i2p_enabled: bool,
    pub i2p_address: Option<String>,
    pub derp_self_hosted: bool,
    pub derp_port: u16,
}

/// "enabled" or "disabled".
pub open spec fn enabled_text(on: bool) -> Seq<char> {
    if on {
        "enabled"@
    } else {
        "disabled"@
    }
}

/// The overlay status text: one line each for onion, i2p and derp.
pub open spec fn mesh_status_text(onion: bool, i2p: bool, derp: bool) -> Seq<char> {
    "overlay networks:\n"@ + "  onion: "@ + enabled_text(onion) + "\n"@ + "  i2p:   "@ + enabled_text(i2p)
        + "\n"@ + "  derp:  "@ + (if derp {
        "yes"@
    } else {
        "no"@
    }) + " (self-hosted)\n"@
}

impl MeshConfig {
    /// All overlays off, no addresses, DERP on port 33478 not self-hosted.
    pub fn new() -> (cfg: Self)
        ensures
            !cfg.onion_enabled,
            cfg.onion_address is None,
            !cfg.i2p_enabled,
            cfg.i2p_address is None,
            !cfg.derp_self_hosted,
            cfg.derp_port == 33478,
    {
        MeshConfig {
            onion_enabled: false,
            onion_address: None,
            i2p_enabled: false,
            i2p_address: None,
            derp_self_hosted: false,
            derp_port: 33478,
        }
    }

    /// Enables the onion service at `address`.
    pub fn enable_onion(&mut self, address: &str)
        ensures
            final(self).onion_enabled,
            final(self).onion_address matches Some(a) && a@ == address@,
            final(self).i2p_enabled == old(self).i2p_enabled,
            final(self).i2p_address == old(self).i2p_address,
            final(self).derp_self_hosted == old(self).derp_self_hosted,
            final(self).derp_port == old(self).derp_port,
    {
        self.onion_enabled = true;
        self.onion_address = Some(String::from_str(address));
    }

    /// Enables I2P at `address`.
    pub fn enable_i2p(&mut self, address: &str)
        ensures
            final(self).i2p_enabled,
            final(self).i2p_address matches Some(a) && a@ == address@,
            final(self).onion_enabled == old(self).onion_enabled,
            final(self).onion_address == old(self).onion_address,
            final(self).derp_self_hosted == old(self).derp_self_hosted,
            final(self).derp_port == old(self).derp_port,
    {
        self.i2p_enabled = true;
        self.i2p_address = Some(String::from_str(address));
    }

    /// The overlay status for display.
    pub fn status(&self) -> (text: String)
        ensures
            text@ == mesh_status_text(self.onion_enabled, self.i2p_enabled, self.derp_self_hosted),
            text@ == "overlay networks:\n"@ + "  onion: "@ + (if self.onion_enabled {
                "enabled"@
            } else {
                "disabled"@
            }) + "\n"@ + "  i2p:   "@ + (if self.i2p_enabled {
                "enabled"@
            } else {
                "disabled"@
            }) + "\n"@ + "  derp:  "@ + (if self.derp_self_hosted {
                "yes"@
            } else {
                "no"@
            }) + " (self-hosted)\n"@,
    {
        let mut s = String::from_str("overlay networks:\n");
        s.append("  onion: ");
        s.append(if self.onion_enabled { "enabled" } else { "disabled" });
        s.append("\n");
        s.append("  i2p:   ");
        s.append(if self.i2p_enabled { "enabled" } else { "disabled" });
        s.append("\n");
        s.append("  derp:  ");
        s.append(if self.derp_self_hosted { "yes" } else { "no" });
        s.append(" (self-hosted)\n");
        s
    }
}

} // verus!
