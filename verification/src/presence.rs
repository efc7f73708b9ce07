use vstd::prelude::*;
use crate::config::{VoiceChatConfig, VoiceChannelConfigs, contains_id};

verus! {

/// One raw voice-presence event from the platform: where the user was and
/// where they are now, `None` meaning "not in voice".
#[derive(Debug, Clone, Copy, PartialEq, Eq, Structural)]
pub struct VoiceEvent {
    pub user_id: u64,
    pub old_channel: Option<u64>,
    pub new_channel: Option<u64>,
    pub is_bot: bool,
}

/// A deferred re-check scheduled for one group after an occupancy edge:
/// an arrival check for an empty-to-occupied edge, a departure check for an
/// occupied-to-empty edge.
#[derive(Debug, Clone, Copy, PartialEq, Eq, Structural)]
pub struct DelayedCheck {
    pub role_id: u64,
    pub is_arrival: bool,
}

/// True when the group watches the channel.
pub open spec fn spec_watches(cfg: VoiceChatConfig, ch: u64) -> bool {
    cfg.voice_channel_ids@.contains(ch)
}

/// The group configs are well formed when their role ids are unique.
pub open spec fn vc_wf(configs: Seq<(u64, VoiceChatConfig)>) -> bool {
    forall|i: int, j: int| 0 <= i < j < configs.len() ==> configs[i].0 != configs[j].0
}

/// Whether a group with id `r` stands among the first `n` configs and
/// watches `ch`.
pub open spec fn role_watching_prefix(
    configs: Seq<(u64, VoiceChatConfig)>,
    r: u64,
    ch: u64,
    n: int,
) -> bool {
    exists|j: int|
        0 <= j < n && j < configs.len() && (#[trigger] configs[j]).0 == r && spec_watches(
            configs[j].1,
            ch,
        )
}

/// One group's set of users after a join or leave on a channel it may or may
/// not watch.
pub open spec fn group_step(users: Set<u64>, watching: bool, user: u64, is_add: bool) -> Set<u64> {
    if watching {
        if is_add {
            users.insert(user)
        } else {
            users.remove(user)
        }
    } else {
        users
    }
}

/// The whole store after a join or leave on `ch`, applied to the groups
/// among the first `n` configs.
pub open spec fn apply_channel_prefix(
    m: Map<u64, Set<u64>>,
    configs: Seq<(u64, VoiceChatConfig)>,
    ch: u64,
    user: u64,
    is_add: bool,
    n: int,
) -> Map<u64, Set<u64>> {
    Map::new(
        |r: u64| true,
        |r: u64| group_step(m[r], role_watching_prefix(configs, r, ch, n), user, is_add),
    )
}

/// The whole store after a join or leave on `ch`.
pub open spec fn apply_channel(
    m: Map<u64, Set<u64>>,
    configs: Seq<(u64, VoiceChatConfig)>,
    ch: u64,
    user: u64,
    is_add: bool,
) -> Map<u64, Set<u64>> {
    apply_channel_prefix(m, configs, ch, user, is_add, configs.len() as int)
}

/// Whether the edge a join or leave of `user` produces on a group whose set
/// was `before` schedules a delayed check: a join only on the
/// empty-to-occupied edge and with a non-empty arrival pool, a leave only on
/// the occupied-to-empty edge and with a non-empty departure pool.
pub open spec fn spec_fires(
    before: Set<u64>,
    user: u64,
    is_add: bool,
    cfg: VoiceChatConfig,
) -> bool {
    if is_add {
        before == Set::<u64>::empty() && cfg.start_msgs@.len() > 0
    } else {
        before == Set::<u64>::empty().insert(user) && cfg.end_msgs@.len() > 0
    }
}

/// The delayed checks a join or leave on `ch` schedules from the first `n`
/// configs, in config order; `m` is the store before the event.
pub open spec fn checks_prefix(
    m: Map<u64, Set<u64>>,
    configs: Seq<(u64, VoiceChatConfig)>,
    ch: u64,
    user: u64,
    is_add: bool,
    n: int,
) -> Seq<DelayedCheck>
    decreases n,
{
    if n <= 0 {
        Seq::empty()
    } else {
        checks_prefix(m, configs, ch, user, is_add, n - 1) + (if spec_watches(
            configs[n - 1].1,
            ch,
        ) && spec_fires(m[configs[n - 1].0], user, is_add, configs[n - 1].1) {
            seq![DelayedCheck { role_id: configs[n - 1].0, is_arrival: is_add }]
        } else {
            Seq::<DelayedCheck>::empty()
        })
    }
}

/// The delayed checks a join or leave on `ch` schedules, in config order.
pub open spec fn spec_checks(
    m: Map<u64, Set<u64>>,
    configs: Seq<(u64, VoiceChatConfig)>,
    ch: u64,
    user: u64,
    is_add: bool,
) -> Seq<DelayedCheck> {
    checks_prefix(m, configs, ch, user, is_add, configs.len() as int)
}

/// True when exactly the same groups watch `a` as watch `b`.
pub open spec fn spec_same_watchers(configs: Seq<(u64, VoiceChatConfig)>, a: u64, b: u64) -> bool {
    forall|i: int|
        0 <= i < configs.len() ==> (spec_watches((#[trigger] configs[i]).1, a) <==> spec_watches(
            configs[i].1,
            b,
        ))
}

/// Compares the set of groups watching `a` with the set watching `b`.
pub fn same_watchers(configs: &VoiceChannelConfigs, a: u64, b: u64) -> (r: bool)
    ensures
        r == spec_same_watchers(configs@, a, b),
{
    let mut i: usize = 0;
    while i < configs.len()
        invariant
            i <= configs.len(),
            forall|j: int|
                0 <= j < i ==> (spec_watches((#[trigger] configs@[j]).1, a) <==> spec_watches(
                    configs@[j].1,
                    b,
                )),
        decreases configs.len() - i,
    {
        let wa = contains_id(&configs[i].1.voice_channel_ids, a);
        let wb = contains_id(&configs[i].1.voice_channel_ids, b);
        if wa != wb {
            return false;
        }
        i += 1;
    }
    true
}

/// Which users are currently counted as present for each notification group.
/// Held as a duplicate-free list of (group role id, user id) pairs; the
/// contracts speak of it as a set of users per group.
pub struct PresenceState {
    pairs: Vec<(u64, u64)>,
}

proof fn lemma_push_contains(s: Seq<(u64, u64)>, x: (u64, u64))
    ensures
        forall|y: (u64, u64)| #[trigger] s.push(x).contains(y) <==> (s.contains(y) || y == x),
{
    assert forall|y: (u64, u64)| #[trigger] s.push(x).contains(y) <==> (s.contains(y) || y
        == x) by {
        if s.push(x).contains(y) {
            let k = choose|k: int| 0 <= k < s.push(x).len() && s.push(x)[k] == y;
            if k < s.len() {
                assert(s[k] == y);
            }
        }
        if s.contains(y) {
            let k = choose|k: int| 0 <= k < s.len() && s[k] == y;
            assert(s.push(x)[k] == y);
        }
        assert(s.push(x)[s.len() as int] == x);
    }
}

proof fn lemma_remove_contains(s: Seq<(u64, u64)>, i: int)
    requires
        0 <= i < s.len(),
        s.no_duplicates(),
    ensures
        s.remove(i).no_duplicates(),
        forall|y: (u64, u64)| #[trigger] s.remove(i).contains(y) <==> (s.contains(y) && y != s[i]),
{
    s.remove_ensures(i);
    let r = s.remove(i);
    assert forall|y: (u64, u64)| #[trigger] r.contains(y) <==> (s.contains(y) && y != s[i]) by {
        if r.contains(y) {
            let k = choose|k: int| 0 <= k < r.len() && r[k] == y;
            if k < i {
                assert(s[k] == y);
            } else {
                assert(s[k + 1] == y);
            }
        }
        if s.contains(y) && y != s[i] {
            let k = choose|k: int| 0 <= k < s.len() && s[k] == y;
            if k < i {
                assert(r[k] == y);
            } else {
                assert(r[k - 1] == y);
            }
        }
    };
    assert forall|k1: int, k2: int|
        0 <= k1 < r.len() && 0 <= k2 < r.len() && k1 != k2 implies r[k1] != r[k2] by {
        let s1: int = if k1 < i {
            k1
        } else {
            k1 + 1
        };
        let s2: int = if k2 < i {
            k2
        } else {
            k2 + 1
        };
        assert(r[k1] == s[s1]);
        assert(r[k2] == s[s2]);
    }
}

impl PresenceState {
    /// No (group, user) pair is recorded twice.
    pub closed spec fn wf(self) -> bool {
        self.pairs@.no_duplicates()
    }

    /// The set of users currently counted as present for a group. A group
    /// nothing was recorded for has the empty set.
    pub closed spec fn spec_users(self, role: u64) -> Set<u64> {
        Set::new(|u: u64| self.pairs@.contains((role, u)))
    }

    /// An empty store: presence is rebuilt from live events only.
    pub fn new() -> (r: PresenceState)
        ensures
            r.wf(),
            forall|role: u64| #[trigger] r.spec_users(role) == Set::<u64>::empty(),
    {
        let r = PresenceState { pairs: Vec::new() };
        proof {
            assert forall|role: u64| #[trigger] r.spec_users(role) == Set::<u64>::empty() by {
                assert(r.spec_users(role) =~= Set::<u64>::empty());
            }
        }
        r
    }

    /// Whether a user is currently counted as present for a group.
    pub fn contains_user(&self, role: u64, user: u64) -> (r: bool)
        ensures
            r == self.spec_users(role).contains(user),
    {
        let mut i: usize = 0;
        while i < self.pairs.len()
            invariant
                i <= self.pairs.len(),
                forall|j: int| 0 <= j < i ==> self.pairs@[j] != (role, user),
            decreases self.pairs.len() - i,
        {
            if self.pairs[i].0 == role && self.pairs[i].1 == user {
                assert(self.pairs@[i as int] == (role, user));
                return true;
            }
            i += 1;
        }
        false
    }

    /// Whether a group's set of present users is currently empty.
    pub fn role_empty(&self, role: u64) -> (r: bool)
        ensures
            r == (self.spec_users(role) == Set::<u64>::empty()),
    {
        let mut i: usize = 0;
        while i < self.pairs.len()
            invariant
                i <= self.pairs.len(),
                forall|j: int| 0 <= j < i ==> (#[trigger] self.pairs@[j]).0 != role,
            decreases self.pairs.len() - i,
        {
            if self.pairs[i].0 == role {
                proof {
                    let u = self.pairs@[i as int].1;
                    assert(self.pairs@[i as int] == (role, u));
                    assert(self.spec_users(role).contains(u));
                    assert(!Set::<u64>::empty().contains(u));
                }
                return false;
            }
            i += 1;
        }
        proof {
            assert forall|u: u64| !self.pairs@.contains((role, u)) by {
                if self.pairs@.contains((role, u)) {
                    let j = choose|j: int|
                        0 <= j < self.pairs@.len() && self.pairs@[j] == (role, u);
                    assert((#[trigger] self.pairs@[j]).0 == role);
                }
            }
            assert(self.spec_users(role) =~= Set::<u64>::empty());
        }
        true
    }

    /// Records a user as present for a group. Recording a user twice changes
    /// nothing.
    pub fn add_user(&mut self, role: u64, user: u64)
        requires
            old(self).wf(),
        ensures
            final(self).wf(),
            final(self).spec_users(role) == old(self).spec_users(role).insert(user),
            forall|r: u64| r != role ==> final(self).spec_users(r) == old(self).spec_users(r),
    {
        if !self.contains_user(role, user) {
            proof {
                lemma_push_contains(self.pairs@, (role, user));
            }
            self.pairs.push((role, user));
            proof {
                let op = old(self).pairs@;
                assert forall|k1: int, k2: int|
                    0 <= k1 < self.pairs@.len() && 0 <= k2 < self.pairs@.len() && k1
                        != k2 implies self.pairs@[k1] != self.pairs@[k2] by {
                    if k1 < op.len() && k2 < op.len() {
                    } else if k2 == op.len() {
                        assert(op.contains(op[k1]));
                    } else {
                        assert(op.contains(op[k2]));
                    }
                }
                assert(final(self).spec_users(role) =~= old(self).spec_users(role).insert(user));
                assert forall|r: u64| r != role implies final(self).spec_users(r) == old(
                    self,
                ).spec_users(r) by {
                    assert(final(self).spec_users(r) =~= old(self).spec_users(r));
                }
            }
        } else {
            proof {
                assert(final(self).spec_users(role) =~= old(self).spec_users(role).insert(user));
            }
        }
    }

    /// Forgets a user's presence for a group; reports whether the user had
    /// been present. Removing an absent user changes nothing.
    pub fn remove_user(&mut self, role: u64, user: u64) -> (found: bool)
        requires
            old(self).wf(),
        ensures
            final(self).wf(),
            found == old(self).spec_users(role).contains(user),
            final(self).spec_users(role) == old(self).spec_users(role).remove(user),
            forall|r: u64| r != role ==> final(self).spec_users(r) == old(self).spec_users(r),
    {
        let mut i: usize = 0;
        while i < self.pairs.len()
            invariant
                self == old(self),
                old(self).wf(),
                i <= self.pairs.len(),
                forall|j: int| 0 <= j < i ==> self.pairs@[j] != (role, user),
            decreases self.pairs.len() - i,
        {
            if self.pairs[i].0 == role && self.pairs[i].1 == user {
                proof {
                    assert(self.pairs@[i as int] == (role, user));
                    lemma_remove_contains(self.pairs@, i as int);
                }
                self.pairs.remove(i);
                proof {
                    assert(old(self).spec_users(role).contains(user));
                    assert(final(self).spec_users(role) =~= old(self).spec_users(role).remove(
                        user,
                    ));
                    assert forall|r: u64| r != role implies final(self).spec_users(r) == old(
                        self,
                    ).spec_users(r) by {
                        assert(final(self).spec_users(r) =~= old(self).spec_users(r));
                    }
                }
                return true;
            }
            i += 1;
        }
        proof {
            assert(!old(self).spec_users(role).contains(user));
            assert(final(self).spec_users(role) =~= old(self).spec_users(role).remove(user));
        }
        false
    }

    /// The whole store, seen as a map from group id to its set of present
    /// users; groups nothing was recorded for map to the empty set.
    pub open spec fn as_map(self) -> Map<u64, Set<u64>> {
        Map::new(|r: u64| true, |r: u64| self.spec_users(r))
    }

    /// Applies one join or leave on `channel` to every group watching it,
    /// and returns the delayed checks the resulting occupancy edges
    /// schedule, in config order.
    pub fn handle_channel(
        &mut self,
        configs: &VoiceChannelConfigs,
        channel: u64,
        user: u64,
        is_add: bool,
    ) -> (checks: Vec<DelayedCheck>)
        requires
            old(self).wf(),
            vc_wf(configs@),
        ensures
            final(self).wf(),
            final(self).as_map() == apply_channel(
                old(self).as_map(),
                configs@,
                channel,
                user,
                is_add,
            ),
            checks@ == spec_checks(old(self).as_map(), configs@, channel, user, is_add),
    {
        let ghost m0 = old(self).as_map();
        let mut checks: Vec<DelayedCheck> = Vec::new();
        let mut i: usize = 0;
        proof {
            assert(self.as_map() =~~= apply_channel_prefix(m0, configs@, channel, user, is_add, 0));
        }
        while i < configs.len()
            invariant
                old(self).wf(),
                self.wf(),
                vc_wf(configs@),
                i <= configs.len(),
                m0 == old(self).as_map(),
                self.as_map() == apply_channel_prefix(
                    m0,
                    configs@,
                    channel,
                    user,
                    is_add,
                    i as int,
                ),
                checks@ == checks_prefix(m0, configs@, channel, user, is_add, i as int),
            decreases configs.len() - i,
        {
            let ghost m_pre = self.as_map();
            let rid = configs[i].0;
            let watching = contains_id(&configs[i].1.voice_channel_ids, channel);
            proof {
                if role_watching_prefix(configs@, rid, channel, i as int) {
                    let j = choose|j: int|
                        0 <= j < i && j < configs@.len() && (#[trigger] configs@[j]).0 == rid
                            && spec_watches(configs@[j].1, channel);
                    assert(configs@[j].0 != configs@[i as int].0);
                }
                assert(m_pre[rid] == m0[rid]);
                assert(m_pre[rid] == self.spec_users(rid));
            }
            if watching {
                let fire: bool;
                if is_add {
                    let before_empty = self.role_empty(rid);
                    fire = before_empty && configs[i].1.start_msgs.len() > 0;
                    self.add_user(rid, user);
                } else {
                    let found = self.remove_user(rid, user);
                    let now_empty = self.role_empty(rid);
                    fire = found && now_empty && configs[i].1.end_msgs.len() > 0;
                    proof {
                        let bu = m0[rid];
                        if found && now_empty {
                            assert forall|u: u64| bu.contains(u) implies u == user by {
                                if u != user {
                                    assert(bu.remove(user).contains(u));
                                }
                            }
                            assert(bu =~= Set::<u64>::empty().insert(user));
                        }
                        if bu == Set::<u64>::empty().insert(user) {
                            assert(bu.contains(user));
                            assert(bu.remove(user) =~= Set::<u64>::empty());
                        }
                    }
                }
                proof {
                    assert(fire == spec_fires(m0[rid], user, is_add, configs@[i as int].1));
                }
                if fire {
                    checks.push(DelayedCheck { role_id: rid, is_arrival: is_add });
                }
            }
            proof {
                let n1 = i as int + 1;
                assert forall|r: u64| #[trigger] role_watching_prefix(configs@, r, channel, n1)
                    <==> (role_watching_prefix(configs@, r, channel, i as int) || (r == rid
                    && spec_watches(configs@[i as int].1, channel))) by {
                    if role_watching_prefix(configs@, r, channel, n1) {
                        let j = choose|j: int|
                            0 <= j < n1 && j < configs@.len() && (#[trigger] configs@[j]).0 == r
                                && spec_watches(configs@[j].1, channel);
                        if j < i {
                            assert(role_watching_prefix(configs@, r, channel, i as int));
                        }
                    }
                    if role_watching_prefix(configs@, r, channel, i as int) {
                        let j = choose|j: int|
                            0 <= j < i && j < configs@.len() && (#[trigger] configs@[j]).0 == r
                                && spec_watches(configs@[j].1, channel);
                        assert(0 <= j < n1 && configs@[j].0 == r && spec_watches(
                            configs@[j].1,
                            channel,
                        ));
                    }
                    if r == rid && spec_watches(configs@[i as int].1, channel) {
                        assert((configs@[i as int]).0 == r);
                    }
                }
                assert forall|r: u64| #[trigger] self.spec_users(r) == apply_channel_prefix(
                    m0,
                    configs@,
                    channel,
                    user,
                    is_add,
                    n1,
                )[r] by {
                    if r == rid {
                        if watching {
                            assert(role_watching_prefix(configs@, r, channel, n1));
                        } else {
                            assert(!role_watching_prefix(configs@, r, channel, n1));
                            assert(self.spec_users(r) == m_pre[r]);
                        }
                    } else {
                        assert(self.spec_users(r) == m_pre[r]);
                        assert(m_pre[r] == group_step(
                            m0[r],
                            role_watching_prefix(configs@, r, channel, i as int),
                            user,
                            is_add,
                        ));
                    }
                }
                assert(self.as_map() =~~= apply_channel_prefix(
                    m0,
                    configs@,
                    channel,
                    user,
                    is_add,
                    n1,
                ));
                assert(checks@ =~= checks_prefix(m0, configs@, channel, user, is_add, n1));
            }
            i += 1;
        }
        proof {
            assert(self.as_map() == apply_channel(m0, configs@, channel, user, is_add));
        }
        checks
    }

    /// Ingests one raw voice event, updating every affected group's set and
    /// returning the delayed checks to schedule, in order. Bot events and
    /// moves between channels watched by exactly the same groups change
    /// nothing; any other move counts as a leave from the old channel
    /// followed by a join to the new one, so a group watching both channels
    /// keeps the user.
    pub fn handle_voice_event(
        &mut self,
        configs: &VoiceChannelConfigs,
        ev: &VoiceEvent,
    ) -> (checks: Vec<DelayedCheck>)
        requires
            old(self).wf(),
            vc_wf(configs@),
        ensures
            final(self).wf(),
            final(self).as_map() == spec_apply_event(old(self).as_map(), configs@, *ev),
            checks@ == spec_event_checks(old(self).as_map(), configs@, *ev),
    {
        if ev.is_bot {
            return Vec::new();
        }
        match (ev.old_channel, ev.new_channel) {
            (None, None) => Vec::new(),
            (None, Some(n)) => self.handle_channel(configs, n, ev.user_id, true),
            (Some(o), None) => self.handle_channel(configs, o, ev.user_id, false),
            (Some(o), Some(n)) => {
                if same_watchers(configs, o, n) {
                    Vec::new()
                } else {
                    let mut c1 = self.handle_channel(configs, o, ev.user_id, false);
                    let mut c2 = self.handle_channel(configs, n, ev.user_id, true);
                    c1.append(&mut c2);
                    c1
                }
            },
        }
    }
}

/// A notification ready to hand to the messaging sink: the channel to post
/// in, the role to mention, and the chosen message text.
pub struct Notification {
    pub text_channel_id: u64,
    pub role_id: u64,
    pub message: String,
}

/// Relies on rand::random_range: a uniformly chosen index below `n`; the
/// call panics only on an empty range, which the precondition rules out.
#[verifier::external_body]
fn random_below(n: usize) -> (r: usize)
    requires
        n > 0,
    ensures
        r < n,
{
    rand::random_range(0..n)
}

/// The first config registered for a role, if any.
pub open spec fn spec_find_config(configs: Seq<(u64, VoiceChatConfig)>, role: u64) -> Option<
    VoiceChatConfig,
> {
    if exists|i: int| 0 <= i < configs.len() && (#[trigger] configs[i]).0 == role {
        Some(configs[choose|i: int| 0 <= i < configs.len() && (#[trigger] configs[i]).0 == role].1)
    } else {
        None
    }
}

/// The message pool a check draws from: the arrival pool for an arrival
/// check, the departure pool for a departure check.
pub open spec fn spec_pool(cfg: VoiceChatConfig, is_arrival: bool) -> Seq<String> {
    if is_arrival {
        cfg.start_msgs@
    } else {
        cfg.end_msgs@
    }
}

/// Whether a delayed check's condition still holds at fire time: an arrival
/// check sends only while the group is still occupied, a departure check
/// only while it is still empty.
pub open spec fn spec_should_send(users: Set<u64>, is_arrival: bool) -> bool {
    if is_arrival {
        users != Set::<u64>::empty()
    } else {
        users == Set::<u64>::empty()
    }
}

/// The position of the first config registered for `role`, if any.
fn find_config_index(configs: &VoiceChannelConfigs, role: u64) -> (r: Option<usize>)
    ensures
        r matches Some(i) ==> i < configs@.len() && configs@[i as int].0 == role && (forall|j: int|
            0 <= j < i ==> (#[trigger] configs@[j]).0 != role),
        r is None ==> forall|j: int| 0 <= j < configs@.len() ==> (#[trigger] configs@[j]).0 != role,
{
    let mut i: usize = 0;
    while i < configs.len()
        invariant
            i <= configs.len(),
            forall|j: int| 0 <= j < i ==> (#[trigger] configs@[j]).0 != role,
        decreases configs.len() - i,
    {
        if configs[i].0 == role {
            return Some(i);
        }
        i += 1;
    }
    None
}

impl PresenceState {
    /// Re-validates a delayed check against the current store at fire time.
    /// If the edge the check was scheduled for no longer holds, the check
    /// degrades to a no-op; otherwise one message is drawn from the matching
    /// pool of the check's group.
    pub fn run_delayed_check(&self, configs: &VoiceChannelConfigs, check: &DelayedCheck) -> (r:
        Option<Notification>)
        requires
            vc_wf(configs@),
        ensures
            r is Some <==> (spec_find_config(configs@, check.role_id) is Some && spec_should_send(
                self.spec_users(check.role_id),
                check.is_arrival,
            ) && spec_pool(
                spec_find_config(configs@, check.role_id)->0,
                check.is_arrival,
            ).len() > 0),
            r matches Some(note) ==> {
                let cfg = spec_find_config(configs@, check.role_id)->0;
                &&& note.role_id == check.role_id
                &&& note.text_channel_id == cfg.text_channel_id
                &&& exists|k: int|
                    0 <= k < spec_pool(cfg, check.is_arrival).len() && note.message == spec_pool(
                        cfg,
                        check.is_arrival,
                    )[k]
            },
    {
        let found = find_config_index(configs, check.role_id);
        match found {
            None => None,
            Some(idx) => {
                proof {
                    let w = choose|j: int|
                        0 <= j < configs@.len() && (#[trigger] configs@[j]).0 == check.role_id;
                    assert(configs@[w].0 == check.role_id);
                    assert(w == idx) by {
                        if w < idx {
                            assert((#[trigger] configs@[w]).0 != check.role_id);
                        }
                    }
                }
                let cfg = &configs[idx].1;
                let still_holds = if check.is_arrival {
                    !self.role_empty(check.role_id)
                } else {
                    self.role_empty(check.role_id)
                };
                if !still_holds {
                    return None;
                }
                let msgs = if check.is_arrival {
                    &cfg.start_msgs
                } else {
                    &cfg.end_msgs
                };
                if msgs.len() == 0 {
                    return None;
                }
                let k = random_below(msgs.len());
                let message = msgs[k].clone();
                proof {
                    let scfg = spec_find_config(configs@, check.role_id)->0;
                    assert(scfg == configs@[idx as int].1);
                    assert(message == spec_pool(scfg, check.is_arrival)[k as int]);
                }
                Some(
                    Notification {
                        text_channel_id: cfg.text_channel_id,
                        role_id: check.role_id,
                        message,
                    },
                )
            },
        }
    }
}

/// From the first `n` configs, a join or leave whose edge fires for no
/// watching group schedules nothing.
proof fn lemma_checks_prefix_empty(
    m: Map<u64, Set<u64>>,
    configs: Seq<(u64, VoiceChatConfig)>,
    ch: u64,
    user: u64,
    is_add: bool,
    n: int,
)
    requires
        0 <= n <= configs.len(),
        forall|i: int|
            0 <= i < n && spec_watches((#[trigger] configs[i]).1, ch) ==> !spec_fires(
                m[configs[i].0],
                user,
                is_add,
                configs[i].1,
            ),
    ensures
        checks_prefix(m, configs, ch, user, is_add, n) == Seq::<DelayedCheck>::empty(),
    decreases n,
{
    if n > 0 {
        lemma_checks_prefix_empty(m, configs, ch, user, is_add, n - 1);
        assert(checks_prefix(m, configs, ch, user, is_add, n) =~= Seq::<DelayedCheck>::empty());
    }
}

/// A second user joining a channel right after a first one schedules no
/// arrival check: every group watching the channel already holds the first
/// user, so the second join crosses no empty-to-occupied edge.
pub proof fn lemma_second_join_schedules_nothing(
    m: Map<u64, Set<u64>>,
    configs: Seq<(u64, VoiceChatConfig)>,
    ch: u64,
    first_user: u64,
    second_user: u64,
)
    ensures
        spec_checks(
            apply_channel(m, configs, ch, first_user, true),
            configs,
            ch,
            second_user,
            true,
        ) == Seq::<DelayedCheck>::empty(),
{
    let m1 = apply_channel(m, configs, ch, first_user, true);
    assert forall|i: int|
        0 <= i < configs.len() && spec_watches((#[trigger] configs[i]).1, ch) implies !spec_fires(
        m1[configs[i].0],
        second_user,
        true,
        configs[i].1,
    ) by {
        let rid = configs[i].0;
        assert(role_watching_prefix(configs, rid, ch, configs.len() as int));
        assert(m1[rid] == m[rid].insert(first_user));
        assert(m1[rid].contains(first_user));
        assert(!Set::<u64>::empty().contains(first_user));
    }
    lemma_checks_prefix_empty(m1, configs, ch, second_user, true, configs.len() as int);
}

/// A move between two channels watched by exactly the same groups leaves
/// every group's set as it was and schedules nothing.
pub proof fn lemma_move_same_watchers_is_noop(
    m: Map<u64, Set<u64>>,
    configs: Seq<(u64, VoiceChatConfig)>,
    ev: VoiceEvent,
)
    requires
        !ev.is_bot,
        ev.old_channel is Some,
        ev.new_channel is Some,
        spec_same_watchers(configs, ev.old_channel->0, ev.new_channel->0),
    ensures
        spec_apply_event(m, configs, ev) == m,
        spec_event_checks(m, configs, ev) == Seq::<DelayedCheck>::empty(),
{
}

/// The checks a join or leave schedules depend only on what the store holds
/// for the groups watching the channel.
proof fn lemma_checks_prefix_agree(
    m1: Map<u64, Set<u64>>,
    m2: Map<u64, Set<u64>>,
    configs: Seq<(u64, VoiceChatConfig)>,
    ch: u64,
    user: u64,
    is_add: bool,
    n: int,
)
    requires
        0 <= n <= configs.len(),
        forall|i: int|
            0 <= i < n && spec_watches((#[trigger] configs[i]).1, ch) ==> m1[configs[i].0]
                == m2[configs[i].0],
    ensures
        checks_prefix(m1, configs, ch, user, is_add, n) == checks_prefix(
            m2,
            configs,
            ch,
            user,
            is_add,
            n,
        ),
    decreases n,
{
    if n > 0 {
        lemma_checks_prefix_agree(m1, m2, configs, ch, user, is_add, n - 1);
    }
}

/// When no group watches both ends of a move, the two edges are evaluated
/// independently: the arrival edges of the new channel's groups are judged
/// against the same store as the departure edges of the old channel's
/// groups, and the event's checks are exactly the two evaluations,
/// departures first.
pub proof fn lemma_move_disjoint_watchers_independent(
    m: Map<u64, Set<u64>>,
    configs: Seq<(u64, VoiceChatConfig)>,
    ev: VoiceEvent,
)
    requires
        vc_wf(configs),
        !ev.is_bot,
        ev.old_channel is Some,
        ev.new_channel is Some,
        forall|i: int|
            0 <= i < configs.len() ==> !(spec_watches((#[trigger] configs[i]).1, ev.old_channel->0)
                && spec_watches(configs[i].1, ev.new_channel->0)),
    ensures
        spec_event_checks(m, configs, ev) == spec_checks(
            m,
            configs,
            ev.old_channel->0,
            ev.user_id,
            false,
        ) + spec_checks(m, configs, ev.new_channel->0, ev.user_id, true),
{
    let o = ev.old_channel->0;
    let n = ev.new_channel->0;
    let user = ev.user_id;
    if spec_same_watchers(configs, o, n) {
        assert forall|i: int|
            0 <= i < configs.len() && spec_watches(
                (#[trigger] configs[i]).1,
                n,
            ) implies !spec_fires(m[configs[i].0], user, true, configs[i].1) by {
            assert(spec_watches(configs[i].1, o));
        }
        assert forall|i: int|
            0 <= i < configs.len() && spec_watches(
                (#[trigger] configs[i]).1,
                o,
            ) implies !spec_fires(m[configs[i].0], user, false, configs[i].1) by {
            assert(spec_watches(configs[i].1, n));
        }
        lemma_checks_prefix_empty(m, configs, n, user, true, configs.len() as int);
        lemma_checks_prefix_empty(m, configs, o, user, false, configs.len() as int);
        assert(spec_event_checks(m, configs, ev) =~= spec_checks(m, configs, o, user, false)
            + spec_checks(m, configs, n, user, true));
    } else {
        let mid = apply_channel(m, configs, o, user, false);
        assert forall|i: int|
            0 <= i < configs.len() && spec_watches((#[trigger] configs[i]).1, n) implies mid[configs[i].0]
            == m[configs[i].0] by {
            let rid = configs[i].0;
            if role_watching_prefix(configs, rid, o, configs.len() as int) {
                let j = choose|j: int|
                    0 <= j < configs.len() && (#[trigger] configs[j]).0 == rid && spec_watches(
                        configs[j].1,
                        o,
                    );
                assert(j == i);
            }
        }
        lemma_checks_prefix_agree(mid, m, configs, n, user, true, configs.len() as int);
    }
}

/// With unique role ids, whether a group's id counts as watching a channel
/// is decided by that group's own config entry.
proof fn lemma_role_watching_iff(configs: Seq<(u64, VoiceChatConfig)>, i: int, ch: u64)
    requires
        vc_wf(configs),
        0 <= i < configs.len(),
    ensures
        role_watching_prefix(configs, configs[i].0, ch, configs.len() as int) <==> spec_watches(
            configs[i].1,
            ch,
        ),
{
    if role_watching_prefix(configs, configs[i].0, ch, configs.len() as int) {
        let j = choose|j: int|
            0 <= j < configs.len() && (#[trigger] configs[j]).0 == configs[i].0 && spec_watches(
                configs[j].1,
                ch,
            );
        assert(j == i);
    }
    if spec_watches(configs[i].1, ch) {
        assert((#[trigger] configs[i]).0 == configs[i].0);
    }
}

/// One ingested event keeps the presence invariant: afterwards the event's
/// user stands in a group's set exactly when the event's new channel is one
/// the group watches, and no other user's membership moves.
pub proof fn lemma_event_preserves_invariant(
    m: Map<u64, Set<u64>>,
    configs: Seq<(u64, VoiceChatConfig)>,
    ev: VoiceEvent,
)
    requires
        vc_wf(configs),
        !ev.is_bot,
        forall|i: int|
            0 <= i < configs.len() ==> (m[(#[trigger] configs[i]).0].contains(ev.user_id) <==> (
            ev.old_channel matches Some(c) && spec_watches(configs[i].1, c))),
    ensures
        forall|i: int|
            0 <= i < configs.len() ==> (spec_apply_event(m, configs, ev)[(
            #[trigger] configs[i]).0].contains(ev.user_id) <==> (ev.new_channel matches Some(c)
                && spec_watches(configs[i].1, c))),
        forall|i: int, v: u64|
            #![trigger m[configs[i].0].contains(v)]
            0 <= i < configs.len() && v != ev.user_id ==> (spec_apply_event(
                m,
                configs,
                ev,
            )[configs[i].0].contains(v) <==> m[configs[i].0].contains(v)),
{
    let u = ev.user_id;
    let after = spec_apply_event(m, configs, ev);
    match (ev.old_channel, ev.new_channel) {
        (None, None) => {},
        (None, Some(n)) => {
            assert forall|i: int| 0 <= i < configs.len() implies (after[(
            #[trigger] configs[i]).0].contains(u) <==> spec_watches(configs[i].1, n)) by {
                lemma_role_watching_iff(configs, i, n);
            }
            assert forall|i: int, v: u64|
                #![trigger m[configs[i].0].contains(v)]
                0 <= i < configs.len() && v != u implies (after[configs[i].0].contains(v)
                <==> m[configs[i].0].contains(v)) by {
                lemma_role_watching_iff(configs, i, n);
            }
        },
        (Some(o), None) => {
            assert forall|i: int| 0 <= i < configs.len() implies !after[(
            #[trigger] configs[i]).0].contains(u) by {
                lemma_role_watching_iff(configs, i, o);
            }
            assert forall|i: int, v: u64|
                #![trigger m[configs[i].0].contains(v)]
                0 <= i < configs.len() && v != u implies (after[configs[i].0].contains(v)
                <==> m[configs[i].0].contains(v)) by {
                lemma_role_watching_iff(configs, i, o);
            }
        },
        (Some(o), Some(n)) => {
            if spec_same_watchers(configs, o, n) {
                assert forall|i: int| 0 <= i < configs.len() implies (after[(
                #[trigger] configs[i]).0].contains(u) <==> spec_watches(configs[i].1, n)) by {
                    assert(spec_watches(configs[i].1, o) <==> spec_watches(configs[i].1, n));
                }
            } else {
                let mid = apply_channel(m, configs, o, u, false);
                assert forall|i: int| 0 <= i < configs.len() implies (after[(
                #[trigger] configs[i]).0].contains(u) <==> spec_watches(configs[i].1, n)) by {
                    lemma_role_watching_iff(configs, i, o);
                    lemma_role_watching_iff(configs, i, n);
                    assert(mid[configs[i].0] == group_step(
                        m[configs[i].0],
                        spec_watches(configs[i].1, o),
                        u,
                        false,
                    ));
                }
                assert forall|i: int, v: u64|
                    #![trigger m[configs[i].0].contains(v)]
                    0 <= i < configs.len() && v != u implies (after[configs[i].0].contains(v)
                    <==> m[configs[i].0].contains(v)) by {
                    lemma_role_watching_iff(configs, i, o);
                    lemma_role_watching_iff(configs, i, n);
                    assert(mid[configs[i].0] == group_step(
                        m[configs[i].0],
                        spec_watches(configs[i].1, o),
                        u,
                        false,
                    ));
                }
            }
        },
    }
}

/// The number of scheduled checks that carry a given group's id.
pub open spec fn count_checks_for(checks: Seq<DelayedCheck>, g: u64) -> int
    decreases checks.len(),
{
    if checks.len() == 0 {
        0
    } else {
        count_checks_for(checks.drop_last(), g) + (if checks.last().role_id == g {
            1int
        } else {
            0int
        })
    }
}

proof fn lemma_count_checks_distributes(a: Seq<DelayedCheck>, b: Seq<DelayedCheck>, g: u64)
    ensures
        count_checks_for(a + b, g) == count_checks_for(a, g) + count_checks_for(b, g),
    decreases b.len(),
{
    if b.len() == 0 {
        assert(a + b =~= a);
    } else {
        lemma_count_checks_distributes(a, b.drop_last(), g);
        assert((a + b).drop_last() =~= a + b.drop_last());
        assert((a + b).last() == b.last());
    }
}

/// Whether one of the first `n` configs carries id `g`, watches `ch`, and
/// has its edge fire.
spec fn fires_for_prefix(
    m: Map<u64, Set<u64>>,
    configs: Seq<(u64, VoiceChatConfig)>,
    ch: u64,
    user: u64,
    is_add: bool,
    g: u64,
    n: int,
) -> bool {
    exists|i: int|
        0 <= i < n && (#[trigger] configs[i]).0 == g && spec_watches(configs[i].1, ch)
            && spec_fires(m[configs[i].0], user, is_add, configs[i].1)
}

proof fn lemma_checks_prefix_count(
    m: Map<u64, Set<u64>>,
    configs: Seq<(u64, VoiceChatConfig)>,
    ch: u64,
    user: u64,
    is_add: bool,
    g: u64,
    n: int,
)
    requires
        vc_wf(configs),
        0 <= n <= configs.len(),
    ensures
        count_checks_for(checks_prefix(m, configs, ch, user, is_add, n), g) == (if fires_for_prefix(
            m,
            configs,
            ch,
            user,
            is_add,
            g,
            n,
        ) {
            1int
        } else {
            0int
        }),
    decreases n,
{
    if n > 0 {
        lemma_checks_prefix_count(m, configs, ch, user, is_add, g, n - 1);
        let prev = checks_prefix(m, configs, ch, user, is_add, n - 1);
        let rid = configs[n - 1].0;
        let fired = spec_watches(configs[n - 1].1, ch) && spec_fires(
            m[rid],
            user,
            is_add,
            configs[n - 1].1,
        );
        let tail: Seq<DelayedCheck> = if fired {
            seq![DelayedCheck { role_id: rid, is_arrival: is_add }]
        } else {
            Seq::<DelayedCheck>::empty()
        };
        lemma_count_checks_distributes(prev, tail, g);
        if fired {
            assert(count_checks_for(Seq::<DelayedCheck>::empty(), g) == 0);
            assert(tail.drop_last() =~= Seq::<DelayedCheck>::empty());
            assert(count_checks_for(tail, g) == (if rid == g {
                1int
            } else {
                0int
            }));
        }
        if fired && rid == g {
            assert((#[trigger] configs[n - 1]).0 == g);
            if fires_for_prefix(m, configs, ch, user, is_add, g, n - 1) {
                let i = choose|i: int|
                    0 <= i < n - 1 && (#[trigger] configs[i]).0 == g && spec_watches(
                        configs[i].1,
                        ch,
                    ) && spec_fires(m[configs[i].0], user, is_add, configs[i].1);
                assert(configs[i].0 != configs[n - 1].0);
            }
        } else {
            if fires_for_prefix(m, configs, ch, user, is_add, g, n) {
                let i = choose|i: int|
                    0 <= i < n && (#[trigger] configs[i]).0 == g && spec_watches(configs[i].1, ch)
                        && spec_fires(m[configs[i].0], user, is_add, configs[i].1);
                assert(i < n - 1);
                assert(fires_for_prefix(m, configs, ch, user, is_add, g, n - 1));
            }
        }
    }
}

/// One join or leave schedules at most one check per group: exactly one
/// carrying the id of a group that watches the channel and whose edge
/// fires, and none carrying the id of any other group.
pub proof fn lemma_channel_schedules_one_check_per_group(
    m: Map<u64, Set<u64>>,
    configs: Seq<(u64, VoiceChatConfig)>,
    ch: u64,
    user: u64,
    is_add: bool,
    g_idx: int,
)
    requires
        vc_wf(configs),
        0 <= g_idx < configs.len(),
    ensures
        count_checks_for(spec_checks(m, configs, ch, user, is_add), configs[g_idx].0) == (
        if spec_watches(configs[g_idx].1, ch) && spec_fires(
            m[configs[g_idx].0],
            user,
            is_add,
            configs[g_idx].1,
        ) {
            1int
        } else {
            0int
        }),
{
    let g = configs[g_idx].0;
    lemma_checks_prefix_count(m, configs, ch, user, is_add, g, configs.len() as int);
    if fires_for_prefix(m, configs, ch, user, is_add, g, configs.len() as int) {
        let i = choose|i: int|
            0 <= i < configs.len() && (#[trigger] configs[i]).0 == g && spec_watches(
                configs[i].1,
                ch,
            ) && spec_fires(m[configs[i].0], user, is_add, configs[i].1);
        assert(i == g_idx);
    }
    if spec_watches(configs[g_idx].1, ch) && spec_fires(m[g], user, is_add, configs[g_idx].1) {
        assert((#[trigger] configs[g_idx]).0 == g);
    }
}

/// The store after one raw voice event.
pub open spec fn spec_apply_event(
    m: Map<u64, Set<u64>>,
    configs: Seq<(u64, VoiceChatConfig)>,
    ev: VoiceEvent,
) -> Map<u64, Set<u64>> {
    if ev.is_bot {
        m
    } else {
        match (ev.old_channel, ev.new_channel) {
            (None, None) => m,
            (None, Some(n)) => apply_channel(m, configs, n, ev.user_id, true),
            (Some(o), None) => apply_channel(m, configs, o, ev.user_id, false),
            (Some(o), Some(n)) => if spec_same_watchers(configs, o, n) {
                m
            } else {
                apply_channel(
                    apply_channel(m, configs, o, ev.user_id, false),
                    configs,
                    n,
                    ev.user_id,
                    true,
                )
            },
        }
    }
}

/// The delayed checks one raw voice event schedules: none for a bot event or
/// a move between identically watched channels; for any other move, the
/// leave edges against the store before the event, then the join edges
/// against the store with the leave already applied.
pub open spec fn spec_event_checks(
    m: Map<u64, Set<u64>>,
    configs: Seq<(u64, VoiceChatConfig)>,
    ev: VoiceEvent,
) -> Seq<DelayedCheck> {
    if ev.is_bot {
        Seq::empty()
    } else {
        match (ev.old_channel, ev.new_channel) {
            (None, None) => Seq::empty(),
            (None, Some(n)) => spec_checks(m, configs, n, ev.user_id, true),
            (Some(o), None) => spec_checks(m, configs, o, ev.user_id, false),
            (Some(o), Some(n)) => if spec_same_watchers(configs, o, n) {
                Seq::empty()
            } else {
                spec_checks(m, configs, o, ev.user_id, false) + spec_checks(
                    apply_channel(m, configs, o, ev.user_id, false),
                    configs,
                    n,
                    ev.user_id,
                    true,
                )
            },
        }
    }
}

} // verus!
