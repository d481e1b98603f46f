//! Supervision control plane for channel cancellation.
use vstd::prelude::*;
use crate::table;
use crate::table::{Keyed, Table};

verus! {

broadcast use vstd::seq::group_seq_axioms;

/// What a cancellation came to.
#[derive(Debug, Clone, Copy, PartialEq, Eq, Structural)]
pub enum ControlActionResult {
    Cancelled,
    NotFound,
    AlreadyTerminal,
}

/// A registered channel. Its control handle is known by the registration id.
#[derive(Debug)]
pub struct ChannelControlEntry {
    pub channel_id: String,
    pub registration_id: u64,
}

impl Keyed for ChannelControlEntry {
    open spec fn keyed_by(&self) -> Seq<char> {
        self.channel_id@
    }

    fn key(&self) -> (key: &str) {
        self.channel_id.as_str()
    }
}

/// What a lookup of a channel comes to.
#[derive(Debug, Clone, Copy, PartialEq, Eq, Structural)]
pub enum ChannelLookupResult {
    /// The channel runs; its handle.
    Found(u64),
    /// The channel is gone; its registration.
    Stale(u64),
    Missing,
}

/// A process of a channel.
#[derive(Debug, Clone, Copy, PartialEq, Eq, Structural)]
pub enum ProcessKind {
    Worker,
    Branch,
}

/// A cancellation to be made through a channel's handle.
#[derive(Debug)]
pub struct CancelCall {
    pub handle: u64,
    pub kind: ProcessKind,
    pub process_id: String,
    pub reason: String,
}

/// What a cancellation is to be made through, or what it came to.
pub open spec fn call_of(call: Result<CancelCall, ControlActionResult>) -> Result<
    (u64, ProcessKind, Seq<char>, Seq<char>),
    ControlActionResult,
> {
    match call {
        Ok(call) => Ok((call.handle, call.kind, call.process_id@, call.reason@)),
        Err(result) => Err(result),
    }
}

/// A cancellation goes through the handle of a channel that runs; without one
/// there is nothing to cancel.
pub open spec fn cancelled_through(
    found: ChannelLookupResult,
    kind: ProcessKind,
    process_id: Seq<char>,
    reason: Seq<char>,
) -> Result<(u64, ProcessKind, Seq<char>, Seq<char>), ControlActionResult> {
    match found {
        ChannelLookupResult::Found(handle) => Ok((handle, kind, process_id, reason)),
        _ => Err(ControlActionResult::NotFound),
    }
}

/// The registrations after a lookup, which prunes a stale one.
pub open spec fn after_lookup(registered: Map<Seq<char>, u64>, channel_id: Seq<char>, alive: Seq<u64>) -> Map<
    Seq<char>,
    u64,
> {
    match looked_up(registered, channel_id, alive) {
        ChannelLookupResult::Stale(_) => registered.remove(channel_id),
        _ => registered,
    }
}

/// The channels that can be controlled.
#[derive(Debug)]
pub struct ProcessControlRegistry {
    pub channels: Table<ChannelControlEntry>,
    pub next_channel_registration: u64,
}

/// The registration of each channel.
pub open spec fn registrations(channels: Map<Seq<char>, ChannelControlEntry>) -> Map<Seq<char>, u64> {
    channels.map_values(|entry: ChannelControlEntry| entry.registration_id)
}

/// What a lookup of a channel comes to, given the handles that are alive.
pub open spec fn looked_up(registered: Map<Seq<char>, u64>, channel_id: Seq<char>, alive: Seq<u64>) -> ChannelLookupResult {
    if !registered.contains_key(channel_id) {
        ChannelLookupResult::Missing
    } else if alive.contains(registered[channel_id]) {
        ChannelLookupResult::Found(registered[channel_id])
    } else {
        ChannelLookupResult::Stale(registered[channel_id])
    }
}

/// The registrations without that of a channel, where it is a given one.
pub open spec fn unregistered(registered: Map<Seq<char>, u64>, channel_id: Seq<char>, registration_id: u64) -> Map<
    Seq<char>,
    u64,
> {
    if registered.contains_key(channel_id) && registered[channel_id] == registration_id {
        registered.remove(channel_id)
    } else {
        registered
    }
}

fn lists(alive: &Vec<u64>, handle: u64) -> (found: bool)
    ensures
        found == alive@.contains(handle),
{
    let mut k: usize = 0;
    while k < alive.len()
        invariant
            k <= alive@.len(),
            forall|i: int| 0 <= i < k ==> alive@[i] != handle,
        decreases alive@.len() - k,
    {
        if alive[k] == handle {
            assert(alive@[k as int] == handle);
            return true;
        }
        k = k + 1;
    }
    false
}

impl Default for ProcessControlRegistry {
    fn default() -> (registry: Self)
        ensures
            registry.well_formed(),
            registry.registered() == Map::<Seq<char>, u64>::empty(),
            registry.next_channel_registration == 1,
    {
        ProcessControlRegistry::new()
    }
}

impl ProcessControlRegistry {
    /// Whether no channel is registered twice.
    pub open spec fn well_formed(self) -> bool {
        self.channels.well_formed()
    }

    /// The registration of each channel.
    pub open spec fn registered(self) -> Map<Seq<char>, u64> {
        registrations(self.channels@)
    }

    /// A registry without channels.
    pub fn new() -> (registry: Self)
        ensures
            registry.well_formed(),
            registry.registered() == Map::<Seq<char>, u64>::empty(),
            registry.next_channel_registration == 1,
    {
        let registry = ProcessControlRegistry { channels: Table::new(), next_channel_registration: 1 };
        assert(registry.registered() =~= Map::<Seq<char>, u64>::empty());
        registry
    }

    /// Registers a channel, in place of an earlier registration.
    pub fn register_channel(&mut self, channel_id: &str) -> (registration_id: u64)
        requires
            old(self).well_formed(),
            old(self).next_channel_registration < u64::MAX,
        ensures
            final(self).well_formed(),
            registration_id == old(self).next_channel_registration,
            final(self).next_channel_registration == registration_id + 1,
            final(self).registered() == old(self).registered().insert(channel_id@, registration_id),
    {
        let registration_id: u64 = self.next_channel_registration;
        self.next_channel_registration = registration_id + 1;
        let ghost before = self.channels@;
        let entry = ChannelControlEntry { channel_id: channel_id.to_owned(), registration_id };
        self.channels.put(entry);
        assert(registrations(before.insert(channel_id@, entry)) =~= registrations(before).insert(
            channel_id@,
            registration_id,
        ));
        registration_id
    }

    /// Removes a channel, where its registration is a given one. Says whether
    /// it was.
    pub fn unregister_channel(&mut self, channel_id: &str, registration_id: u64) -> (removed: bool)
        requires
            old(self).well_formed(),
        ensures
            final(self).well_formed(),
            final(self).next_channel_registration == old(self).next_channel_registration,
            removed == (old(self).registered().contains_key(channel_id@) && old(self).registered()[channel_id@]
                == registration_id),
            final(self).registered() == unregistered(old(self).registered(), channel_id@, registration_id),
    {
        self.remove_stale_channel_if_matches(channel_id, registration_id)
    }

    /// Drops the channels whose handle is gone. Says how many.
    pub fn prune_dead_channels(&mut self, alive: &Vec<u64>) -> (pruned: usize)
        requires
            old(self).well_formed(),
        ensures
            final(self).well_formed(),
            final(self).next_channel_registration == old(self).next_channel_registration,
            pruned == old(self).channels.rows@.len() - final(self).channels.rows@.len(),
            forall|id: Seq<char>| #[trigger]
                final(self).registered().contains_key(id) == (old(self).registered().contains_key(id)
                    && alive@.contains(old(self).registered()[id])),
            forall|id: Seq<char>| #[trigger]
                final(self).registered().contains_key(id) ==> final(self).registered()[id] == old(self).registered()[id],
    {
        let ghost rows = self.channels.rows@;
        let ghost before = self.channels@;
        let mut marks: Vec<bool> = Vec::new();
        let mut k: usize = 0;
        while k < self.channels.rows.len()
            invariant
                k <= self.channels.rows@.len(),
                self.channels.rows@ == rows,
                self.next_channel_registration == old(self).next_channel_registration,
                marks@.len() == k,
                forall|i: int| 0 <= i < k ==> #[trigger] marks@[i] == alive@.contains(rows[i].registration_id),
            decreases self.channels.rows@.len() - k,
        {
            marks.push(lists(alive, self.channels.rows[k].registration_id));
            k = k + 1;
        }
        let pruned: usize = self.channels.retain(&marks);
        proof {
            assert forall|id: Seq<char>| #[trigger]
                self.registered().contains_key(id) == (registrations(before).contains_key(id) && alive@.contains(
                    registrations(before)[id],
                )) by {
                if self.channels@.contains_key(id) {
                    let at = choose|at: int| #[trigger] table::at_key(rows, id, at) && marks@[at];
                    table::mapped_at(rows, at);
                }
                if before.contains_key(id) {
                    let at = choose|at: int| #[trigger] table::at_key(rows, id, at);
                    table::mapped_at(rows, at);
                    assert(table::at_key(rows, id, at));
                    if alive@.contains(before[id].registration_id) {
                        assert(marks@[at]);
                    }
                }
            }
        }
        pruned
    }

    /// Live control handle for a channel, when one is running. Prunes a stale
    /// registration on the way.
    pub fn channel_handle(&mut self, channel_id: &str, alive: &Vec<u64>) -> (handle: Option<u64>)
        requires
            old(self).well_formed(),
        ensures
            final(self).well_formed(),
            final(self).next_channel_registration == old(self).next_channel_registration,
            match looked_up(old(self).registered(), channel_id@, alive@) {
                ChannelLookupResult::Found(found) => handle == Some(found) && final(self).registered() == old(self).registered(),
                ChannelLookupResult::Stale(_) => handle is None && final(self).registered() == old(self).registered().remove(channel_id@),
                ChannelLookupResult::Missing => handle is None && final(self).registered() == old(self).registered(),
            },
    {
        match self.lookup_channel_handle(channel_id, alive) {
            ChannelLookupResult::Found(handle) => Some(handle),
            ChannelLookupResult::Stale(registration_id) => {
                let _ = self.remove_stale_channel_if_matches(channel_id, registration_id);
                None
            },
            ChannelLookupResult::Missing => None,
        }
    }

    fn lookup_channel_handle(&self, channel_id: &str, alive: &Vec<u64>) -> (found: ChannelLookupResult)
        requires
            self.well_formed(),
        ensures
            found == looked_up(self.registered(), channel_id@, alive@),
    {
        match self.channels.get(channel_id) {
            None => ChannelLookupResult::Missing,
            Some(entry) => {
                if lists(alive, entry.registration_id) {
                    ChannelLookupResult::Found(entry.registration_id)
                } else {
                    ChannelLookupResult::Stale(entry.registration_id)
                }
            },
        }
    }

    /// The handle through which a worker or a branch of a channel is to be
    /// cancelled, if the channel runs. A stale registration is pruned, and the
    /// lookup made once more; a channel that is then not found has nothing to
    /// cancel.
    fn cancel_target(&mut self, channel_id: &str, alive: &Vec<u64>) -> (target: Result<u64, ControlActionResult>)
        requires
            old(self).well_formed(),
        ensures
            final(self).well_formed(),
            final(self).next_channel_registration == old(self).next_channel_registration,
            match looked_up(old(self).registered(), channel_id@, alive@) {
                ChannelLookupResult::Found(found) => target == Ok::<u64, ControlActionResult>(found) && final(self).registered() == old(self).registered(),
                ChannelLookupResult::Stale(_) => target == Err::<u64, ControlActionResult>(
                    ControlActionResult::NotFound,
                ) && final(self).registered() == old(self).registered().remove(channel_id@),
                ChannelLookupResult::Missing => target == Err::<u64, ControlActionResult>(
                    ControlActionResult::NotFound,
                ) && final(self).registered() == old(self).registered(),
            },
    {
        match self.lookup_channel_handle(channel_id, alive) {
            ChannelLookupResult::Found(handle) => {
                return Ok(handle);
            },
            ChannelLookupResult::Stale(registration_id) => {
                let _ = self.remove_stale_channel_if_matches(channel_id, registration_id);
            },
            ChannelLookupResult::Missing => {
                return Err(ControlActionResult::NotFound);
            },
        }
        match self.lookup_channel_handle(channel_id, alive) {
            ChannelLookupResult::Found(handle) => Ok(handle),
            _ => Err(ControlActionResult::NotFound),
        }
    }

    /// What cancelling a worker of a channel takes.
    pub fn cancel_channel_worker(&mut self, channel_id: &str, worker_id: &str, reason: &str, alive: &Vec<u64>) -> (call:
        Result<CancelCall, ControlActionResult>)
        requires
            old(self).well_formed(),
        ensures
            final(self).well_formed(),
            final(self).next_channel_registration == old(self).next_channel_registration,
            call_of(call) == cancelled_through(
                looked_up(old(self).registered(), channel_id@, alive@),
                ProcessKind::Worker,
                worker_id@,
                reason@,
            ),
            final(self).registered() == after_lookup(old(self).registered(), channel_id@, alive@),
    {
        match self.cancel_target(channel_id, alive) {
            Ok(handle) => Ok(
                CancelCall {
                    handle,
                    kind: ProcessKind::Worker,
                    process_id: worker_id.to_owned(),
                    reason: reason.to_owned(),
                },
            ),
            Err(result) => Err(result),
        }
    }

    /// What cancelling a branch of a channel takes.
    pub fn cancel_channel_branch(&mut self, channel_id: &str, branch_id: &str, reason: &str, alive: &Vec<u64>) -> (call:
        Result<CancelCall, ControlActionResult>)
        requires
            old(self).well_formed(),
        ensures
            final(self).well_formed(),
            final(self).next_channel_registration == old(self).next_channel_registration,
            call_of(call) == cancelled_through(
                looked_up(old(self).registered(), channel_id@, alive@),
                ProcessKind::Branch,
                branch_id@,
                reason@,
            ),
            final(self).registered() == after_lookup(old(self).registered(), channel_id@, alive@),
    {
        match self.cancel_target(channel_id, alive) {
            Ok(handle) => Ok(
                CancelCall {
                    handle,
                    kind: ProcessKind::Branch,
                    process_id: branch_id.to_owned(),
                    reason: reason.to_owned(),
                },
            ),
            Err(result) => Err(result),
        }
    }

    /// Removes a registration, unless the channel was registered anew.
    pub fn remove_stale_channel_if_matches(&mut self, channel_id: &str, expected_registration_id: u64) -> (removed: bool)
        requires
            old(self).well_formed(),
        ensures
            final(self).well_formed(),
            final(self).next_channel_registration == old(self).next_channel_registration,
            removed == (old(self).registered().contains_key(channel_id@) && old(self).registered()[channel_id@]
                == expected_registration_id),
            final(self).registered() == unregistered(
                old(self).registered(),
                channel_id@,
                expected_registration_id,
            ),
    {
        let ghost before = self.channels@;
        let matches = match self.channels.get(channel_id) {
            Some(entry) => entry.registration_id == expected_registration_id,
            None => false,
        };
        if matches {
            let _ = self.channels.remove(channel_id);
            assert(registrations(before.remove(channel_id@)) =~= registrations(before).remove(channel_id@));
        }
        matches
    }
}

// ---------------------------------------------------------------------------
// Laws
// ---------------------------------------------------------------------------

/// A registration made later is not removed by one who still holds an earlier
/// one.
pub proof fn law_a_stale_removal_spares_the_new_registration(
    registered: Map<Seq<char>, u64>,
    channel_id: Seq<char>,
    earlier: u64,
    later: u64,
)
    requires
        earlier != later,
    ensures
        unregistered(registered.insert(channel_id, later), channel_id, earlier) == registered.insert(
            channel_id,
            later,
        ),
{
}

/// Removing a registration twice is the same as once.
pub proof fn law_removal_is_idempotent(registered: Map<Seq<char>, u64>, channel_id: Seq<char>, registration_id: u64)
    ensures
        unregistered(unregistered(registered, channel_id, registration_id), channel_id, registration_id)
            == unregistered(registered, channel_id, registration_id),
{
}

/// A lookup finds a channel that is registered and alive, tells a stale one from
/// a missing one, and a stale one is forgotten by it while every other stays.
pub proof fn law_a_lookup_forgets_only_what_is_gone(
    registered: Map<Seq<char>, u64>,
    channel_id: Seq<char>,
    alive: Seq<u64>,
    other: Seq<char>,
)
    ensures
        looked_up(registered, channel_id, alive) is Missing <==> !registered.contains_key(channel_id),
        looked_up(registered, channel_id, alive) is Found <==> registered.contains_key(channel_id) && alive.contains(
            registered[channel_id],
        ),
        looked_up(registered, channel_id, alive) matches ChannelLookupResult::Found(id) ==> id == registered[channel_id],
        looked_up(registered, channel_id, alive) matches ChannelLookupResult::Stale(id) ==> id == registered[channel_id],
        after_lookup(registered, channel_id, alive).contains_key(channel_id) <==> looked_up(
            registered,
            channel_id,
            alive,
        ) is Found,
        other != channel_id ==> after_lookup(registered, channel_id, alive).contains_key(other)
            == registered.contains_key(other),
        other != channel_id && registered.contains_key(other) ==> after_lookup(registered, channel_id, alive)[other]
            == registered[other],
{
}

/// A cancellation goes to the channel that was found, with the process and the
/// reason it was asked for, and any other lookup ends in nothing to cancel.
pub proof fn law_a_cancellation_reaches_its_channel(
    found: ChannelLookupResult,
    kind: ProcessKind,
    process_id: Seq<char>,
    reason: Seq<char>,
)
    ensures
        found matches ChannelLookupResult::Found(handle) ==> cancelled_through(found, kind, process_id, reason) == Ok::<
            (u64, ProcessKind, Seq<char>, Seq<char>),
            ControlActionResult,
        >((handle, kind, process_id, reason)),
        !(found is Found) ==> cancelled_through(found, kind, process_id, reason) == Err::<
            (u64, ProcessKind, Seq<char>, Seq<char>),
            ControlActionResult,
        >(ControlActionResult::NotFound),
{
}

/// A removal takes the registration it names, and no other channel's.
pub proof fn law_a_removal_takes_its_own_registration(
    registered: Map<Seq<char>, u64>,
    channel_id: Seq<char>,
    registration_id: u64,
    other: Seq<char>,
)
    ensures
        registered.contains_key(channel_id) && registered[channel_id] == registration_id ==> !unregistered(
            registered,
            channel_id,
            registration_id,
        ).contains_key(channel_id),
        registered.contains_key(channel_id) && registered[channel_id] != registration_id ==> unregistered(
            registered,
            channel_id,
            registration_id,
        ) == registered,
        other != channel_id ==> unregistered(registered, channel_id, registration_id).contains_key(other)
            == registered.contains_key(other),
        other != channel_id && registered.contains_key(other) ==> unregistered(registered, channel_id, registration_id)[other]
            == registered[other],
{
}

} // verus!
