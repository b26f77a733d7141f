use vstd::prelude::*;
use crate::registry::{entry_matches, ReceiverEntry, ReceiverId, Registry, Release};

verus! {

/// How long discovery looks for a stream by name before giving up, in ms.
pub const DISCOVERY_WINDOW_MS: u64 = 15_000;

/// How a receiver is reached.
#[derive(Clone, Copy, Debug, PartialEq, Eq, Structural)]
pub enum ConnectPlan {
    /// Connect straight to the configured address; no discovery.
    Direct,
    /// Discover reachable sources and pick the one with the stream's name.
    Discover,
}

/// Why no receiver could be reached.
#[derive(Clone, Copy, Debug, PartialEq, Eq, Structural)]
pub enum ConnectError {
    ConnectionNotFound,
}

/// One round of discovery, given the names advertised so far.
#[derive(Clone, Copy, Debug, PartialEq, Eq, Structural)]
pub enum DiscoveryStep {
    /// The source at this index carries the stream's name.
    Found(usize),
    /// No match yet; look again.
    Wait,
    /// No match within the discovery window.
    NotFound(ConnectError),
}

/// An address given means a direct connection whatever the stream name; an
/// empty one means discovery by name.
pub fn plan_connect(ip: &String) -> (r: ConnectPlan)
    ensures
        r == ConnectPlan::Direct <==> ip@.len() > 0,
        r == ConnectPlan::Discover <==> ip@.len() == 0,
{
    if ip.as_str().is_empty() {
        ConnectPlan::Discover
    } else {
        ConnectPlan::Direct
    }
}

pub open spec fn first_match(sources: Seq<String>, name: Seq<char>, i: int) -> bool {
    &&& 0 <= i < sources.len()
    &&& sources[i]@ == name
    &&& forall|k: int| 0 <= k < i ==> (#[trigger] sources[k])@ != name
}

pub open spec fn any_match(sources: Seq<String>, name: Seq<char>) -> bool {
    exists|k: int| 0 <= k < sources.len() && (#[trigger] sources[k])@ == name
}

/// Decides one round of discovery: the first source whose advertised name
/// equals `stream_name` exactly, else wait while `elapsed_ms` is inside
/// `window_ms`, else give up.
pub fn discovery_step(sources: &Vec<String>, stream_name: &String, elapsed_ms: u64, window_ms: u64) -> (r: DiscoveryStep)
    ensures
        r matches DiscoveryStep::Found(i) ==> first_match(sources@, stream_name@, i as int),
        r is Found <==> any_match(sources@, stream_name@),
        r == DiscoveryStep::Wait <==> (!any_match(sources@, stream_name@) && elapsed_ms < window_ms),
        r == DiscoveryStep::NotFound(ConnectError::ConnectionNotFound)
            <==> (!any_match(sources@, stream_name@) && elapsed_ms >= window_ms),
{
    let mut i: usize = 0;
    while i < sources.len()
        invariant
            i <= sources@.len(),
            forall|k: int| 0 <= k < i ==> (#[trigger] sources@[k])@ != stream_name@,
        decreases sources@.len() - i,
    {
        if sources[i] == *stream_name {
            return DiscoveryStep::Found(i);
        }
        i = i + 1;
    }
    if elapsed_ms < window_ms {
        DiscoveryStep::Wait
    } else {
        DiscoveryStep::NotFound(ConnectError::ConnectionNotFound)
    }
}

/// Finishes a connection attempt for `name` at `ip`: a live receiver serving
/// them is shared; otherwise the connection that was `made` is registered.
/// Returns the receiver id, or zero when nothing could be connected, and the
/// connection that was made but not registered, to be torn down.
pub fn finish_connect<H>(registry: &mut Registry<H>, name: &String, ip: &String, made: Option<H>) -> (res: (ReceiverId, Option<H>))
    requires
        old(registry).wf(),
    ensures
        ({
            let registered = made.is_some() && !old(registry).has_match(name@, ip@) && !old(registry).ids_exhausted();
            &&& registered ==> res.1.is_none()
            &&& !registered ==> res.1 == made
        }),
        final(registry).wf(),
        res.0 != 0 ==> final(registry).has_id(res.0),
        res.0 != 0 ==> final(registry).count_of(res.0) >= 1,
        (made.is_none() && !old(registry).has_match(name@, ip@)) ==> res.0 == 0 && *final(registry) == *old(registry),
        (made.is_some() && !old(registry).has_match(name@, ip@) && !old(registry).ids_exhausted())
            ==> Registry::inserted(*old(registry), *final(registry), name@, ip@, res.0) && final(registry).count_of(res.0) == 1,
        (made.is_some() && !old(registry).has_match(name@, ip@) && old(registry).ids_exhausted())
            ==> res.0 == 0 && *final(registry) == *old(registry),
        (exists|i: int| 0 <= i < old(registry).entries_spec().len()
            && entry_matches(#[trigger] old(registry).entries_spec()[i], name@, ip@)
            && old(registry).entries_spec()[i].ref_count < u32::MAX)
            ==> Registry::acquired(*old(registry), *final(registry), name@, ip@, Some(res.0)),
{
    match registry.acquire(name, ip) {
        Some(id) => {
            proof {
                let oe = old(registry).entries_spec();
                let ne = registry.entries_spec();
                let i = choose|i: int| 0 <= i < oe.len() && entry_matches(#[trigger] oe[i], name@, ip@)
                    && oe[i].id == id && oe[i].ref_count < u32::MAX
                    && ne == oe.update(i, ReceiverEntry { ref_count: (oe[i].ref_count + 1) as u32, ..oe[i] });
                assert(ne[i].id == id);
                crate::registry::lemma_count_at(*registry, i);
            }
            (id, made)
        },
        None => match made {
            None => (0, None),
            Some(h) => match registry.insert(name, ip, h) {
                Ok(id) => {
                    proof {
                        let ne = registry.entries_spec();
                        assert(ne[ne.len() - 1] == ne.last());
                        assert(ne[ne.len() - 1].id == id);
                        assert(ne[ne.len() - 1].ref_count == 1);
                        crate::registry::lemma_count_at(*registry, ne.len() - 1);
                    }
                    (id, None)
                },
                Err((_, h)) => (0, Some(h)),
            },
        },
    }
}

/// Drops one reference to `id`. While others remain the count is one lower
/// and nothing is handed back; at the last one the entry leaves and its handle
/// is handed back for teardown. An unknown or zero id is a no-op.
pub fn disconnect<H>(registry: &mut Registry<H>, id: ReceiverId) -> (r: Option<H>)
    requires
        old(registry).wf(),
    ensures
        final(registry).wf(),
        !old(registry).has_id(id) ==> r.is_none() && *final(registry) == *old(registry),
        (old(registry).has_id(id) && old(registry).count_of(id) == 1)
            ==> r.is_some() && Registry::removed_last(*old(registry), *final(registry), id),
        old(registry).count_of(id) > 1 ==> r.is_none() && Registry::released_shared(*old(registry), *final(registry), id)
            && final(registry).has_id(id) && final(registry).count_of(id) == old(registry).count_of(id) - 1,
        r.is_some() ==> Registry::removed_last(*old(registry), *final(registry), id),
{
    match registry.release(id) {
        Release::Removed(h) => Some(h),
        Release::Shared => None,
        Release::Unknown => None,
    }
}

} // verus!
