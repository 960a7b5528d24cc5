//! The choice of a port for the engine.
use vstd::prelude::*;

verus! {

/// How many ports are tried beyond the preferred one.
pub const PORTS_TO_TRY: u16 = 256;

/// Whether `found` is the lowest port from `start` on, among those that are tried, that `in_use`
/// may report free. None is found only if `in_use` may report each of them taken.
pub open spec fn lowest_free<F: Fn(u16) -> bool>(
    in_use: F,
    start: u16,
    found: Option<u16>,
) -> bool {
    match found {
        Some(p) => {
            &&& start <= p < start + PORTS_TO_TRY
            &&& in_use.ensures((p,), false)
            &&& forall|q: u16| start <= q < p ==> #[trigger] in_use.ensures((q,), true)
        },
        None => forall|q: u16|
            start <= q < start + PORTS_TO_TRY ==> #[trigger] in_use.ensures((q,), true),
    }
}

/// The first free port from `start` on. Ports are probed one after the other, no further than the
/// free one, and no further than the last port that there is.
pub fn next_free_port<F: Fn(u16) -> bool>(start: u16, in_use: F) -> (found: Option<u16>)
    requires
        forall|p: u16| in_use.requires((p,)),
    ensures
        lowest_free(in_use, start, found),
{
    let mut p: u16 = start;
    let mut tried: u16 = 0;
    while tried < PORTS_TO_TRY
        invariant
            tried <= PORTS_TO_TRY,
            p == start + tried,
            forall|q: u16| in_use.requires((q,)),
            forall|q: u16| start <= q < p ==> #[trigger] in_use.ensures((q,), true),
        decreases PORTS_TO_TRY - tried,
    {
        if !in_use(p) {
            return Some(p);
        }
        if p == u16::MAX {
            return None;
        }
        p = p + 1;
        tried = tried + 1;
    }
    None
}

/// Whether `chosen` is the preferred port, where `in_use` may report it free, or else the next
/// free one. None lies above the last port.
pub open spec fn choice<F: Fn(u16) -> bool>(in_use: F, prefer: u16, chosen: Option<u16>) -> bool {
    ||| in_use.ensures((prefer,), false) && chosen == Some(prefer)
    ||| {
        &&& in_use.ensures((prefer,), true)
        &&& if prefer < u16::MAX {
            lowest_free(in_use, (prefer + 1) as u16, chosen)
        } else {
            chosen is None
        }
    }
}

/// The port to run the engine on: the preferred one, or the next free one after it.
pub fn choose_port<F: Fn(u16) -> bool>(prefer: u16, in_use: F) -> (chosen: Option<u16>)
    requires
        forall|p: u16| in_use.requires((p,)),
    ensures
        choice(in_use, prefer, chosen),
{
    if !in_use(prefer) {
        Some(prefer)
    } else if prefer < u16::MAX {
        next_free_port(prefer + 1, in_use)
    } else {
        None
    }
}

/// A port that is chosen was reported free, and it is the preferred one unless that was reported
/// taken.
pub proof fn law_chosen_port_is_free<F: Fn(u16) -> bool>(in_use: F, prefer: u16, port: u16)
    requires
        choice(in_use, prefer, Some(port)),
    ensures
        in_use.ensures((port,), false),
        port == prefer || in_use.ensures((prefer,), true),
        prefer <= port <= prefer + PORTS_TO_TRY,
{
}

/// Where every port always gets the same answer, the search from `start` on finds the lowest of
/// the 256 ports from there that is free, and none only if all of them are taken.
pub proof fn law_lowest_free_port_is_found<F: Fn(u16) -> bool>(
    in_use: F,
    taken: spec_fn(u16) -> bool,
    start: u16,
    found: Option<u16>,
)
    requires
        forall|p: u16, b: bool| #[trigger] in_use.ensures((p,), b) ==> b == taken(p),
        lowest_free(in_use, start, found),
    ensures
        found matches Some(p) ==> !taken(p) && start <= p <= start + 255 && forall|q: u16|
            start <= q < p ==> #[trigger] taken(q),
        found is None ==> forall|q: u16| start <= q <= start + 255 ==> #[trigger] taken(q),
{
    assert forall|q: u16| in_use.ensures((q,), true) implies #[trigger] taken(q) by {}
    match found {
        Some(p) => {
            assert forall|q: u16| start <= q < p implies #[trigger] taken(q) by {
                assert(in_use.ensures((q,), true));
            }
        },
        None => {
            assert forall|q: u16| start <= q <= start + 255 implies #[trigger] taken(q) by {
                assert(in_use.ensures((q,), true));
            }
        },
    }
}

/// Where every port always gets the same answer, the preferred port is chosen if it is free. If
/// it is taken, the lowest free one of the 256 above it is; and none only if all of these are
/// taken too.
pub proof fn law_preferred_or_next_free_port<F: Fn(u16) -> bool>(
    in_use: F,
    taken: spec_fn(u16) -> bool,
    prefer: u16,
    chosen: Option<u16>,
)
    requires
        forall|p: u16, b: bool| #[trigger] in_use.ensures((p,), b) ==> b == taken(p),
        choice(in_use, prefer, chosen),
    ensures
        !taken(prefer) ==> chosen == Some(prefer),
        chosen matches Some(p) ==> !taken(p) && prefer <= p <= prefer + 256 && forall|q: u16|
            prefer <= q < p ==> #[trigger] taken(q),
        chosen is None ==> forall|q: u16| prefer <= q <= prefer + 256 ==> #[trigger] taken(q),
{
    if !in_use.ensures((prefer,), false) || chosen != Some(prefer) {
        if prefer < u16::MAX {
            law_lowest_free_port_is_found(in_use, taken, (prefer + 1) as u16, chosen);
        }
    }
}

} // verus!
