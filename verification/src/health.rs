//! The active health checker's decision logic. A background loop probes
//! every configured upstream once per tick with a GET to the configured
//! path; the probing itself is socket work done outside this crate, and the
//! outcome of each probe is classified and applied to the pool here: only
//! status 200 counts as healthy, a transport failure or any other status
//! marks the upstream dead, and both markings are idempotent.

use vstd::prelude::*;
use crate::pool::UpstreamPool;
use crate::handler::STATUS_OK;

verus! {

/// The outcome of probing one upstream once.
#[derive(Clone, Copy, Debug, PartialEq, Eq, Structural)]
pub enum ProbeOutcome {
    /// The connection to the upstream could not be opened.
    ConnectFailed,
    /// The probe request could not be written, or no response could be read.
    IoFailed,
    /// A response arrived with this status code.
    Status(u16),
}

/// A probe counts as healthy exactly when it answered with status 200.
pub open spec fn probe_healthy(o: ProbeOutcome) -> bool {
    o == ProbeOutcome::Status(STATUS_OK)
}

/// Applies one probe's outcome to the pool: after the call, upstream `i` is
/// alive exactly when the probe was healthy, and the live count has moved
/// with the flag — an upstream already in the probed state stays put and
/// the count does not churn.
pub fn apply_probe_result(pool: &mut UpstreamPool, i: usize, outcome: &ProbeOutcome)
    requires
        old(pool).wf(),
        i < old(pool).upstream_address_flags@.len(),
    ensures
        final(pool).wf(),
        final(pool).same_config(*old(pool)),
        final(pool).rate_limiting_counter == old(pool).rate_limiting_counter,
        final(pool).upstream_address_flags@ == old(pool).upstream_address_flags@.update(
            i as int,
            probe_healthy(*outcome),
        ),
        final(pool).upstream_address_alive_num + (if old(pool).upstream_address_flags@[i as int] {
            1int
        } else {
            0int
        }) == old(pool).upstream_address_alive_num + (if probe_healthy(*outcome) {
            1int
        } else {
            0int
        }),
{
    let healthy = match outcome {
        ProbeOutcome::Status(code) => *code == 200,
        _ => false,
    };
    if healthy {
        pool.mark_alive(i);
    } else {
        pool.mark_dead(i);
    }
}

} // verus!
