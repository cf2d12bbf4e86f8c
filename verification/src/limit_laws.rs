//! The limits and numbers that the library keeps to.

use vstd::prelude::*;

use crate::actions::MASTER_STEP;
use crate::ancestors::{ancestors_of, MAX_ANCESTORS};
use crate::capture::MAX_CAPTURE_SESSIONS;
use crate::cast_frames::{ID_ANY, START_TIMEOUT};
use crate::cast_registry::{MAX_SESSIONS, MAX_SESSIONS_PER_CLIENT};
use crate::cast_session::MAX_STREAMS_PER_SESSION;
use crate::compositor::{MAX_PENDING_DMABUF_BLOCKERS_PER_CLIENT, MAX_PENDING_DMABUF_BLOCKERS_TOTAL};
use crate::portal::{
    CURSOR_MODES, MAX_PORTAL_SESSIONS, PORTAL_VERSION, RESPONSE_CANCELLED, RESPONSE_OTHER_ERROR,
    RESPONSE_SUCCESS, SESSION_VERSION, SOURCE_TYPES, SOURCE_TYPE_MONITOR, SOURCE_TYPE_VIRTUAL,
    SOURCE_TYPE_WINDOW,
};
use crate::resize::EPSILON_BITS;
use crate::services::ACTIVATION_SECONDS;

verus! {

/// A client has at most sixty-four buffers that are waited for, and all clients together a
/// thousand and twenty-four.
pub proof fn law_waiting_buffers_have_limits(per_client: usize, total: usize)
    ensures
        per_client < MAX_PENDING_DMABUF_BLOCKERS_PER_CLIENT <==> per_client <= 63,
        total < MAX_PENDING_DMABUF_BLOCKERS_TOTAL <==> total <= 1023,
{
}

/// Screens are shared in at most thirty-two sessions, of which a client has at most eight,
/// with at most eight streams each; the portal has at most eight sessions, and there are at
/// most sixty-four captures.
pub proof fn law_sharing_has_limits(n: usize)
    ensures
        n < MAX_SESSIONS <==> n <= 31,
        n < MAX_SESSIONS_PER_CLIENT <==> n <= 7,
        n < MAX_STREAMS_PER_SESSION <==> n <= 7,
        n < MAX_PORTAL_SESSIONS <==> n <= 7,
        n < MAX_CAPTURE_SESSIONS <==> n <= 63,
{
}

/// A stream has five seconds to start; until then its node has no number.
pub proof fn law_streams_have_time_to_start(elapsed: u64)
    ensures
        elapsed >= START_TIMEOUT <==> elapsed > 4999,
        ID_ANY == u32::MAX,
{
}

/// A token is good for ten seconds.
pub proof fn law_tokens_are_good_for_a_while(age: u64)
    ensures
        age >= ACTIVATION_SECONDS <==> age > 9,
{
}

/// No more than sixteen ancestors of a process are looked at.
pub proof fn law_few_ancestors_are_looked_at(statuses: Seq<Option<Seq<char>>>)
    ensures
        ancestors_of(statuses, MAX_ANCESTORS as nat).len() <= 16,
        MAX_ANCESTORS == 16,
{
    crate::session_laws::law_ancestors_have_a_limit(statuses, MAX_ANCESTORS as nat);
}

/// The portal shares outputs, windows and the virtual display, each by a bit of its own, and
/// answers by number.
pub proof fn law_the_portal_speaks_in_numbers()
    ensures
        SOURCE_TYPE_MONITOR == 1 && SOURCE_TYPE_WINDOW == 2 && SOURCE_TYPE_VIRTUAL == 4,
        SOURCE_TYPES == SOURCE_TYPE_MONITOR + SOURCE_TYPE_WINDOW + SOURCE_TYPE_VIRTUAL,
        CURSOR_MODES == 3,
        RESPONSE_SUCCESS == 0 && RESPONSE_CANCELLED == 1 && RESPONSE_OTHER_ERROR == 2,
        PORTAL_VERSION == 3 && SESSION_VERSION == 1,
{
}

/// The master grows and shrinks by a twentieth, as near as single precision holds one; what
/// moves a split by less than its smallest step does not move it.
pub proof fn law_the_master_moves_by_a_twentieth(magnitude: u32)
    ensures
        0x10_0000_0000_0000 <= 20 * MASTER_STEP <= 0x10_0000_0000_0000 + 0x400_0000,
        magnitude > EPSILON_BITS <==> magnitude >= 0x3400_0001,
{
}

} // verus!
