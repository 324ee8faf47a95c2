//! Fetch addresses, merging of the two listings, and the one-server rule.
use vstd::prelude::*;
use crate::tmp_response::{EventIndex, Response};

verus! {

/// Why a run stops.
#[derive(Clone, Copy, Debug, PartialEq, Eq, Structural)]
pub enum SyncError {
    /// The listing could not be fetched or read.
    Fetch,
    /// The listing API flagged its own answer as an error.
    Upstream,
    /// The bot is connected to no server, or to more than one.
    GuildCount,
    /// The server's scheduled events could not be listed.
    PlatformQuery,
    /// A scheduled event could not be created.
    PlatformPublish,
}

pub open spec fn api_vtc_base() -> Seq<char> {
    "https://api.truckersmp.com/v2/vtc/"@
}

/// Address of the events that an organisation created.
pub open spec fn created_events_address(org: Seq<char>) -> Seq<char> {
    api_vtc_base() + org + "/events"@
}

/// Address of the events that an organisation attends.
pub open spec fn attending_events_address(org: Seq<char>) -> Seq<char> {
    api_vtc_base() + org + "/events/attending"@
}

/// Address of the events that the organisation `org` created.
pub fn events_url(org: &str) -> (r: String)
    ensures
        r@ == created_events_address(org@),
{
    let mut r = String::from_str("https://api.truckersmp.com/v2/vtc/");
    r.append(org);
    r.append("/events");
    assert(r@ =~= created_events_address(org@));
    r
}

/// Address of the events that the organisation `org` attends.
pub fn attending_events_url(org: &str) -> (r: String)
    ensures
        r@ == attending_events_address(org@),
{
    let mut r = String::from_str("https://api.truckersmp.com/v2/vtc/");
    r.append(org);
    r.append("/events/attending");
    assert(r@ =~= attending_events_address(org@));
    r
}

/// The candidate list: the created events, then the attending ones, each in
/// the order received; nothing is dropped. Either answer's error flag
/// rejects both.
pub fn merge_responses(created: Response, attending: Response) -> (r: Result<
    Vec<EventIndex>,
    SyncError,
>)
    ensures
        r is Ok <==> !created.error && !attending.error,
        r matches Ok(v) ==> v@ == created.response@ + attending.response@,
        r matches Err(e) ==> e == SyncError::Upstream,
{
    if created.error || attending.error {
        return Err(SyncError::Upstream);
    }
    let mut events = created.response;
    let mut more = attending.response;
    events.append(&mut more);
    Ok(events)
}

/// The one server that the bot works on: an error unless it is connected to
/// exactly one.
pub fn single_guild(guilds: &Vec<u64>) -> (r: Result<u64, SyncError>)
    ensures
        r is Ok <==> guilds.len() == 1,
        r matches Ok(g) ==> g == guilds@[0],
        r matches Err(e) ==> e == SyncError::GuildCount,
{
    if guilds.len() != 1 {
        return Err(SyncError::GuildCount);
    }
    Ok(guilds[0])
}

} // verus!
