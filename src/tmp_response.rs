//! The records that the event listing API returns.
use vstd::prelude::*;

verus! {

/// One answer of the event listing API: an error flag and a list of events.
#[derive(Clone, Debug, PartialEq, Eq)]
pub struct Response {
    pub error: bool,
    pub response: Vec<EventIndex>,
}

/// One event of the listing.
#[derive(Clone, Debug, PartialEq, Eq)]
pub struct EventIndex {
    pub id: u64,
    pub name: String,
    pub departure: Location,
    /// Start, as `YYYY-MM-DD HH:MM:SS` with no time zone.
    pub start_at: String,
    pub banner: Option<String>,
    pub description: String,
    /// Path of the event's page, below the site's base address.
    pub url: String,
}

/// Where an event sets off.
#[derive(Clone, Debug, PartialEq, Eq)]
pub struct Location {
    pub city: String,
}

impl Response {
    pub fn new(error: bool, response: Vec<EventIndex>) -> (r: Response)
        ensures
            r.error == error,
            r.response == response,
    {
        Response { error, response }
    }

    pub fn error(&self) -> (r: &bool)
        ensures
            *r == self.error,
    {
        &self.error
    }

    pub fn response(&self) -> (r: &Vec<EventIndex>)
        ensures
            *r == self.response,
    {
        &self.response
    }
}

impl EventIndex {
    pub fn new(
        id: u64,
        name: String,
        departure: Location,
        start_at: String,
        banner: Option<String>,
        description: String,
        url: String,
    ) -> (r: EventIndex)
        ensures
            r == (EventIndex { id, name, departure, start_at, banner, description, url }),
    {
        EventIndex { id, name, departure, start_at, banner, description, url }
    }

    pub fn id(&self) -> (r: &u64)
        ensures
            *r == self.id,
    {
        &self.id
    }

    pub fn name(&self) -> (r: &String)
        ensures
            *r == self.name,
    {
        &self.name
    }

    pub fn departure(&self) -> (r: &Location)
        ensures
            *r == self.departure,
    {
        &self.departure
    }

    pub fn start_at(&self) -> (r: &String)
        ensures
            *r == self.start_at,
    {
        &self.start_at
    }

    pub fn banner(&self) -> (r: &Option<String>)
        ensures
            *r == self.banner,
    {
        &self.banner
    }

    pub fn description(&self) -> (r: &String)
        ensures
            *r == self.description,
    {
        &self.description
    }

    pub fn url(&self) -> (r: &String)
        ensures
            *r == self.url,
    {
        &self.url
    }
}

impl Location {
    pub fn new(city: String) -> (r: Location)
        ensures
            r.city == city,
    {
        Location { city }
    }

    pub fn city(&self) -> (r: &String)
        ensures
            *r == self.city,
    {
        &self.city
    }
}

} // verus!
