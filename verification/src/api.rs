use vstd::prelude::*;
use vstd::string::*;
use crate::catalog::RouteCatalog;
use crate::parse::{is_i64_literal, literal_value, parse_i64};
use crate::position::Position;
use crate::store::PositionStore;
use crate::time::now_millis;

verus! {

/// The acknowledgement body for a stored position.
pub fn msg_position_saved() -> (r: String)
    ensures
        r@ == "Position enregistrée"@,
{
    "Position enregistrée".to_owned()
}

/// The error body for a vehicle identifier absent from the store.
pub fn msg_bus_not_found() -> (r: String)
    ensures
        r@ == "Bus introuvable"@,
{
    "Bus introuvable".to_owned()
}

/// The error body for a route path segment that is not an integer.
pub fn msg_invalid_line_code() -> (r: String)
    ensures
        r@ == "Code ligne invalide"@,
{
    "Code ligne invalide".to_owned()
}

/// The error body for a line code no feature of the catalog carries.
pub fn msg_line_not_found() -> (r: String)
    ensures
        r@ == "Ligne non trouvée"@,
{
    "Ligne non trouvée".to_owned()
}

/// The acknowledgement text for a stopped sharing session.
pub open spec fn stop_message_of(id: Seq<char>) -> Seq<char> {
    "Partage arrêté pour le bus "@ + id
}

/// Builds the stop-sharing acknowledgement for one vehicle.
pub fn stop_message(id: &str) -> (r: String)
    ensures
        r@ == stop_message_of(id@),
{
    let mut m = "Partage arrêté pour le bus ".to_owned();
    m.append(id);
    m
}

/// The static service descriptor served at the root path: name, version,
/// status and the endpoint list, as one JSON document.
pub open spec fn descriptor_text() -> Seq<char> {
    "{\"message\":\"API de suivi de bus en temps réel\",\"version\":\"1.0\",\"status\":\"active\",\"endpoints\":{\"get_position\":\"GET /api/position/{bus_number}\",\"post_position\":\"POST /api/position\",\"stop_sharing\":\"POST /api/stopSharing\",\"get_line\":\"GET /api/line/{bus_number}\"}}"@
}

/// Returns the service descriptor; it never touches any state.
pub fn service_descriptor() -> (r: String)
    ensures
        r@ == descriptor_text(),
{
    "{\"message\":\"API de suivi de bus en temps réel\",\"version\":\"1.0\",\"status\":\"active\",\"endpoints\":{\"get_position\":\"GET /api/position/{bus_number}\",\"post_position\":\"POST /api/position\",\"stop_sharing\":\"POST /api/stopSharing\",\"get_line\":\"GET /api/line/{bus_number}\"}}".to_owned()
}

/// Stores a submitted position under the vehicle identifier, stamped with
/// the server clock at write time; any client-supplied timestamp is
/// ignored.  The returned position is the one now in the store.
pub fn submit_position(
    store: &mut PositionStore,
    id: String,
    latitude_bits: u64,
    longitude_bits: u64,
) -> (p: Position)
    requires
        old(store).wf(),
    ensures
        final(store).wf(),
        p.latitude_bits == latitude_bits,
        p.longitude_bits == longitude_bits,
        final(store)@ == old(store)@.insert(id@, p),
{
    let ts = now_millis();
    store.upsert(id, latitude_bits, longitude_bits, ts)
}

/// Ends a vehicle's sharing session: removes its entry and acknowledges,
/// or reports that there was nothing to stop.
pub fn stop_sharing(store: &mut PositionStore, id: &String) -> (r: Option<String>)
    requires
        old(store).wf(),
    ensures
        final(store).wf(),
        final(store)@ == old(store)@.remove(id@),
        match r {
            Some(m) => old(store)@.contains_key(id@) && m@ == stop_message_of(id@),
            None => !old(store)@.contains_key(id@),
        },
{
    if store.remove(id) {
        Some(stop_message(id.as_str()))
    } else {
        None
    }
}

/// Outcome of a route lookup for a raw path segment.
pub enum LineLookup {
    /// The segment is not a decimal integer: a client error, distinct from
    /// an unknown code.
    InvalidCode,
    /// The segment parsed, but no feature of the catalog carries the code.
    NotFound,
    /// The first feature carrying the code, by its index in the catalog.
    Found(usize),
}

/// Looks a route up by the raw path segment: parses it as an integer code,
/// then scans the catalog in load order for the first feature carrying it.
pub fn lookup_line(catalog: &RouteCatalog, raw: &str) -> (r: LineLookup)
    ensures
        match r {
            LineLookup::InvalidCode => !is_i64_literal(raw.spec_bytes()),
            LineLookup::NotFound => {
                &&& is_i64_literal(raw.spec_bytes())
                &&& !catalog.has_code(literal_value(raw.spec_bytes()) as i64)
            },
            LineLookup::Found(i) => {
                &&& is_i64_literal(raw.spec_bytes())
                &&& i < catalog.features@.len()
                &&& catalog.features@[i as int].code == Some(
                    literal_value(raw.spec_bytes()) as i64,
                )
                &&& forall|j: int|
                    0 <= j < i ==> catalog.features@[j].code != Some(
                        literal_value(raw.spec_bytes()) as i64,
                    )
            },
        },
{
    match parse_i64(raw) {
        None => LineLookup::InvalidCode,
        Some(code) => match catalog.find_by_code(code) {
            Some(i) => LineLookup::Found(i),
            None => LineLookup::NotFound,
        },
    }
}

} // verus!
