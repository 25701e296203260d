//! The editor's "change focus to random entry" command: picks the entry of
//! the current session that the camera focuses on next.

use rand::seq::IteratorRandom;
use vstd::prelude::*;

verus! {

/// Calls `rand::seq::IteratorRandom::choose` on the entry ids, with the
/// thread's random generator. The iterator knows its exact length, so the
/// crate's source returns `None` exactly when there is no entry and
/// otherwise the entry at an index drawn below the length. Which entry is
/// drawn rests on chance and is left unsaid. The thread's generator
/// panics on first use when the system's random source fails, which no
/// argument can rule out.
#[verifier::external_body]
fn choose_entry(entries: &Vec<i32>) -> (r: Option<i32>)
    ensures
        r is None <==> entries@.len() == 0,
        r matches Some(e) ==> entries@.contains(e),
{
    entries.iter().copied().choose(&mut rand::thread_rng())
}

/// The entry to focus on when the user asks for a random one: an entry of
/// the current session, drawn at random, or `None` when there is no
/// session or it has no entry.
pub fn random_focus_entry(current_session: Option<&Vec<i32>>) -> (r: Option<i32>)
    ensures
        r is None <==> (current_session is None || current_session.unwrap()@.len() == 0),
        r matches Some(e) ==> current_session.unwrap()@.contains(e),
{
    match current_session {
        None => None,
        Some(entries) => choose_entry(entries),
    }
}

} // verus!
