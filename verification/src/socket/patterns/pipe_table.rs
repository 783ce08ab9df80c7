use vstd::prelude::*;

use dashmap::DashMap;

use crate::message::Msg;

verus! {

/// A concurrent map of the `dashmap` crate.
#[verifier::external_type_specification]
#[verifier::external_body]
#[verifier::reject_recursive_types(K)]
#[verifier::reject_recursive_types(V)]
#[verifier::reject_recursive_types(S)]
pub struct ExDashMap<K, V, S>(DashMap<K, V, S>);

/// The frames that a table holds, by pipe.
pub uninterp spec fn partial_frames(table: DashMap<usize, Vec<Msg>>) -> Map<usize, Seq<Msg>>;

/// The identities that a table holds, by pipe.
pub uninterp spec fn identities(table: DashMap<usize, Vec<u8>>) -> Map<usize, Seq<u8>>;

/// `dashmap::DashMap::new`, for frames: a table that holds nothing.
#[verifier::external_body]
pub(crate) fn frames_new() -> (t: DashMap<usize, Vec<Msg>>)
    ensures
        partial_frames(t).dom() == Set::<usize>::empty(),
{
    DashMap::new()
}

/// `dashmap::DashMap::insert`, for frames: sets what a pipe has, in place of what it
/// had.
#[verifier::external_body]
pub(crate) fn frames_insert(table: &mut DashMap<usize, Vec<Msg>>, pipe: usize, frames: Vec<Msg>)
    ensures
        partial_frames(*final(table)) == partial_frames(*old(table)).insert(pipe, frames@),
{
    let _ = table.insert(pipe, frames);
}

/// `dashmap::DashMap::remove`, for frames: takes what a pipe has.
#[verifier::external_body]
pub(crate) fn frames_remove(table: &mut DashMap<usize, Vec<Msg>>, pipe: usize) -> (r: Option<
    Vec<Msg>,
>)
    ensures
        partial_frames(*final(table)) == partial_frames(*old(table)).remove(pipe),
        match r {
            Some(v) => partial_frames(*old(table)).dom().contains(pipe) && v@ == partial_frames(
                *old(table),
            )[pipe],
            None => !partial_frames(*old(table)).dom().contains(pipe),
        },
{
    table.remove(&pipe).map(|entry| entry.1)
}

/// `dashmap::DashMap::clear`, for frames: takes everything away.
#[verifier::external_body]
pub(crate) fn frames_clear(table: &mut DashMap<usize, Vec<Msg>>)
    ensures
        partial_frames(*final(table)).dom() == Set::<usize>::empty(),
{
    table.clear()
}

/// `dashmap::DashMap::new`, for identities: a table that holds nothing.
#[verifier::external_body]
pub(crate) fn identities_new() -> (t: DashMap<usize, Vec<u8>>)
    ensures
        identities(t).dom() == Set::<usize>::empty(),
{
    DashMap::new()
}

/// `dashmap::DashMap::insert`, for identities: sets the identity of a pipe's peer, in
/// place of an earlier one.
#[verifier::external_body]
pub(crate) fn identities_insert(
    table: &mut DashMap<usize, Vec<u8>>,
    pipe: usize,
    identity: Vec<u8>,
)
    ensures
        identities(*final(table)) == identities(*old(table)).insert(pipe, identity@),
{
    let _ = table.insert(pipe, identity);
}

/// `dashmap::DashMap::remove`, for identities: forgets a pipe.
#[verifier::external_body]
pub(crate) fn identities_remove(table: &mut DashMap<usize, Vec<u8>>, pipe: usize)
    ensures
        identities(*final(table)) == identities(*old(table)).remove(pipe),
{
    let _ = table.remove(&pipe);
}

/// `dashmap::DashMap::get`, for identities: a copy of the identity of a pipe's peer.
#[verifier::external_body]
pub(crate) fn identities_get(table: &DashMap<usize, Vec<u8>>, pipe: usize) -> (r: Option<Vec<u8>>)
    ensures
        match r {
            Some(v) => identities(*table).dom().contains(pipe) && v@ == identities(*table)[pipe],
            None => !identities(*table).dom().contains(pipe),
        },
{
    table.get(&pipe).map(|entry| entry.value().to_vec())
}

} // verus!
