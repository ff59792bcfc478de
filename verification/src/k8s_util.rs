//! Following a watched collection of resources: what each event of the
//! watch asks the callbacks to do.

use crate::ArxError;
use vstd::prelude::*;

verus! {

/// What is told when watched resources change.
pub trait ApiWatcherCallbacks<T> {
    /// These resources were added or changed.
    fn apply(&mut self, objs: Vec<T>) -> Result<(), ArxError>;

    /// These resources were deleted.
    fn delete(&mut self, objs: Vec<T>) -> Result<(), ArxError>;
}

/// An event of a watch.
#[derive(Debug)]
pub enum Event<T> {
    /// A resource was added or changed.
    Apply(T),
    /// A resource was deleted.
    Delete(T),
    /// The watch starts over: the resources will be listed anew.
    Init,
    /// One of the resources that are listed anew.
    InitApply(T),
    /// The list is complete.
    InitDone,
}

/// What an event asks for.
#[derive(Debug)]
pub enum WatchStep<T> {
    /// Call `apply` with these resources.
    Apply(Vec<T>),
    /// Call `delete` with these resources.
    Delete(Vec<T>),
    /// Nothing.
    Idle,
}

/// The resources that a step hands to `apply`.
pub open spec fn to_apply<T>(step: WatchStep<T>) -> Option<Seq<T>> {
    match step {
        WatchStep::Apply(objs) => Some(objs@),
        _ => None,
    }
}

/// The resources that a step hands to `delete`.
pub open spec fn to_delete<T>(step: WatchStep<T>) -> Option<Seq<T>> {
    match step {
        WatchStep::Delete(objs) => Some(objs@),
        _ => None,
    }
}

/// Takes one event of the watch, `None` for an error of the watch itself.
///
/// A single change is handed on at once. A list that starts over is
/// collected in `initial` and handed to `apply` as a whole when it is
/// complete. An error of the watch changes nothing.
pub fn api_watcher<T>(initial: &mut Vec<T>, event: Option<Event<T>>) -> (step: WatchStep<T>)
    ensures
        to_apply(step) == (match event {
            Some(Event::Apply(obj)) => Some(seq![obj]),
            Some(Event::InitDone) => Some(old(initial)@),
            _ => None,
        }),
        to_delete(step) == (match event {
            Some(Event::Delete(obj)) => Some(seq![obj]),
            _ => None,
        }),
        final(initial)@ == (match event {
            Some(Event::Init) => Seq::empty(),
            Some(Event::InitDone) => Seq::empty(),
            Some(Event::InitApply(obj)) => old(initial)@.push(obj),
            _ => old(initial)@,
        }),
{
    match event {
        Some(Event::Apply(obj)) => {
            let mut objs: Vec<T> = Vec::new();
            objs.push(obj);
            assert(objs@ =~= seq![obj]);
            WatchStep::Apply(objs)
        },
        Some(Event::Delete(obj)) => {
            let mut objs: Vec<T> = Vec::new();
            objs.push(obj);
            assert(objs@ =~= seq![obj]);
            WatchStep::Delete(objs)
        },
        Some(Event::Init) => {
            *initial = Vec::new();
            WatchStep::Idle
        },
        Some(Event::InitApply(obj)) => {
            initial.push(obj);
            WatchStep::Idle
        },
        Some(Event::InitDone) => {
            let mut objs: Vec<T> = Vec::new();
            std::mem::swap(initial, &mut objs);
            WatchStep::Apply(objs)
        },
        None => WatchStep::Idle,
    }
}

} // verus!
