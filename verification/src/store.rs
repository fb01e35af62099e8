use vstd::prelude::*;

use crate::response::resolve_request_path;

verus! {

/// The single slot holding the currently selected video path. It starts
/// empty, a `set` replaces the whole value, and a `get` hands out a copy, so
/// no reader ever observes a partial update. The surrounding application
/// serializes concurrent access to it.
pub struct PathStore {
    current: Option<String>,
}

impl View for PathStore {
    type V = Option<Seq<char>>;

    closed spec fn view(&self) -> Option<Seq<char>> {
        match self.current {
            Some(s) => Some(s@),
            None => None,
        }
    }
}

impl PathStore {
    /// A store with no path selected yet.
    pub fn new() -> (r: PathStore)
        ensures
            r@ is None,
    {
        PathStore { current: None }
    }

    /// Replaces the current path with `path`.
    pub fn set(&mut self, path: String)
        ensures
            final(self)@ == Some(path@),
    {
        self.current = Some(path);
    }

    /// The current path, or nothing when none was ever set.
    pub fn get(&self) -> (r: Option<String>)
        ensures
            match r {
                Some(s) => self@ == Some(s@),
                None => self@ is None,
            },
    {
        match &self.current {
            Some(s) => Some(s.clone()),
            None => None,
        }
    }
}

/// Law: after the current path is set, a request that carries no `path`
/// query of its own is served from exactly that path.
pub fn set_then_resolve(store: &mut PathStore, path: String) -> (r: Option<String>)
    ensures
        final(store)@ == Some(path@),
        r matches Some(q) && q@ == path@,
{
    store.set(path);
    let stored = store.get();
    resolve_request_path(None, stored)
}

} // verus!
