//! The hook registry: an ordered, append-only collection of named callbacks.

use vstd::prelude::*;

verus! {

/// A named, zero-argument callback unit, registered for later invocation by
/// name. The callback returns success or a descriptive failure message.
pub struct Hook<F> {
    /// The non-empty name under which the hook was registered.
    pub name: String,
    /// The zero-argument callback to run when the hook is dispatched.
    pub callback: F,
}

/// The ordered collection of all registered hooks. Insertion order is
/// preserved and determines which entry wins when names collide: the
/// earliest-registered hook of a given name is the one dispatch selects.
pub struct Registry<F> {
    hooks: Vec<Hook<F>>,
}

impl<F> View for Registry<F> {
    type V = Seq<Hook<F>>;

    closed spec fn view(&self) -> Seq<Hook<F>> {
        self.hooks@
    }
}

impl<F> Registry<F> {
    /// Well-formedness: every registered hook carries a non-empty name.
    pub open spec fn wf(&self) -> bool {
        forall|i: int| 0 <= i < self@.len() ==> #[trigger] self@[i].name@.len() > 0
    }

    /// Creates an empty registry.
    pub fn new() -> (r: Registry<F>)
        ensures
            r@ == Seq::<Hook<F>>::empty(),
            r.wf(),
    {
        Registry { hooks: Vec::new() }
    }

    /// Appends a hook under `name`. No uniqueness check is performed:
    /// duplicate names are permitted and resolved at dispatch time by
    /// registration order. Registration only grows the sequence by one
    /// entry; the callback is stored, never invoked.
    pub fn register(&mut self, name: String, callback: F)
        requires
            name@.len() > 0,
        ensures
            final(self)@ == old(self)@.push((Hook { name, callback })),
            old(self).wf() ==> final(self).wf(),
    {
        self.hooks.push(Hook { name, callback });
        proof {
            if old(self).wf() {
                assert forall|i: int| 0 <= i < self@.len() implies #[trigger] self@[i].name@.len()
                    > 0 by {
                    if i < old(self)@.len() {
                        assert(old(self)@[i].name@.len() > 0);
                    } else {
                        assert(self@[i].name@ == name@);
                    }
                }
            }
        }
    }

    /// All registered hooks, in registration order. Read-only: the result is
    /// fully determined by the registry's current contents, so repeated calls
    /// without an intervening `register` yield the identical sequence.
    pub fn entries(&self) -> (r: &Vec<Hook<F>>)
        ensures
            r@ == self@,
    {
        &self.hooks
    }
}

} // verus!
