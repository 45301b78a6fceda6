//! The dispatcher: resolves a requested name to the earliest-registered
//! matching hook and invokes its callback.

use vstd::prelude::*;
use crate::registry::Hook;
use crate::registry::Registry;

verus! {

/// A failure reported by `dispatch`.
#[derive(Debug, PartialEq, Eq)]
pub enum DispatchError {
    /// The requested name matches no registered hook; carries that name.
    UnknownHook(String),
    /// The matched hook's callback itself reported a failure; carries the
    /// callback's own descriptive message, unchanged.
    CallbackFailure(String),
}

/// The hook at index `i` of `reg` carries the name `name`.
pub open spec fn matches_at<F>(reg: Seq<Hook<F>>, name: Seq<char>, i: int) -> bool {
    0 <= i < reg.len() && reg[i].name@ == name
}

/// Some registered hook carries the name `name`.
pub open spec fn has_hook<F>(reg: Seq<Hook<F>>, name: Seq<char>) -> bool {
    exists|i: int| matches_at(reg, name, i)
}

/// Index `i` holds the earliest-registered hook named `name`: it matches,
/// and no entry before it does.
pub open spec fn is_first_match<F>(reg: Seq<Hook<F>>, name: Seq<char>, i: int) -> bool {
    matches_at(reg, name, i) && (forall|j: int| 0 <= j < i ==> reg[j].name@ != name)
}

/// Law: when hooks share a name, the first match is the earliest-registered
/// one. Every index that matches `name` lies at or after the first match.
pub proof fn lemma_first_match_is_earliest<F>(reg: Seq<Hook<F>>, name: Seq<char>, k: int, i: int)
    requires
        is_first_match(reg, name, k),
        matches_at(reg, name, i),
    ensures
        k <= i,
        reg[k].name@ == name,
{
}

/// Law: a registry holds at most one first match for a given name, so the
/// hook that `dispatch` selects is uniquely determined.
pub proof fn lemma_first_match_unique<F>(reg: Seq<Hook<F>>, name: Seq<char>, i: int, j: int)
    requires
        is_first_match(reg, name, i),
        is_first_match(reg, name, j),
    ensures
        i == j,
{
    lemma_first_match_is_earliest(reg, name, i, j);
    lemma_first_match_is_earliest(reg, name, j, i);
}

/// Law: whenever some hook matches `name`, an earliest-registered match
/// exists, so `dispatch` never answers `UnknownHook` for a registered name.
pub proof fn lemma_first_match_exists<F>(reg: Seq<Hook<F>>, name: Seq<char>)
    requires
        has_hook(reg, name),
    ensures
        exists|i: int| #[trigger] is_first_match(reg, name, i),
    decreases reg.len(),
{
    let w = choose|i: int| matches_at(reg, name, i);
    if reg[0].name@ == name {
        assert(is_first_match(reg, name, 0));
    } else {
        let sub = reg.subrange(1, reg.len() as int);
        assert(matches_at(sub, name, w - 1));
        lemma_first_match_exists(sub, name);
        let k = choose|i: int| #[trigger] is_first_match(sub, name, i);
        assert(is_first_match(reg, name, k + 1)) by {
            assert(reg[k + 1].name@ == name);
            assert forall|j: int| 0 <= j < k + 1 implies reg[j].name@ != name by {
                if j > 0 {
                    assert(sub[j - 1].name@ != name);
                }
            }
        };
    }
}

/// Scans the registry in registration order and invokes the callback of the
/// first hook whose name equals `name` (exact, case-sensitive equality).
///
/// On a match, the callback's own result is propagated unchanged: `Ok(())`
/// stays `Ok(())`, and a failure message `m` comes back as
/// `CallbackFailure(m)`. When no entry matches, no callback is invoked and
/// the result is `UnknownHook` carrying the requested name.
pub fn dispatch<F: Fn() -> Result<(), String>>(name: String, registry: &Registry<F>) -> (r: Result<
    (),
    DispatchError,
>)
    requires
        forall|i: int|
            0 <= i < registry@.len() ==> call_requires(#[trigger] registry@[i].callback, ()),
    ensures
        match r {
            Ok(()) => exists|i: int|
                #[trigger] is_first_match(registry@, name@, i) && call_ensures(
                    registry@[i].callback,
                    (),
                    Ok::<(), String>(()),
                ),
            Err(e) => match e {
                DispatchError::UnknownHook(n) => n == name && !has_hook(registry@, name@),
                DispatchError::CallbackFailure(m) => exists|i: int|
                    #[trigger] is_first_match(registry@, name@, i) && call_ensures(
                        registry@[i].callback,
                        (),
                        Err::<(), String>(m),
                    ),
            },
        },
        (r matches Err(DispatchError::UnknownHook(_))) <==> !has_hook(registry@, name@),
{
    let hooks = registry.entries();
    let n = hooks.len();
    let mut idx: usize = 0;
    while idx < n
        invariant
            n == registry@.len(),
            hooks@ == registry@,
            idx <= n,
            forall|i: int|
                0 <= i < registry@.len() ==> call_requires(#[trigger] registry@[i].callback, ()),
            forall|j: int| 0 <= j < idx ==> registry@[j].name@ != name@,
        decreases n - idx,
    {
        let hook = &hooks[idx];
        if hook.name == name {
            assert(is_first_match(registry@, name@, idx as int));
            let out = (hook.callback)();
            proof {
                assert(hooks@[idx as int] == registry@[idx as int]);
            }
            match out {
                Ok(u) => {
                    assert(call_ensures(registry@[idx as int].callback, (), Ok::<(), String>(u)));
                    return Ok(());
                },
                Err(m) => {
                    assert(call_ensures(registry@[idx as int].callback, (), Err::<(), String>(m)));
                    return Err(DispatchError::CallbackFailure(m));
                },
            }
        }
        idx += 1;
    }
    assert(!has_hook(registry@, name@)) by {
        assert(forall|i: int| 0 <= i < registry@.len() ==> registry@[i].name@ != name@);
    };
    Err(DispatchError::UnknownHook(name))
}

} // verus!
