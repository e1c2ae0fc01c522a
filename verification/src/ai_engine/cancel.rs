//! The registry of cancellable AI operations, keyed by the id the frontend
//! chose. The registry decides which ids are accepted, when it is full, which
//! token a cancellation reaches and what a finished operation removes; the
//! token itself (a flag and a wake-up) is the application's, so the registry
//! is generic over it.

use vstd::prelude::*;
use crate::text::{ascii_alnum, is_ascii_alnum, str_eq, string_from_str, to_chars};

verus! {

/// Ids come from the frontend and are untrusted: a bounded shape keeps the
/// registry from filling with arbitrary strings.
pub const MAX_ID_LEN: usize = 64;

pub const MIN_ID_LEN: usize = 8;

/// One operation per instrument in flight is the realistic worst case; well
/// above that means entries are not being released, and the cap keeps the
/// registry bounded whatever the cause.
pub const MAX_ACTIVE_OPERATIONS: usize = 32;

pub open spec fn id_char_ok(c: char) -> bool {
    is_ascii_alnum(c) || c == '-'
}

/// 8 to 64 characters, each an ASCII letter, digit or `-`. (Every accepted
/// character is one byte, so the count is also the length in bytes.)
pub open spec fn spec_is_valid_operation_id(id: Seq<char>) -> bool {
    &&& MIN_ID_LEN <= id.len() <= MAX_ID_LEN
    &&& forall|k: int| 0 <= k < id.len() ==> id_char_ok(#[trigger] id[k])
}

pub fn is_valid_operation_id(id: &str) -> (r: bool)
    ensures
        r == spec_is_valid_operation_id(id@),
{
    let chars = to_chars(id);
    let n = chars.len();
    if n < MIN_ID_LEN || n > MAX_ID_LEN {
        return false;
    }
    let mut i: usize = 0;
    while i < n
        invariant
            n == chars@.len(),
            chars@ == id@,
            i <= n,
            forall|k: int| 0 <= k < i ==> id_char_ok(#[trigger] chars@[k]),
        decreases n - i,
    {
        let c = chars[i];
        if !(ascii_alnum(c) || c == '-') {
            assert(!id_char_ok(chars@[i as int]));
            return false;
        }
        i = i + 1;
    }
    true
}

/// What a registration leaves behind for the end of the operation: the id to
/// release, or nothing when the operation runs uncancellable.
pub struct OperationGuard {
    pub id: Option<String>,
}

/// The operations that can currently be cancelled, each with the token a
/// cancellation must reach.
pub struct OperationRegistry<T> {
    entries: Vec<(String, T)>,
}

impl<T> OperationRegistry<T> {
    /// The registered ids, in registration order.
    pub closed spec fn ids(&self) -> Seq<Seq<char>> {
        self.entries@.map_values(|e: (String, T)| e.0@)
    }

    /// The registered tokens, in the order of `ids`.
    pub closed spec fn tokens(&self) -> Seq<T> {
        self.entries@.map_values(|e: (String, T)| e.1)
    }

    /// Every id is well-formed and registered once, and the registry is
    /// within its cap.
    pub closed spec fn wf(&self) -> bool {
        &&& self.ids().len() <= MAX_ACTIVE_OPERATIONS
        &&& forall|i: int| 0 <= i < self.ids().len() ==> spec_is_valid_operation_id(#[trigger] self.ids()[i])
        &&& forall|i: int, j: int| 0 <= i < j < self.ids().len() ==> #[trigger] self.ids()[i] != #[trigger] self.ids()[j]
    }

    pub open spec fn len_spec(&self) -> nat {
        self.ids().len()
    }

    pub open spec fn holds(&self, id: Seq<char>) -> bool {
        self.ids().contains(id)
    }

    pub fn new() -> (r: Self)
        ensures
            r.wf(),
            r.ids() == Seq::<Seq<char>>::empty(),
            r.tokens() == Seq::<T>::empty(),
    {
        let r = OperationRegistry { entries: Vec::new() };
        assert(r.ids() =~= Seq::<Seq<char>>::empty());
        assert(r.tokens() =~= Seq::<T>::empty());
        r
    }

    /// Number of operations that can currently be cancelled.
    pub fn len(&self) -> (n: usize)
        ensures
            n == self.ids().len(),
    {
        self.entries.len()
    }

    /// Position of `id` among the registered ids.
    fn position(&self, id: &str) -> (r: Option<usize>)
        requires
            self.wf(),
        ensures
            match r {
                Some(i) => i < self.ids().len() && self.ids()[i as int] == id@,
                None => !self.ids().contains(id@),
            },
    {
        let n = self.entries.len();
        let mut i: usize = 0;
        while i < n
            invariant
                n == self.entries@.len(),
                n == self.ids().len(),
                i <= n,
                forall|k: int| 0 <= k < i ==> self.ids()[k] != id@,
            decreases n - i,
        {
            if str_eq(self.entries[i].0.as_str(), id) {
                return Some(i);
            }
            i = i + 1;
        }
        assert forall|k: int| 0 <= k < self.ids().len() implies self.ids()[k] != id@ by {}
        None
    }

    /// Registers a cancellable operation under `operation_id`. A malformed id,
    /// or a new id while the registry is full, leaves the registry as it was
    /// and yields an empty guard: the operation still runs, it just cannot be
    /// interrupted. An id that is already registered gets the new token.
    pub fn register(&mut self, operation_id: &str, token: T) -> (guard: OperationGuard)
        requires
            old(self).wf(),
        ensures
            final(self).wf(),
            !spec_is_valid_operation_id(operation_id@) ==> guard.id is None && final(self).ids()
                == old(self).ids() && final(self).tokens() == old(self).tokens(),
            spec_is_valid_operation_id(operation_id@) && !old(self).holds(operation_id@)
                && old(self).ids().len() >= MAX_ACTIVE_OPERATIONS ==> guard.id is None
                && final(self).ids() == old(self).ids() && final(self).tokens() == old(
                self,
            ).tokens(),
            spec_is_valid_operation_id(operation_id@) && !old(self).holds(operation_id@)
                && old(self).ids().len() < MAX_ACTIVE_OPERATIONS ==> (guard.id matches Some(g)
                && g@ == operation_id@) && final(self).ids() == old(self).ids().push(operation_id@)
                && final(self).tokens() == old(self).tokens().push(token),
            spec_is_valid_operation_id(operation_id@) && old(self).holds(operation_id@) ==> (
            guard.id matches Some(g) && g@ == operation_id@) && final(self).ids() == old(self).ids()
                && final(self).tokens() == old(self).tokens().update(
                old(self).ids().index_of(operation_id@),
                token,
            ),
            guard.id is Some ==> final(self).holds(operation_id@)
                && final(self).tokens()[final(self).ids().index_of(operation_id@)] == token,
    {
        if !is_valid_operation_id(operation_id) {
            return OperationGuard { id: None };
        }
        match self.position(operation_id) {
            Some(i) => {
                proof {
                    self.ids().index_of_first_ensures(operation_id@);
                }
                self.entries.set(i, (string_from_str(operation_id), token));
                assert(self.ids() =~= old(self).ids());
                proof {
                    let ix = old(self).ids().index_of(operation_id@);
                    assert(ix == i as int) by {
                        if ix != i as int {
                            assert(old(self).ids()[ix] == old(self).ids()[i as int]);
                        }
                    }
                    assert(self.tokens() =~= old(self).tokens().update(ix, token));
                    assert(self.ids().contains(operation_id@));
                }
                OperationGuard { id: Some(string_from_str(operation_id)) }
            },
            None => {
                if self.entries.len() >= MAX_ACTIVE_OPERATIONS {
                    return OperationGuard { id: None };
                }
                self.entries.push((string_from_str(operation_id), token));
                assert(self.ids() =~= old(self).ids().push(operation_id@));
                assert(self.tokens() =~= old(self).tokens().push(token));
                proof {
                    let before = old(self).ids();
                    let ids = self.ids();
                    assert(ids[before.len() as int] == operation_id@);
                    ids.index_of_first_ensures(operation_id@);
                    let ix = ids.index_of(operation_id@);
                    assert(ix == before.len()) by {
                        if ix < before.len() {
                            assert(before[ix] == operation_id@);
                        }
                    }
                }
                OperationGuard { id: Some(string_from_str(operation_id)) }
            },
        }
    }

    /// The token a cancellation of `operation_id` must reach, if that id is
    /// registered. A malformed or unknown id is an ordinary outcome: the
    /// window may have been reopened, or the call may have finished between
    /// the click and the request.
    pub fn token_to_cancel(&self, operation_id: &str) -> (r: Option<&T>)
        requires
            self.wf(),
        ensures
            match r {
                Some(t) => self.holds(operation_id@) && *t == self.tokens()[self.ids().index_of(
                    operation_id@,
                )],
                None => !self.holds(operation_id@),
            },
    {
        if !is_valid_operation_id(operation_id) {
            proof {
                if self.holds(operation_id@) {
                    let k = self.ids().index_of(operation_id@);
                    self.ids().index_of_first_ensures(operation_id@);
                    assert(spec_is_valid_operation_id(self.ids()[k]));
                }
            }
            return None;
        }
        match self.position(operation_id) {
            Some(i) => {
                proof {
                    self.ids().index_of_first_ensures(operation_id@);
                    let ix = self.ids().index_of(operation_id@);
                    if ix != i as int {
                        assert(self.ids()[ix] == self.ids()[i as int]);
                    }
                }
                Some(&self.entries[i].1)
            },
            None => None,
        }
    }

    /// Ends the operation the guard was issued for: its entry, if any, leaves
    /// the registry and the guard is emptied, so releasing twice is harmless.
    pub fn release(&mut self, guard: &mut OperationGuard)
        requires
            old(self).wf(),
        ensures
            final(self).wf(),
            final(guard).id is None,
            match old(guard).id {
                Some(g) => if old(self).holds(g@) {
                    let ix = old(self).ids().index_of(g@);
                    &&& final(self).ids() == old(self).ids().remove(ix)
                    &&& final(self).tokens() == old(self).tokens().remove(ix)
                } else {
                    &&& final(self).ids() == old(self).ids()
                    &&& final(self).tokens() == old(self).tokens()
                },
                None => final(self).ids() == old(self).ids() && final(self).tokens() == old(
                    self,
                ).tokens(),
            },
    {
        let taken = guard.id.take();
        match taken {
            Some(id) => {
                match self.position(id.as_str()) {
                    Some(i) => {
                        proof {
                            self.ids().index_of_first_ensures(id@);
                            let ix = self.ids().index_of(id@);
                            if ix != i as int {
                                assert(self.ids()[ix] == self.ids()[i as int]);
                            }
                        }
                        let _removed = self.entries.remove(i);
                        assert(self.ids() =~= old(self).ids().remove(i as int));
                        assert(self.tokens() =~= old(self).tokens().remove(i as int));
                        assert forall|a: int, b: int| 0 <= a < b < self.ids().len() implies #[trigger] self.ids()[a] != #[trigger] self.ids()[b] by {
                            let a0 = if a < i { a } else { a + 1 };
                            let b0 = if b < i { b } else { b + 1 };
                            assert(self.ids()[a] == old(self).ids()[a0]);
                            assert(self.ids()[b] == old(self).ids()[b0]);
                        }
                        assert forall|a: int| 0 <= a < self.ids().len() implies spec_is_valid_operation_id(#[trigger] self.ids()[a]) by {
                            let a0 = if a < i { a } else { a + 1 };
                            assert(self.ids()[a] == old(self).ids()[a0]);
                        }
                    },
                    None => {},
                }
            },
            None => {},
        }
    }
}

/// What a registered token must do when its operation is cancelled: wake
/// whoever waits on it. Nothing is claimed of it here.
pub trait CancelSignal {
    fn cancel(&self);
}

/// Cancels the operation registered under `operation_id` and says whether
/// there was one: the token registered under that id is signalled. An unknown
/// or malformed id is `false`, never a failure, and signals nothing.
pub fn cancel<T: CancelSignal>(registry: &OperationRegistry<T>, operation_id: &str) -> (r: bool)
    requires
        registry.wf(),
    ensures
        r == registry.holds(operation_id@),
        r ==> call_ensures(
            T::cancel,
            (&registry.tokens()[registry.ids().index_of(operation_id@)],),
            (),
        ),
{
    match registry.token_to_cancel(operation_id) {
        Some(token) => {
            token.cancel();
            true
        },
        None => false,
    }
}

/// A registered id always passes validation: whatever sequence of calls
/// built a registry, a malformed id is never in it.
pub proof fn law_malformed_ids_are_never_stored<T>(registry: OperationRegistry<T>, id: Seq<char>)
    requires
        registry.wf(),
        !spec_is_valid_operation_id(id),
    ensures
        !registry.holds(id),
{
    if registry.holds(id) {
        let k = registry.ids().index_of(id);
        registry.ids().index_of_first_ensures(id);
        assert(spec_is_valid_operation_id(registry.ids()[k]));
    }
}

/// The registry never holds more than its cap, whatever was registered.
pub proof fn law_registry_is_bounded<T>(registry: OperationRegistry<T>)
    requires
        registry.wf(),
    ensures
        registry.len_spec() <= MAX_ACTIVE_OPERATIONS,
{
}

/// Registering a new id and releasing its guard leaves the registry exactly
/// as it was: an operation that ended, on any path, leaves no entry behind.
pub proof fn law_release_undoes_register<T>(registry: OperationRegistry<T>, id: Seq<char>, token: T)
    requires
        registry.wf(),
        !registry.holds(id),
    ensures
        ({
            let ids = registry.ids().push(id);
            let ix = ids.index_of(id);
            &&& ids.contains(id)
            &&& ids.remove(ix) == registry.ids()
            &&& registry.tokens().push(token).remove(ix) == registry.tokens()
        }),
{
    let before = registry.ids();
    let ids = before.push(id);
    assert(ids[before.len() as int] == id);
    ids.index_of_first_ensures(id);
    let ix = ids.index_of(id);
    assert(ix == before.len()) by {
        if ix < before.len() {
            assert(before[ix] == id);
        }
    }
    assert(ids.remove(ix) =~= before);
    assert(registry.tokens().len() == before.len());
    assert(registry.tokens().push(token).remove(ix) =~= registry.tokens());
}

} // verus!
