//! Typed message binding registry.  The bridge itself is type-erased, so a
//! message kind is a number the application chooses (one per message type);
//! the registry records which channel carries each kind in each direction
//! and keeps the invariant that a kind is bound to at most one channel per
//! direction.

use vstd::prelude::*;

verus! {

/// The direction a bound message kind travels.
#[derive(Clone, Copy, PartialEq, Eq, Structural, Debug)]
pub enum Direction {
    ClientToServer,
    ServerToOneClient,
    ServerToAllClients,
}

/// Error produced when a kind is bound twice in the same direction.
#[derive(Clone, Copy, PartialEq, Eq, Structural, Debug)]
pub struct DuplicateBinding {
    pub kind: u64,
}

/// One registration: this message kind travels on this channel in this
/// direction.
#[derive(Clone, Copy, PartialEq, Eq, Structural, Debug)]
pub struct MessageBinding {
    pub kind: u64,
    pub direction: Direction,
    pub channel_id: u8,
}

/// Whether some binding covers the given kind and direction.
pub open spec fn has_binding(
    bindings: Seq<MessageBinding>,
    kind: u64,
    direction: Direction,
) -> bool {
    exists|i: int|
        0 <= i < bindings.len() && (#[trigger] bindings[i]).kind == kind && bindings[i].direction
            == direction
}

/// No kind is bound to more than one channel in the same direction.
pub open spec fn unique_bindings(bindings: Seq<MessageBinding>) -> bool {
    forall|i: int, j: int|
        0 <= i < j < bindings.len() ==> !((#[trigger] bindings[i]).kind == (
        #[trigger] bindings[j]).kind && bindings[i].direction == bindings[j].direction)
}

/// The registration-time table of message bindings, filled once at setup.
#[derive(Clone, Debug)]
pub struct BindingRegistry {
    pub bindings: Vec<MessageBinding>,
}

impl BindingRegistry {
    pub open spec fn wf(self) -> bool {
        unique_bindings(self.bindings@)
    }

    pub fn new() -> (r: Self)
        ensures
            r.wf(),
            r.bindings@.len() == 0,
    {
        BindingRegistry { bindings: Vec::new() }
    }

    /// Whether the kind is already bound in the direction.
    pub fn is_bound(&self, kind: u64, direction: Direction) -> (r: bool)
        ensures
            r == has_binding(self.bindings@, kind, direction),
    {
        let mut i: usize = 0;
        while i < self.bindings.len()
            invariant
                0 <= i <= self.bindings@.len(),
                forall|j: int|
                    0 <= j < i ==> !((#[trigger] self.bindings@[j]).kind == kind
                        && self.bindings@[j].direction == direction),
            decreases self.bindings@.len() - i,
        {
            let b = self.bindings[i];
            if b.kind == kind && b.direction == direction {
                proof {
                    assert(self.bindings@[i as int].kind == kind);
                }
                return true;
            }
            i = i + 1;
        }
        false
    }

    /// Registers a binding.  A kind already bound in the same direction is
    /// rejected, and exactly then; otherwise the binding is appended, and a
    /// table whose bindings were unique stays unique.
    pub fn bind(&mut self, kind: u64, direction: Direction, channel_id: u8) -> (r: Result<
        (),
        DuplicateBinding,
    >)
        ensures
            old(self).wf() ==> final(self).wf(),
            has_binding(old(self).bindings@, kind, direction) ==> r == Err::<(), DuplicateBinding>(
                DuplicateBinding { kind },
            ) && final(self).bindings@ == old(self).bindings@,
            !has_binding(old(self).bindings@, kind, direction) ==> r is Ok
                && final(self).bindings@ == old(self).bindings@.push(
                MessageBinding { kind, direction, channel_id },
            ),
    {
        if self.is_bound(kind, direction) {
            return Err(DuplicateBinding { kind });
        }
        let ghost before = self.bindings@;
        self.bindings.push(MessageBinding { kind, direction, channel_id });
        proof {
            if unique_bindings(before) {
                assert forall|i: int, j: int| 0 <= i < j < self.bindings@.len() implies !((
                #[trigger] self.bindings@[i]).kind == (#[trigger] self.bindings@[j]).kind
                    && self.bindings@[i].direction == self.bindings@[j].direction) by {
                    if j == self.bindings@.len() - 1 {
                        assert(!has_binding(before, kind, direction));
                        assert(self.bindings@[i] == before[i]);
                    }
                }
            }
        }
        Ok(())
    }

    /// The channel bound for the kind in the direction, if any: `Some` with
    /// the registered channel exactly when a binding exists, else `None`.
    pub fn channel_for(&self, kind: u64, direction: Direction) -> (r: Option<u8>)
        ensures
            r is Some <==> has_binding(self.bindings@, kind, direction),
            r matches Some(ch) ==> exists|i: int|
                0 <= i < self.bindings@.len() && (#[trigger] self.bindings@[i]) == (MessageBinding {
                    kind,
                    direction,
                    channel_id: ch,
                }),
    {
        let mut i: usize = 0;
        while i < self.bindings.len()
            invariant
                0 <= i <= self.bindings@.len(),
                forall|j: int|
                    0 <= j < i ==> !((#[trigger] self.bindings@[j]).kind == kind
                        && self.bindings@[j].direction == direction),
            decreases self.bindings@.len() - i,
        {
            let b = self.bindings[i];
            if b.kind == kind && b.direction == direction {
                proof {
                    assert(self.bindings@[i as int] == (MessageBinding {
                        kind,
                        direction,
                        channel_id: b.channel_id,
                    }));
                }
                return Some(b.channel_id);
            }
            i = i + 1;
        }
        None
    }
}

} // verus!
