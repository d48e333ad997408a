//! The connection registry: the open devices, each under its name.
//!
//! A device gets a slot when it is opened, and keeps it: no entry is ever
//! removed or replaced, so a slot names one connection for as long as the
//! registry lives.

use vstd::prelude::*;
use vstd::string::StringSliceAdditionalSpecFns;
use vstd::utf8::encode_utf8_decode_utf8;

verus! {

/// Whether two texts are the same, character by character.
pub fn same_text(a: &str, b: &str) -> (r: bool)
    ensures
        r == (a@ == b@),
{
    let x = a.as_bytes();
    let y = b.as_bytes();
    proof {
        encode_utf8_decode_utf8(a@);
        encode_utf8_decode_utf8(b@);
    }
    if x.len() != y.len() {
        return false;
    }
    let n = x.len();
    let mut i: usize = 0;
    while i < n
        invariant
            n == x@.len(),
            n == y@.len(),
            x@ == a.spec_bytes(),
            y@ == b.spec_bytes(),
            i <= n,
            forall|j: int| 0 <= j < i ==> x@[j] == y@[j],
        decreases n - i,
    {
        if x[i] != y[i] {
            return false;
        }
        i += 1;
    }
    assert(x@ =~= y@);
    true
}

/// The open connections, of whatever type `C` a connection is, each with
/// the name of its device.
pub struct ConnectionRegistry<C> {
    names: Vec<String>,
    connections: Vec<C>,
}

/// The index of `name` among `names`, if it is there.
pub open spec fn slot_of_name(names: Seq<Seq<char>>, name: Seq<char>) -> Option<int> {
    if names.contains(name) {
        Some(names.index_of(name))
    } else {
        None
    }
}

/// Whether no name occurs twice.
pub open spec fn distinct_names(names: Seq<Seq<char>>) -> bool {
    forall|i: int, j: int| 0 <= i < j < names.len() ==> names[i] != names[j]
}

impl<C> ConnectionRegistry<C> {
    /// The device names, in the order in which the devices were opened.
    pub closed spec fn names(&self) -> Seq<Seq<char>> {
        Seq::new(self.names@.len(), |i: int| self.names@[i]@)
    }

    /// The connections; the one at an index belongs to the name there.
    pub closed spec fn connections(&self) -> Seq<C> {
        self.connections@
    }

    /// Every name has its connection, and no name occurs twice.
    pub open spec fn wf(&self) -> bool {
        &&& self.names().len() == self.connections().len()
        &&& distinct_names(self.names())
    }

    /// A registry without connections.
    pub fn new() -> (r: Self)
        ensures
            r.wf(),
            r.names() == Seq::<Seq<char>>::empty(),
            r.connections() == Seq::<C>::empty(),
    {
        let r = ConnectionRegistry { names: Vec::new(), connections: Vec::new() };
        assert(r.names() =~= Seq::<Seq<char>>::empty());
        r
    }

    /// The number of open connections.
    pub fn len(&self) -> (n: usize)
        requires
            self.wf(),
        ensures
            n == self.names().len(),
    {
        self.names.len()
    }

    /// The slot of the named device, if it is open.
    pub fn slot_of(&self, name: &str) -> (r: Option<usize>)
        requires
            self.wf(),
        ensures
            match r {
                Some(slot) => slot_of_name(self.names(), name@) == Some(slot as int),
                None => slot_of_name(self.names(), name@) is None,
            },
    {
        let n = self.names.len();
        let mut i: usize = 0;
        while i < n
            invariant
                self.wf(),
                n == self.names().len(),
                n == self.names@.len(),
                i <= n,
                forall|j: int| 0 <= j < i ==> self.names()[j] != name@,
            decreases n - i,
        {
            if same_text(self.names[i].as_str(), name) {
                proof {
                    let names = self.names();
                    assert(names[i as int] == name@);
                    assert(names.contains(name@));
                    let k = names.index_of(name@);
                    assert(0 <= k < names.len() && names[k] == name@);
                }
                return Some(i);
            }
            i += 1;
        }
        assert(!self.names().contains(name@));
        None
    }

    /// The name of the device in a slot.
    pub fn name(&self, slot: usize) -> (r: &String)
        requires
            self.wf(),
            slot < self.names().len(),
        ensures
            r@ == self.names()[slot as int],
    {
        &self.names[slot]
    }

    /// The connection in a slot.
    pub fn connection(&self, slot: usize) -> (r: &C)
        requires
            self.wf(),
            slot < self.names().len(),
        ensures
            *r == self.connections()[slot as int],
    {
        &self.connections[slot]
    }

    /// The connection in a slot, to work on.
    pub fn connection_mut(&mut self, slot: usize) -> (r: &mut C)
        requires
            old(self).wf(),
            slot < old(self).names().len(),
        ensures
            *r == old(self).connections()[slot as int],
            final(self).names() == old(self).names(),
            final(self).connections() == old(self).connections().update(slot as int, *final(r)),
    {
        &mut self.connections[slot]
    }

    /// Enters a newly opened device. It gets the next free slot, which is
    /// returned. Where the name is taken already, nothing changes and the
    /// connection is handed back.
    pub fn insert(&mut self, name: String, connection: C) -> (r: Result<usize, C>)
        requires
            old(self).wf(),
        ensures
            final(self).wf(),
            match r {
                Ok(slot) => {
                    &&& !old(self).names().contains(name@)
                    &&& slot == old(self).names().len()
                    &&& final(self).names() == old(self).names().push(name@)
                    &&& final(self).connections() == old(self).connections().push(connection)
                },
                Err(back) => {
                    &&& old(self).names().contains(name@)
                    &&& back == connection
                    &&& final(self).names() == old(self).names()
                    &&& final(self).connections() == old(self).connections()
                },
            },
    {
        match self.slot_of(name.as_str()) {
            Some(_) => Err(connection),
            None => {
                let slot = self.names.len();
                self.names.push(name);
                self.connections.push(connection);
                assert(self.names() =~= old(self).names().push(name@));
                Ok(slot)
            },
        }
    }
}

} // verus!
