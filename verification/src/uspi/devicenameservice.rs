//! The registry of USB devices by name.
use vstd::prelude::*;

verus! {

/// Whether a device transfers blocks.
#[derive(Debug, Clone, Copy, PartialEq, Eq, Structural)]
pub enum DeviceKind {
    Block,
    NonBlock,
}

/// A named device: its name, a handle to it and its kind.
pub struct DeviceEntry {
    name: Vec<char>,
    device: usize,
    kind: DeviceKind,
}

/// The devices registered so far, in order.
pub struct DeviceRegistry {
    devices: Vec<DeviceEntry>,
}

impl DeviceRegistry {
    /// The entries as name, handle and kind, in the order they were added.
    pub closed spec fn entries(&self) -> Seq<(Seq<char>, usize, DeviceKind)> {
        self.devices@.map_values(|e: DeviceEntry| (e.name@, e.device, e.kind))
    }

    /// An empty registry.
    pub fn new() -> (r: Self)
        ensures
            r.entries() == Seq::<(Seq<char>, usize, DeviceKind)>::empty(),
    {
        DeviceRegistry { devices: Vec::new() }
    }

    /// Registers a device under a name.
    pub fn add(&mut self, name: Vec<char>, device: usize, kind: DeviceKind)
        ensures
            final(self).entries() == old(self).entries().push((name@, device, kind)),
    {
        let ghost n = name@;
        self.devices.push(DeviceEntry { name, device, kind });
        assert(self.entries() =~= old(self).entries().push((n, device, kind)));
    }

    /// The handle of the first device registered under `name` with `kind`.
    pub fn get(&self, name: &[char], kind: DeviceKind) -> (r: Option<usize>)
        ensures
            match r {
                Some(d) => exists|i: int|
                    0 <= i < self.entries().len() && #[trigger] self.entries()[i] == (name@, d, kind) && forall|
                        j: int,
                    |
                        0 <= j < i ==> !(#[trigger] self.entries()[j].0 == name@ && self.entries()[j].2 == kind),
                None => forall|j: int|
                    0 <= j < self.entries().len() ==> !(#[trigger] self.entries()[j].0 == name@
                        && self.entries()[j].2 == kind),
            },
    {
        let mut i: usize = 0;
        while i < self.devices.len()
            invariant
                i <= self.devices@.len(),
                self.entries().len() == self.devices@.len(),
                forall|j: int|
                    0 <= j < i ==> !(#[trigger] self.entries()[j].0 == name@ && self.entries()[j].2 == kind),
            decreases self.devices@.len() - i,
        {
            let e = &self.devices[i];
            if e.kind == kind && same_name(&e.name, name) {
                assert(self.entries()[i as int] == (name@, e.device, kind));
                return Some(e.device);
            }
            assert(self.entries()[i as int].0 == e.name@);
            i = i + 1;
        }
        None
    }
}

/// Whether a name equals the characters of `s`.
fn same_name(name: &Vec<char>, s: &[char]) -> (r: bool)
    ensures
        r == (name@ == s@),
{
    if name.len() != s.len() {
        return false;
    }
    let mut i: usize = 0;
    while i < name.len()
        invariant
            name@.len() == s@.len(),
            i <= name@.len(),
            forall|j: int| 0 <= j < i ==> name@[j] == s@[j],
        decreases name@.len() - i,
    {
        if name[i] != s[i] {
            return false;
        }
        i = i + 1;
    }
    assert(name@ =~= s@);
    true
}

} // verus!
