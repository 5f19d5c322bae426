use vstd::prelude::*;
use ahash::{AHashMap, RandomState};
use crate::client::{is_client_id, Client, ClientError};

verus! {

/// A hash map keyed by `ahash`'s hasher.
#[verifier::external_type_specification]
#[verifier::external_body]
#[verifier::reject_recursive_types(K)]
#[verifier::reject_recursive_types(V)]
#[verifier::reject_recursive_types(S)]
pub struct ExAHashMap<K, V, S>(AHashMap<K, V, S>);

/// `ahash`'s hasher builder.
#[verifier::external_type_specification]
#[verifier::external_body]
pub struct ExRandomState(RandomState);

/// A seat's input task and whether it has a pending tree-changed
/// notification.
pub struct SeatData {
    pub handler: u64,
    pub tree_changed: bool,
}

/// Seats by seat id.
pub type SeatMap = AHashMap<u32, SeatData>;

/// The seats a map holds, by seat id.
pub uninterp spec fn seats_of(m: SeatMap) -> Map<u32, SeatData>;

/// Relies on `AHashMap::new`: the map starts empty.
#[verifier::external_body]
fn new_seat_map() -> (r: SeatMap)
    ensures
        seats_of(r) =~= Map::empty(),
{
    AHashMap::new()
}

/// Relies on `AHashMap::insert`: the key maps to the new value afterwards,
/// and the value it had before, if any, is returned.
#[verifier::external_body]
fn insert_seat(m: &mut SeatMap, id: u32, seat: SeatData) -> (r: Option<SeatData>)
    ensures
        seats_of(*final(m)) == seats_of(*old(m)).insert(id, seat),
        r == if seats_of(*old(m)).contains_key(id) {
            Some(seats_of(*old(m))[id])
        } else {
            None::<SeatData>
        },
{
    m.insert(id, seat)
}

/// Relies on `AHashMap::remove`: the key is gone afterwards, and the value
/// it had, if any, is returned.
#[verifier::external_body]
fn remove_seat_entry(m: &mut SeatMap, id: u32) -> (r: Option<SeatData>)
    ensures
        seats_of(*final(m)) == seats_of(*old(m)).remove(id),
        r == if seats_of(*old(m)).contains_key(id) {
            Some(seats_of(*old(m))[id])
        } else {
            None::<SeatData>
        },
{
    m.remove(&id)
}

/// Relies on `HashMap::keys`, reached through `AHashMap`'s `Deref`: each
/// key once, in an order the hasher decides.
#[verifier::external_body]
fn seat_ids(m: &SeatMap) -> (r: Vec<u32>)
    ensures
        r@.no_duplicates(),
        r@.to_set() == seats_of(*m).dom(),
{
    m.keys().copied().collect()
}

/// A well-known service advertised to every client.
pub struct Global {
    pub name: u32,
    pub interface: String,
    pub version: u32,
}

/// Why a global could not be added, removed or bound.
#[derive(Clone, Copy, Debug, PartialEq, Eq, Structural)]
pub enum GlobalError {
    /// No live global has this name.
    UnknownGlobal(u32),
    /// The global with this name has another interface.
    InterfaceMismatch(u32),
    /// The version is 0 or above the one the global advertises.
    InvalidVersion(u32),
    /// Every name has been handed out.
    NamesExhausted,
    ClientError(ClientError),
}

/// The compositor's shared context: its globals and its seats.
pub struct State {
    /// The name the next global gets.
    pub next_name: u32,
    /// The live globals, oldest first.
    pub globals: Vec<Global>,
    /// The seats, by seat id.
    pub seats: SeatMap,
}

impl State {
    /// The names of the live globals.
    pub open spec fn names(&self) -> Seq<u32> {
        self.globals@.map_values(|g: Global| g.name)
    }

    /// Names of live globals increase from the oldest to the newest and lie
    /// below the next name.
    pub open spec fn wf(&self) -> bool {
        &&& self.next_name >= 1
        &&& forall|i: int, j: int|
            0 <= i < j < self.globals@.len() ==> self.globals@[i].name < self.globals@[j].name
        &&& forall|i: int| 0 <= i < self.globals@.len() ==> (#[trigger] self.globals@[i]).name < self.next_name
    }

    /// The live global at `i` is the one `index_of` finds by its name.
    proof fn lemma_name_index(&self, i: int)
        requires
            self.wf(),
            0 <= i < self.globals@.len(),
        ensures
            self.names()[i] == self.globals@[i].name,
            self.names().contains(self.globals@[i].name),
            self.names().index_of(self.globals@[i].name) == i,
    {
        let name = self.globals@[i].name;
        assert(self.names()[i] == name);
        let k = self.names().index_of(name);
        assert(self.globals@[k].name == name);
        if k < i {
            assert(self.globals@[k].name < self.globals@[i].name);
        } else if k > i {
            assert(self.globals@[i].name < self.globals@[k].name);
        }
    }

    /// A context with no globals and no seats.
    pub fn new() -> (r: State)
        ensures
            r.wf(),
            r.next_name == 1,
            r.globals@.len() == 0,
            seats_of(r.seats) == Map::<u32, SeatData>::empty(),
    {
        State { next_name: 1, globals: Vec::new(), seats: new_seat_map() }
    }

    /// Adds a global under the next name and returns that name.
    pub fn add_global(&mut self, interface: String, version: u32) -> (r: Result<u32, GlobalError>)
        requires
            old(self).wf(),
        ensures
            final(self).wf(),
            final(self).seats == old(self).seats,
            old(self).next_name == u32::MAX ==> r == Err::<u32, GlobalError>(GlobalError::NamesExhausted)
                && final(self).globals@ == old(self).globals@
                && final(self).next_name == old(self).next_name,
            old(self).next_name < u32::MAX ==> r == Ok::<u32, GlobalError>(old(self).next_name)
                && final(self).next_name == old(self).next_name + 1
                && final(self).globals@.len() == old(self).globals@.len() + 1
                && final(self).globals@.drop_last() == old(self).globals@
                && final(self).globals@.last().name == old(self).next_name
                && final(self).globals@.last().interface@ == interface@
                && final(self).globals@.last().version == version,
    {
        if self.next_name == u32::MAX {
            return Err(GlobalError::NamesExhausted);
        }
        let name = self.next_name;
        self.next_name = name + 1;
        self.globals.push(Global { name, interface, version });
        assert(self.globals@.drop_last() =~= old(self).globals@);
        Ok(name)
    }

    /// The position of the live global `name`.
    fn find_global(&self, name: u32) -> (r: Option<usize>)
        ensures
            match r {
                Some(i) => i < self.globals@.len() && self.globals@[i as int].name == name,
                None => !self.names().contains(name),
            },
    {
        let mut i: usize = 0;
        while i < self.globals.len()
            invariant
                i <= self.globals@.len(),
                forall|k: int| 0 <= k < i ==> self.globals@[k].name != name,
            decreases self.globals@.len() - i,
        {
            if self.globals[i].name == name {
                return Some(i);
            }
            i = i + 1;
        }
        proof {
            if self.names().contains(name) {
                let k = choose|k: int| 0 <= k < self.names().len() && self.names()[k] == name;
                assert(self.globals@[k].name == name);
            }
        }
        None
    }

    /// Removes the global `name` and returns it.
    pub fn remove_global(&mut self, name: u32) -> (r: Result<Global, GlobalError>)
        requires
            old(self).wf(),
        ensures
            final(self).wf(),
            final(self).seats == old(self).seats,
            final(self).next_name == old(self).next_name,
            r is Ok <==> old(self).names().contains(name),
            r is Err ==> r == Err::<Global, GlobalError>(GlobalError::UnknownGlobal(name))
                && final(self).globals@ == old(self).globals@,
            r is Ok ==> r->Ok_0 == old(self).globals@[old(self).names().index_of(name)]
                && r->Ok_0.name == name && final(self).names() == old(self).names().remove(
                old(self).names().index_of(name),
            ),
            !final(self).names().contains(name),
    {
        match self.find_global(name) {
            None => Err(GlobalError::UnknownGlobal(name)),
            Some(i) => {
                proof {
                    old(self).lemma_name_index(i as int);
                }
                let g = self.globals.remove(i);
                proof {
                    assert(self.names() =~= old(self).names().remove(i as int));
                    assert forall|k: int| 0 <= k < self.names().len() implies self.names()[k] != name by {
                        if k < i {
                            assert(self.globals@[k] == old(self).globals@[k]);
                        } else {
                            assert(self.globals@[k] == old(self).globals@[k + 1]);
                        }
                    }
                }
                Ok(g)
            },
        }
    }

    /// Binds the global `name` for `client` at `new_id`, with the
    /// interface and version the client asked for.
    pub fn bind(&self, client: &mut Client, name: u32, interface: &String, version: u32, new_id: u32) -> (r: Result<(), GlobalError>)
        requires
            self.wf(),
            old(client).wf(),
        ensures
            final(client).wf(),
            !self.names().contains(name) ==> r == Err::<(), GlobalError>(GlobalError::UnknownGlobal(name)) && *final(client) == *old(client),
            self.names().contains(name) ==> {
                let g = self.globals@[self.names().index_of(name)];
                if g.interface@ != interface@ {
                    r == Err::<(), GlobalError>(GlobalError::InterfaceMismatch(name)) && *final(client) == *old(client)
                } else if version == 0 || version > g.version {
                    r == Err::<(), GlobalError>(GlobalError::InvalidVersion(version)) && *final(client) == *old(client)
                } else if !is_client_id(new_id) {
                    r == Err::<(), GlobalError>(GlobalError::ClientError(ClientError::NotClientId(new_id)))
                        && final(client).objects@ == old(client).objects@
                } else if old(client).object_set().contains(new_id) {
                    r == Err::<(), GlobalError>(GlobalError::ClientError(ClientError::IdInUse(new_id)))
                        && final(client).objects@ == old(client).objects@
                } else {
                    r is Ok && final(client).object_set() == old(client).object_set().insert(new_id)
                }
            },
    {
        let i = match self.find_global(name) {
            None => return Err(GlobalError::UnknownGlobal(name)),
            Some(i) => i,
        };
        proof {
            self.lemma_name_index(i as int);
        }
        let g = &self.globals[i];
        if g.interface != *interface {
            return Err(GlobalError::InterfaceMismatch(name));
        }
        if version == 0 || version > g.version {
            return Err(GlobalError::InvalidVersion(version));
        }
        match client.add_client_obj(new_id) {
            Ok(()) => Ok(()),
            Err(e) => Err(GlobalError::ClientError(e)),
        }
    }

    /// Adds a seat, returning the one it replaces.
    pub fn add_seat(&mut self, id: u32, seat: SeatData) -> (r: Option<SeatData>)
        ensures
            seats_of(final(self).seats) == seats_of(old(self).seats).insert(id, seat),
            final(self).globals == old(self).globals,
            final(self).next_name == old(self).next_name,
            r == if seats_of(old(self).seats).contains_key(id) {
                Some(seats_of(old(self).seats)[id])
            } else {
                None::<SeatData>
            },
    {
        insert_seat(&mut self.seats, id, seat)
    }

    /// Removes a seat and returns it.
    pub fn remove_seat(&mut self, id: u32) -> (r: Option<SeatData>)
        ensures
            seats_of(final(self).seats) == seats_of(old(self).seats).remove(id),
            final(self).globals == old(self).globals,
            final(self).next_name == old(self).next_name,
            r == if seats_of(old(self).seats).contains_key(id) {
                Some(seats_of(old(self).seats)[id])
            } else {
                None::<SeatData>
            },
    {
        remove_seat_entry(&mut self.seats, id)
    }

    /// Notifies every seat that the tree changed.
    pub fn tree_changed(&mut self)
        ensures
            final(self).globals == old(self).globals,
            final(self).next_name == old(self).next_name,
            seats_of(final(self).seats).dom() == seats_of(old(self).seats).dom(),
            forall|id: u32|
                #![trigger seats_of(final(self).seats)[id]]
                seats_of(old(self).seats).contains_key(id) ==> seats_of(final(self).seats)[id] == (SeatData {
                    tree_changed: true,
                    ..seats_of(old(self).seats)[id]
                }),
    {
        let ids = seat_ids(&self.seats);
        let ghost before = seats_of(self.seats);
        let mut i: usize = 0;
        while i < ids.len()
            invariant
                self.globals == old(self).globals,
                self.next_name == old(self).next_name,
                before == seats_of(old(self).seats),
                ids@.no_duplicates(),
                ids@.to_set() == before.dom(),
                i <= ids@.len(),
                seats_of(self.seats).dom() == before.dom(),
                forall|k: int|
                    0 <= k < i ==> seats_of(self.seats)[#[trigger] ids@[k]] == (SeatData {
                        tree_changed: true,
                        ..before[ids@[k]]
                    }),
                forall|k: int|
                    i <= k < ids@.len() ==> seats_of(self.seats)[#[trigger] ids@[k]] == before[ids@[k]],
            decreases ids@.len() - i,
        {
            let id = ids[i];
            assert(ids@.to_set().contains(id));
            let seat = remove_seat_entry(&mut self.seats, id);
            match seat {
                Some(s) => {
                    let _ = insert_seat(&mut self.seats, id, SeatData { handler: s.handler, tree_changed: true });
                },
                None => {},
            }
            proof {
                assert(seats_of(self.seats).dom() =~= before.dom());
                assert forall|k: int| 0 <= k < ids@.len() && k != i implies ids@[k] != id by {}
            }
            i = i + 1;
        }
        proof {
            assert forall|id: u32| before.contains_key(id) implies seats_of(self.seats)[id] == (SeatData { tree_changed: true, ..before[id] }) by {
                assert(ids@.to_set().contains(id));
                let k = choose|k: int| 0 <= k < ids@.len() && ids@[k] == id;
            }
        }
    }
}

} // verus!
