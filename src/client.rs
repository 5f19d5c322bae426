use vstd::prelude::*;

verus! {

/// Largest id a client may allocate itself.
pub const CLIENT_ID_MAX: u32 = 0xfeff_ffff;

/// First id of the range the server allocates from.
pub const SERVER_ID_MIN: u32 = 0xff00_0000;

/// The first id the server hands out.
pub const FIRST_SERVER_ID: u32 = 0xff00_0001;

/// Errors of a client's object table.
#[derive(Clone, Copy, Debug, PartialEq, Eq, Structural)]
pub enum ClientError {
    /// No object with this id exists.
    UnknownId(u32),
    /// An object with this id exists already.
    IdInUse(u32),
    /// The id lies outside the range the client allocates from.
    NotClientId(u32),
    /// Every server-range id has been handed out.
    ServerIdsExhausted,
}

/// A connected peer's object table.
pub struct Client {
    /// Identifies the connection.
    pub id: u64,
    /// Ids of the live objects.
    pub objects: Vec<u32>,
    /// The next server-range id to hand out.
    pub next_server_id: u64,
    /// Every server-range id handed out so far, in order.
    pub server_ids: Ghost<Seq<u32>>,
}

/// `id` lies in the range a client allocates from.
pub open spec fn is_client_id(id: u32) -> bool {
    1 <= id <= CLIENT_ID_MAX
}

/// `id` lies in the range the server allocates from.
pub open spec fn is_server_id(id: u32) -> bool {
    id >= SERVER_ID_MIN
}

/// `s` is strictly increasing.
pub open spec fn strictly_increasing(s: Seq<u32>) -> bool {
    forall|i: int, j: int| 0 <= i < j < s.len() ==> s[i] < s[j]
}

/// Appending `x` to `s` adds `x` to its set of elements.
proof fn lemma_push_to_set(s: Seq<u32>, x: u32)
    ensures
        s.push(x).to_set() == s.to_set().insert(x),
{
    let t = s.push(x);
    assert forall|y: u32| t.contains(y) <==> s.contains(y) || y == x by {
        if t.contains(y) {
            let k = choose|k: int| 0 <= k < t.len() && t[k] == y;
            if k < s.len() {
                assert(s[k] == y);
            }
        }
        if s.contains(y) {
            let k = choose|k: int| 0 <= k < s.len() && s[k] == y;
            assert(t[k] == y);
        }
        if y == x {
            assert(t[t.len() - 1] == y);
        }
    }
    assert(t.to_set() =~= s.to_set().insert(x));
}

/// Removing the element at `k` from a sequence without duplicates removes
/// that element from its set, and leaves no duplicates.
proof fn lemma_remove_from_set(s: Seq<u32>, k: int)
    requires
        s.no_duplicates(),
        0 <= k < s.len(),
    ensures
        s.remove(k).to_set() == s.to_set().remove(s[k]),
        s.remove(k).no_duplicates(),
{
    let t = s.remove(k);
    assert forall|y: u32| t.contains(y) <==> s.contains(y) && y != s[k] by {
        if t.contains(y) {
            let j = choose|j: int| 0 <= j < t.len() && t[j] == y;
            if j < k {
                assert(s[j] == y);
            } else {
                assert(s[j + 1] == y);
            }
        }
        if s.contains(y) && y != s[k] {
            let j = choose|j: int| 0 <= j < s.len() && s[j] == y;
            if j < k {
                assert(t[j] == y);
            } else {
                assert(t[j - 1] == y);
            }
        }
    }
    assert(t.to_set() =~= s.to_set().remove(s[k]));
}

impl Client {
    /// The live object ids.
    pub open spec fn object_set(&self) -> Set<u32> {
        self.objects@.to_set()
    }

    /// The object ids are unique; the server ids handed out are strictly
    /// increasing, in the server range and below the next one.
    pub open spec fn wf(&self) -> bool {
        &&& self.objects@.no_duplicates()
        &&& SERVER_ID_MIN <= self.next_server_id <= 0x1_0000_0000
        &&& forall|i: int|
            0 <= i < self.objects@.len() && is_server_id(#[trigger] self.objects@[i])
                ==> self.objects@[i] < self.next_server_id
        &&& strictly_increasing(self.server_ids@)
        &&& forall|i: int|
            0 <= i < self.server_ids@.len() ==> is_server_id(#[trigger] self.server_ids@[i])
                && self.server_ids@[i] < self.next_server_id
    }

    /// A client with no objects.
    pub fn new(id: u64) -> (r: Client)
        ensures
            r.wf(),
            r.id == id,
            r.object_set() == Set::<u32>::empty(),
            r.server_ids@ == Seq::<u32>::empty(),
            r.next_server_id == FIRST_SERVER_ID,
    {
        let r = Client {
            id,
            objects: Vec::new(),
            next_server_id: FIRST_SERVER_ID as u64,
            server_ids: Ghost(Seq::empty()),
        };
        assert(r.objects@.to_set() =~= Set::empty());
        r
    }

    /// Whether an object with this id is live.
    pub fn contains(&self, id: u32) -> (r: bool)
        ensures
            r == self.object_set().contains(id),
    {
        self.find(id).is_some()
    }

    fn find(&self, id: u32) -> (r: Option<usize>)
        ensures
            match r {
                Some(i) => i < self.objects@.len() && self.objects@[i as int] == id,
                None => !self.objects@.contains(id),
            },
    {
        let mut i: usize = 0;
        while i < self.objects.len()
            invariant
                i <= self.objects@.len(),
                forall|k: int| 0 <= k < i ==> self.objects@[k] != id,
            decreases self.objects@.len() - i,
        {
            if self.objects[i] == id {
                return Some(i);
            }
            i = i + 1;
        }
        None
    }

    /// Installs an object at an id the client chose.
    pub fn add_client_obj(&mut self, id: u32) -> (r: Result<(), ClientError>)
        requires
            old(self).wf(),
        ensures
            final(self).wf(),
            final(self).id == old(self).id,
            final(self).next_server_id == old(self).next_server_id,
            final(self).server_ids == old(self).server_ids,
            !is_client_id(id) ==> r == Err::<(), ClientError>(ClientError::NotClientId(id)),
            is_client_id(id) && old(self).object_set().contains(id) ==> r == Err::<(), ClientError>(
                ClientError::IdInUse(id),
            ),
            r is Ok <==> is_client_id(id) && !old(self).object_set().contains(id),
            r is Ok ==> final(self).object_set() == old(self).object_set().insert(id),
            r is Err ==> final(self).objects@ == old(self).objects@,
    {
        if id == 0 || id > CLIENT_ID_MAX {
            return Err(ClientError::NotClientId(id));
        }
        if self.contains(id) {
            return Err(ClientError::IdInUse(id));
        }
        self.objects.push(id);
        proof {
            lemma_push_to_set(old(self).objects@, id);
        }
        Ok(())
    }

    /// Removes the object with this id.
    pub fn remove_obj(&mut self, id: u32) -> (r: Result<(), ClientError>)
        requires
            old(self).wf(),
        ensures
            final(self).wf(),
            final(self).id == old(self).id,
            final(self).next_server_id == old(self).next_server_id,
            final(self).server_ids == old(self).server_ids,
            r is Ok <==> old(self).object_set().contains(id),
            r is Err ==> r == Err::<(), ClientError>(ClientError::UnknownId(id))
                && final(self).objects@ == old(self).objects@,
            final(self).object_set() == old(self).object_set().remove(id),
    {
        match self.find(id) {
            Some(i) => {
                self.objects.remove(i);
                proof {
                    lemma_remove_from_set(old(self).objects@, i as int);
                }
                Ok(())
            },
            None => {
                assert(old(self).object_set().remove(id) =~= old(self).object_set());
                Err(ClientError::UnknownId(id))
            },
        }
    }

    /// Allocates the next server-range id and installs an object there.
    pub fn alloc_server_id(&mut self) -> (r: Result<u32, ClientError>)
        requires
            old(self).wf(),
        ensures
            final(self).wf(),
            final(self).id == old(self).id,
            old(self).next_server_id > 0xffff_ffff ==> r == Err::<u32, ClientError>(
                ClientError::ServerIdsExhausted,
            ) && *final(self) == *old(self),
            old(self).next_server_id <= 0xffff_ffff ==> r == Ok::<u32, ClientError>(
                old(self).next_server_id as u32,
            ),
            r is Ok ==> {
                let id = r->Ok_0;
                &&& is_server_id(id)
                &&& final(self).server_ids@ == old(self).server_ids@.push(id)
                &&& forall|i: int|
                    0 <= i < old(self).server_ids@.len() ==> old(self).server_ids@[i] < id
                &&& final(self).next_server_id == old(self).next_server_id + 1
                &&& final(self).object_set() == old(self).object_set().insert(id)
            },
    {
        if self.next_server_id > 0xffff_ffff {
            return Err(ClientError::ServerIdsExhausted);
        }
        let id = self.next_server_id as u32;
        assert(!old(self).objects@.contains(id));
        self.next_server_id = self.next_server_id + 1;
        self.server_ids = Ghost(self.server_ids@.push(id));
        self.objects.push(id);
        proof {
            lemma_push_to_set(old(self).objects@, id);
        }
        Ok(id)
    }
}

} // verus!
