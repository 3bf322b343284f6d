use vstd::prelude::*;

use crate::protocol::Client2Server;

verus! {

/// The rooms that exist, by room id. Each room is known by a handle number;
/// whoever runs the rooms keeps the actual mailbox for each handle.
pub struct Registry {
    pub entries: Vec<(String, u64)>,
    pub next_handle: u64,
}

/// The handle registered for room `id`, if any.
pub open spec fn handle_of(entries: Seq<(String, u64)>, id: Seq<char>) -> Option<u64> {
    if exists|i: int| 0 <= i < entries.len() && (#[trigger] entries[i]).0@ == id {
        let i = choose|i: int| 0 <= i < entries.len() && (#[trigger] entries[i]).0@ == id;
        Some(entries[i].1)
    } else {
        None
    }
}

/// `after` is `before` with room `id` taken out, and `removed` says whether
/// it was there.
pub open spec fn removes(before: Seq<(String, u64)>, after: Seq<(String, u64)>, id: Seq<char>, removed: bool) -> bool {
    &&& removed == (handle_of(before, id) is Some)
    &&& handle_of(after, id) is None
    &&& forall|x: Seq<char>| x != id ==> handle_of(after, x) == #[trigger] handle_of(before, x)
}

/// A room is taken out of the registry at most once: after a removal has
/// found it, a second removal of the same id finds nothing.
pub proof fn lemma_removed_once(
    a: Seq<(String, u64)>,
    b: Seq<(String, u64)>,
    c: Seq<(String, u64)>,
    id: Seq<char>,
    first: bool,
    second: bool,
)
    requires
        removes(a, b, id, first),
        removes(b, c, id, second),
    ensures
        !second,
        handle_of(c, id) is None,
{
}

impl Registry {
    /// Room ids are unique, and every handle was given out before.
    pub open spec fn wf(&self) -> bool {
        &&& forall|i: int, j: int|
            0 <= i < j < self.entries@.len() ==> (#[trigger] self.entries@[i]).0@ != (
            #[trigger] self.entries@[j]).0@
        &&& forall|i: int| 0 <= i < self.entries@.len() ==> (#[trigger] self.entries@[i]).1 < self.next_handle
    }

    pub fn new() -> (r: Registry)
        ensures
            r.wf(),
            r.entries@.len() == 0,
            r.next_handle == 0,
    {
        Registry { entries: Vec::new(), next_handle: 0 }
    }

    fn position(&self, id: &str) -> (r: Option<usize>)
        requires
            self.wf(),
        ensures
            r is Some ==> r.unwrap() < self.entries@.len() && self.entries@[r.unwrap() as int].0@ == id@,
            r is None ==> handle_of(self.entries@, id@) is None,
            r is Some ==> handle_of(self.entries@, id@) == Some(self.entries@[r.unwrap() as int].1),
    {
        let key = String::from_str(id);
        let mut i: usize = 0;
        while i < self.entries.len()
            invariant
                i <= self.entries@.len(),
                self.wf(),
                key@ == id@,
                forall|j: int| 0 <= j < i ==> (#[trigger] self.entries@[j]).0@ != id@,
            decreases self.entries@.len() - i,
        {
            if self.entries[i].0 == key {
                proof {
                    assert(self.entries@[i as int].0@ == id@);
                    let k = choose|k: int| 0 <= k < self.entries@.len() && (#[trigger] self.entries@[k]).0@ == id@;
                    assert(k == i);
                }
                return Some(i);
            }
            i = i + 1;
        }
        None
    }

    /// The handle of room `id`, if it is registered.
    pub fn lookup(&self, id: &str) -> (r: Option<u64>)
        requires
            self.wf(),
        ensures
            r == handle_of(self.entries@, id@),
    {
        match self.position(id) {
            Some(i) => Some(self.entries[i].1),
            None => None,
        }
    }

    /// The handle of room `id`, registering a new one if there is none, in one
    /// step so that two callers never register the same id twice. The flag
    /// says whether a room was registered, and so must be started.
    pub fn get_or_create(&mut self, id: &str) -> (r: (u64, bool))
        requires
            old(self).wf(),
            old(self).next_handle < u64::MAX,
        ensures
            final(self).wf(),
            handle_of(final(self).entries@, id@) == Some(r.0),
            handle_of(old(self).entries@, id@) is Some ==> {
                &&& r == (handle_of(old(self).entries@, id@).unwrap(), false)
                &&& final(self).entries@ == old(self).entries@
                &&& final(self).next_handle == old(self).next_handle
            },
            handle_of(old(self).entries@, id@) is None ==> {
                &&& r == (old(self).next_handle, true)
                &&& final(self).next_handle == old(self).next_handle + 1
                &&& forall|x: Seq<char>|
                    x != id@ ==> #[trigger] handle_of(final(self).entries@, x) == handle_of(
                        old(self).entries@,
                        x,
                    )
            },
    {
        match self.position(id) {
            Some(i) => (self.entries[i].1, false),
            None => {
                let h = self.next_handle;
                let ghost before = self.entries@;
                self.entries.push((String::from_str(id), h));
                self.next_handle = h + 1;
                proof {
                    let after = self.entries@;
                    assert(after[before.len() as int].0@ == id@);
                    assert forall|x: Seq<char>| x != id@ implies #[trigger] handle_of(after, x) == handle_of(
                        before,
                        x,
                    ) by {
                        if exists|i: int| 0 <= i < before.len() && (#[trigger] before[i]).0@ == x {
                            let i = choose|i: int| 0 <= i < before.len() && (#[trigger] before[i]).0@ == x;
                            assert(after[i] == before[i]);
                        }
                        if exists|i: int| 0 <= i < after.len() && (#[trigger] after[i]).0@ == x {
                            let i = choose|i: int| 0 <= i < after.len() && (#[trigger] after[i]).0@ == x;
                            assert(i < before.len());
                            assert(after[i] == before[i]);
                        }
                    }
                    let k = choose|k: int| 0 <= k < after.len() && (#[trigger] after[k]).0@ == id@;
                    assert(k == before.len());
                }
                (h, true)
            },
        }
    }

    /// Takes room `id` out; `true` if it was there.
    pub fn remove(&mut self, id: &str) -> (r: bool)
        requires
            old(self).wf(),
        ensures
            final(self).wf(),
            final(self).next_handle == old(self).next_handle,
            removes(old(self).entries@, final(self).entries@, id@, r),
    {
        match self.position(id) {
            Some(i) => {
                let ghost before = self.entries@;
                let _ = self.entries.remove(i);
                proof {
                    let after = self.entries@;
                    assert forall|x: Seq<char>| x != id@ implies #[trigger] handle_of(after, x) == handle_of(
                        before,
                        x,
                    ) by {
                        if exists|j: int| 0 <= j < before.len() && (#[trigger] before[j]).0@ == x {
                            let j = choose|j: int| 0 <= j < before.len() && (#[trigger] before[j]).0@ == x;
                            assert(j != i);
                            if j < i {
                                assert(after[j] == before[j]);
                            } else {
                                assert(after[j - 1] == before[j]);
                            }
                        }
                        if exists|j: int| 0 <= j < after.len() && (#[trigger] after[j]).0@ == x {
                            let j = choose|j: int| 0 <= j < after.len() && (#[trigger] after[j]).0@ == x;
                            if j < i {
                                assert(after[j] == before[j]);
                            } else {
                                assert(after[j] == before[j + 1]);
                            }
                        }
                    }
                    if exists|j: int| 0 <= j < after.len() && (#[trigger] after[j]).0@ == id@ {
                        let j = choose|j: int| 0 <= j < after.len() && (#[trigger] after[j]).0@ == id@;
                        if j < i {
                            assert(after[j] == before[j]);
                        } else {
                            assert(after[j] == before[j + 1]);
                        }
                    }
                }
                true
            },
            None => false,
        }
    }
}

/// What the server does with a message on a connection.
pub enum Route {
    /// Join room `room_id` under `name`; the connection is then in that room.
    Join { room_id: String, name: String },
    /// Hand the message to the room of the connection.
    Forward(Client2Server),
    /// Refuse the message with an error to the connection; nothing changes.
    Reject(String),
}

/// Routes a message from a connection that has (`joined`) or has not yet
/// joined a room: the first message must be a join, and only the first.
pub fn route_message(joined: bool, msg: Client2Server) -> (r: Route)
    ensures
        !joined && msg is JoinGame ==> (r matches Route::Join { room_id, name } && room_id
            == msg->JoinGame_room_id && name == msg->JoinGame_name),
        !joined && !(msg is JoinGame) ==> r is Reject,
        joined && msg is JoinGame ==> r is Reject,
        joined && !(msg is JoinGame) ==> r == Route::Forward(msg),
{
    match msg {
        Client2Server::JoinGame { room_id, name } => {
            if joined {
                Route::Reject(String::from_str("Already joined"))
            } else {
                Route::Join { room_id, name }
            }
        },
        other => {
            if joined {
                Route::Forward(other)
            } else {
                Route::Reject(String::from_str("First message must be JoinGame {room_id,name}"))
            }
        },
    }
}

} // verus!
