use vstd::prelude::*;

use crate::registry::Registry;
use crate::session::room::{streams_of, Room, RoomInfo, Stream};
use crate::text::views;

verus! {

/// The rooms of a server, by id.
pub struct ReferenceDb {
    pub rooms: Registry<Room>,
}

/// Whether this is a room that nobody has joined.
pub open spec fn is_new_room(room: Room, id: Seq<char>) -> bool {
    &&& room.wf()
    &&& room.id@ == id
    &&& !room.closed
    &&& room.labels@ == Map::<Seq<char>, ()>::empty()
    &&& room.data_channels@.len() == 0
    &&& room.users() == Map::<Seq<char>, Seq<Stream>>::empty()
    &&& room.peers@ == Map::<Seq<char>, u64>::empty()
    &&& room.tracks@ == Map::<Seq<char>, u64>::empty()
}

/// Whether the info tells who is in the room, with which streams.
pub open spec fn tells_of_room(info: RoomInfo, room: Room) -> bool {
    &&& info.id@ == room.id@
    &&& info.users@.len() == room.user_streams.order().len()
    &&& forall|i: int|
        0 <= i < info.users@.len() ==> {
            let (id, streams) = #[trigger] info.users@[i];
            &&& id@ == room.user_streams.order()[i]
            &&& room.users().contains_key(id@)
            &&& streams_of(streams@) == room.users()[id@]
        }
}

/// Whether the room is there afterwards: the one that was there, or else a new one.
pub open spec fn fetched(before: ReferenceDb, after: ReferenceDb, id: Seq<char>) -> bool {
    if before.rooms@.contains_key(id) {
        after == before
    } else {
        &&& after.rooms@ == before.rooms@.insert(id, after.rooms@[id])
        &&& is_new_room(after.rooms@[id], id)
    }
}

/// The ids of those rooms that there are.
pub open spec fn known_ids(rooms: Map<Seq<char>, Room>, ids: Seq<Seq<char>>) -> Seq<Seq<char>>
    decreases ids.len(),
{
    if ids.len() == 0 {
        seq![]
    } else {
        let before = known_ids(rooms, ids.drop_last());
        if rooms.contains_key(ids.last()) {
            before.push(ids.last())
        } else {
            before
        }
    }
}

impl Default for ReferenceDb {
    fn default() -> (db: Self)
        ensures
            db.wf(),
            db.rooms@ == Map::<Seq<char>, Room>::empty(),
    {
        ReferenceDb::new()
    }
}

impl ReferenceDb {
    /// What every operation keeps.
    pub open spec fn wf(&self) -> bool {
        &&& self.rooms.wf()
        &&& forall|id: Seq<char>| #[trigger]
            self.rooms@.contains_key(id) ==> self.rooms@[id].wf()
    }

    pub fn new() -> (db: Self)
        ensures
            db.wf(),
            db.rooms@ == Map::<Seq<char>, Room>::empty(),
    {
        Self { rooms: Registry::new() }
    }

    /// Get a Room by its ID
    pub fn fetch_room(&self, id: &str) -> (res: Option<&Room>)
        requires
            self.wf(),
        ensures
            match res {
                None => !self.rooms@.contains_key(id@),
                Some(room) => self.rooms@.contains_key(id@) && *room == self.rooms@[id@]
                    && room.wf(),
            },
    {
        self.rooms.get(id)
    }

    /// Get or create a Room by its ID
    pub fn fetch_or_create_room(&mut self, id: &str)
        requires
            old(self).wf(),
        ensures
            final(self).wf(),
            fetched(*old(self), *final(self), id@),
    {
        if !self.rooms.contains(id) {
            let room = Room::new(id.to_owned());
            let ghost before = self.rooms@;
            let ghost created = room;
            let _none = self.rooms.insert(id.to_owned(), room);
            assert(self.rooms@ == before.insert(id@, created));
        }
    }

    /// Who is in those of the rooms that there are.
    pub fn fetch_available_rooms(&self, ids: &Vec<String>) -> (infos: Vec<RoomInfo>)
        requires
            self.wf(),
        ensures
            infos@.len() == known_ids(self.rooms@, views(ids@)).len(),
            forall|i: int|
                0 <= i < infos@.len() ==> tells_of_room(
                    #[trigger] infos@[i],
                    self.rooms@[known_ids(self.rooms@, views(ids@))[i]],
                ),
    {
        let ghost all = views(ids@);
        let mut infos: Vec<RoomInfo> = Vec::new();
        let mut i: usize = 0;
        assert(all.take(0) =~= seq![]);
        while i < ids.len()
            invariant
                self.wf(),
                all == views(ids@),
                i <= ids@.len(),
                infos@.len() == known_ids(self.rooms@, all.take(i as int)).len(),
                forall|k: int|
                    0 <= k < infos@.len() ==> tells_of_room(
                        #[trigger] infos@[k],
                        self.rooms@[known_ids(self.rooms@, all.take(i as int))[k]],
                    ),
            decreases ids@.len() - i,
        {
            proof {
                assert(all.take(i + 1).drop_last() =~= all.take(i as int));
                assert(all.take(i + 1).last() == ids@[i as int]@);
            }
            if let Some(room) = self.fetch_room(ids[i].as_str()) {
                infos.push(room.get_room_info());
            }
            i = i + 1;
        }
        assert(all.take(i as int) =~= all);
        infos
    }
}

/// Whoever asks for a room a second time is given the same one.
pub proof fn law_room_is_created_once(
    before: ReferenceDb,
    once: ReferenceDb,
    twice: ReferenceDb,
    id: Seq<char>,
)
    requires
        fetched(before, once, id),
        fetched(once, twice, id),
    ensures
        once.rooms@.contains_key(id),
        twice == once,
{
}

/// Asking for a room leaves the others as they were.
pub proof fn law_other_rooms_stay(
    before: ReferenceDb,
    after: ReferenceDb,
    id: Seq<char>,
    other: Seq<char>,
)
    requires
        fetched(before, after, id),
        before.rooms@.contains_key(other),
    ensures
        after.rooms@.contains_key(other),
        after.rooms@[other] == before.rooms@[other],
{
}

/// A room that was not there is open, with nobody and nothing in it.
pub proof fn law_new_room_is_empty(before: ReferenceDb, after: ReferenceDb, id: Seq<char>)
    requires
        fetched(before, after, id),
        !before.rooms@.contains_key(id),
    ensures
        after.rooms@.contains_key(id),
        after.rooms@[id].id@ == id,
        !after.rooms@[id].closed,
        forall|user: Seq<char>| !#[trigger] after.rooms@[id].users().contains_key(user),
        forall|peer: Seq<char>| !#[trigger] after.rooms@[id].peers@.contains_key(peer),
        forall|track: Seq<char>| !#[trigger] after.rooms@[id].tracks@.contains_key(track),
        forall|label: Seq<char>| !#[trigger] after.rooms@[id].labels@.contains_key(label),
        after.rooms@[id].data_channels@.len() == 0,
{
}

/// Asking for a room brings no other into being.
pub proof fn law_no_other_room_is_created(
    before: ReferenceDb,
    after: ReferenceDb,
    id: Seq<char>,
    other: Seq<char>,
)
    requires
        fetched(before, after, id),
        other != id,
        after.rooms@.contains_key(other),
    ensures
        before.rooms@.contains_key(other),
{
}

/// Of the rooms that are asked for, those that there are are told, as often as they are asked for
/// and in that order.
pub proof fn law_known_rooms_are_told(
    rooms: Map<Seq<char>, Room>,
    ids: Seq<Seq<char>>,
    id: Seq<char>,
)
    ensures
        known_ids(rooms, ids).contains(id) <==> ids.contains(id) && rooms.contains_key(id),
        rooms.contains_key(id) ==> known_ids(rooms, ids.push(id)) == known_ids(rooms, ids).push(id),
        !rooms.contains_key(id) ==> known_ids(rooms, ids.push(id)) == known_ids(rooms, ids),
    decreases ids.len(),
{
    assert(ids.push(id).drop_last() =~= ids);
    if ids.len() > 0 {
        let rest = ids.drop_last();
        let known = known_ids(rooms, rest);
        law_known_rooms_are_told(rooms, rest, id);
        if ids.contains(id) {
            let i = choose|i: int| 0 <= i < ids.len() && ids[i] == id;
            if i < rest.len() {
                assert(rest[i] == id);
            }
        }
        if rest.contains(id) {
            let i = choose|i: int| 0 <= i < rest.len() && rest[i] == id;
            assert(ids[i] == id);
        }
        assert(ids[ids.len() - 1] == ids.last());
        if rooms.contains_key(ids.last()) {
            assert(known_ids(rooms, ids) == known.push(ids.last()));
            if known.contains(id) {
                let k = choose|k: int| 0 <= k < known.len() && known[k] == id;
                assert(known.push(ids.last())[k] == id);
            }
            assert(known.push(ids.last())[known.len() as int] == ids.last());
            if known_ids(rooms, ids).contains(id) && id != ids.last() {
                let k = choose|k: int|
                    0 <= k < known.push(ids.last()).len() && known.push(ids.last())[k] == id;
                assert(known[k] == id);
            }
        }
    }
}

/// Everyone who is in a room is told once, with the streams that are theirs, and nobody else is.
pub proof fn law_everyone_in_a_room_is_told(info: RoomInfo, room: Room, user: Seq<char>)
    requires
        room.wf(),
        tells_of_room(info, room),
    ensures
        info.id@ == room.id@,
        room.users().contains_key(user) <==> exists|i: int|
            0 <= i < info.users@.len() && (#[trigger] info.users@[i]).0@ == user,
        forall|i: int|
            0 <= i < info.users@.len() && (#[trigger] info.users@[i]).0@ == user
                ==> room.users().contains_key(user) && streams_of(info.users@[i].1@)
                == room.users()[user],
        forall|i: int, j: int|
            0 <= i < j < info.users@.len() ==> (#[trigger] info.users@[i]).0@ != (
            #[trigger] info.users@[j]).0@,
{
    room.user_streams.lemma_order();
    let order = room.user_streams.order();
    if room.users().contains_key(user) {
        assert(room.user_streams@.contains_key(user));
        assert(order.contains(user));
        let i = choose|i: int| 0 <= i < order.len() && order[i] == user;
        assert(info.users@[i].0@ == user);
    }
}

} // verus!
