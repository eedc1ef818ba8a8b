use vstd::prelude::*;

use crate::protocol::{ClientMessage, Effect, Inbound, InternalMessage, ToClientMessage};
use crate::json::{read_sheet_name, sheet_name};
use crate::status::ServerMessage;
use crate::store::{has_name, sheets, upserted, without_owner, CharacterStore, Sheet};

verus! {

/// The server sends `s` to its client as a character update.
pub open spec fn sends_sheet(e: Effect, s: Sheet) -> bool {
    match e {
        Effect::Send(ToClientMessage::CharacterUpdated { data, player_id }) => data@ == s.payload
            && player_id == s.owner,
        _ => false,
    }
}

/// The effects of a connection taking the id `id`: the id itself when the
/// server chose it, the new-connection event, then every sheet of the store.
pub open spec fn join_effects(r: Seq<Effect>, id: u32, announce: bool, sheets: Seq<Sheet>) -> bool {
    let k: int = if announce { 1 } else { 0 };
    &&& r.len() == k + 1 + sheets.len()
    &&& announce ==> r[0] == Effect::Send(ToClientMessage::Id { id })
    &&& r[k] == Effect::Signal(ServerMessage::NewConnection { id })
    &&& forall|j: int| 0 <= j < sheets.len() ==> sends_sheet(r[k + 1 + j], #[trigger] sheets[j])
}

/// `e` hands the sheet `data` of client `id` from connection `origin` to the
/// other connections.
pub open spec fn broadcasts_update(e: Effect, origin: u64, data: Seq<char>, id: u32) -> bool {
    match e {
        Effect::Broadcast(InternalMessage::CharacterUpdated { origin: o, character_data, player_id }) =>
            o == origin && character_data@ == data && player_id == id,
        _ => false,
    }
}

/// `e` writes the sheet `data` of client `id` to this connection's client.
pub open spec fn forwards_update(e: Effect, data: Seq<char>, id: u32) -> bool {
    match e {
        Effect::Send(ToClientMessage::CharacterUpdated { data: d, player_id }) => d@ == data && player_id
            == id,
        _ => false,
    }
}

/// The sheet and writer that `conn` passes on to its client when `msg`
/// reaches it: every update that another connection produced, while open.
pub open spec fn forwarded(conn: Connection, msg: InternalMessage) -> Option<(Seq<char>, u32)> {
    match msg {
        InternalMessage::CharacterUpdated { origin, character_data, player_id } => if conn.open
            && origin != conn.key {
            Some((character_data@, player_id))
        } else {
            None
        },
    }
}

/// One client connection: `Unidentified` while `id` is none, then
/// `Identified` for good.
pub struct Connection {
    /// Tells this connection apart from the others of the same listener.
    pub key: u64,
    pub id: Option<u32>,
    pub open: bool,
    /// Whether the records that this client wrote leave the store when it
    /// disconnects; otherwise later clients still see them.
    pub forget_on_close: bool,
}

impl Connection {
    pub fn new(key: u64, forget_on_close: bool) -> (r: Connection)
        ensures
            r.key == key,
            r.id is None,
            r.open,
            r.forget_on_close == forget_on_close,
    {
        Connection { key, id: None, open: true, forget_on_close }
    }

    /// Takes `new_id` as the client's identity: announces it to the
    /// controller, and sends the client every record of the store (and first
    /// the id itself when `announce`). Nothing happens when the connection
    /// already has an id or is closed.
    pub fn id_assigned(&mut self, new_id: u32, announce: bool, store: &CharacterStore) -> (r: Vec<
        Effect,
    >)
        ensures
            final(self).key == old(self).key,
            final(self).open == old(self).open,
            final(self).forget_on_close == old(self).forget_on_close,
            old(self).open && old(self).id is None ==> final(self).id == Some(new_id) && join_effects(
                r@,
                new_id,
                announce,
                store@,
            ),
            !(old(self).open && old(self).id is None) ==> final(self).id == old(self).id && r@.len()
                == 0,
    {
        let mut effects: Vec<Effect> = Vec::new();
        if !self.open || self.id.is_some() {
            return effects;
        }
        self.id = Some(new_id);
        if announce {
            effects.push(Effect::Send(ToClientMessage::Id { id: new_id }));
        }
        effects.push(Effect::Signal(ServerMessage::NewConnection { id: new_id }));
        let ghost k: int = if announce { 1 } else { 0 };
        let records = store.snapshot();
        let ghost all = store@;
        assert(records@.len() == all.len());
        assert forall|j: int| 0 <= j < records@.len() implies #[trigger] records@[j]@ == all[j] by {
            assert(sheets(records@)[j] == records@[j]@);
        }
        let mut i: usize = 0;
        while i < records.len()
            invariant
                i <= records@.len(),
                k == (if announce { 1int } else { 0int }),
                all == store@,
                records@.len() == all.len(),
                forall|j: int| 0 <= j < records@.len() ==> #[trigger] records@[j]@ == all[j],
                effects@.len() == k + 1 + i,
                announce ==> effects@[0] == Effect::Send(ToClientMessage::Id { id: new_id }),
                effects@[k] == Effect::Signal(ServerMessage::NewConnection { id: new_id }),
                forall|j: int| 0 <= j < i ==> sends_sheet(effects@[k + 1 + j], #[trigger] all[j]),
            decreases records@.len() - i,
        {
            let rec = &records[i];
            assert(records@[i as int]@ == all[i as int]);
            let ghost prev = effects@;
            effects.push(
                Effect::Send(
                    ToClientMessage::CharacterUpdated { data: rec.payload.clone(), player_id: rec.owner },
                ),
            );
            assert(sends_sheet(effects@[k + 1 + i], all[i as int]));
            assert(forall|j: int| 0 <= j < effects@.len() - 1 ==> effects@[j] == prev[j]);
            i = i + 1;
        }
        effects
    }

    /// The client asked for an id: the server draws one at random.
    pub fn requested_id(&mut self, store: &CharacterStore) -> (r: Vec<Effect>)
        ensures
            final(self).key == old(self).key,
            final(self).open == old(self).open,
            final(self).forget_on_close == old(self).forget_on_close,
            old(self).open && old(self).id is None ==> final(self).id is Some && join_effects(
                r@,
                final(self).id.unwrap(),
                true,
                store@,
            ),
            !(old(self).open && old(self).id is None) ==> final(self).id == old(self).id && r@.len()
                == 0,
    {
        if !self.open || self.id.is_some() {
            return Vec::new();
        }
        let fresh: u32 = rand::random::<u32>();
        self.id_assigned(fresh, true, store)
    }

    /// The client reconnects under an id it already had. The id is not
    /// checked against the other live connections: two connections may share
    /// one, and their updates then carry the same writer.
    pub fn received_id(&mut self, new_id: u32, store: &CharacterStore) -> (r: Vec<Effect>)
        ensures
            final(self).key == old(self).key,
            final(self).open == old(self).open,
            final(self).forget_on_close == old(self).forget_on_close,
            old(self).open && old(self).id is None ==> final(self).id == Some(new_id) && join_effects(
                r@,
                new_id,
                false,
                store@,
            ),
            !(old(self).open && old(self).id is None) ==> final(self).id == old(self).id && r@.len()
                == 0,
    {
        self.id_assigned(new_id, false, store)
    }

    /// Records the sheet `data` whose name was read as `name`, and hands it to
    /// the other connections. Nothing happens when the name could not be read,
    /// or the connection has no id yet or is closed.
    pub fn update_named(
        &mut self,
        name: Option<String>,
        data: String,
        store: &mut CharacterStore,
    ) -> (r: Vec<Effect>)
        ensures
            *final(self) == *old(self),
            match (old(self).open, old(self).id, name) {
                (true, Some(id), Some(n)) => {
                    &&& final(store)@ == upserted(
                        old(store)@,
                        Sheet { name: n@, owner: id, payload: data@ },
                    )
                    &&& r@.len() == 1
                    &&& broadcasts_update(r@[0], old(self).key, data@, id)
                },
                _ => final(store)@ == old(store)@ && r@.len() == 0,
            },
    {
        let mut effects: Vec<Effect> = Vec::new();
        if !self.open {
            return effects;
        }
        let id = match self.id {
            Some(v) => v,
            None => return effects,
        };
        let name = match name {
            Some(n) => n,
            None => return effects,
        };
        let shared = data.clone();
        store.upsert(name, id, data);
        effects.push(
            Effect::Broadcast(
                InternalMessage::CharacterUpdated { origin: self.key, character_data: shared, player_id: id },
            ),
        );
        effects
    }

    /// The client sent a new version of a character sheet.
    pub fn character_updated(&mut self, data: String, store: &mut CharacterStore) -> (r: Vec<Effect>)
        ensures
            *final(self) == *old(self),
            match (old(self).open, old(self).id, sheet_name(data@)) {
                (true, Some(id), Some(n)) => {
                    &&& final(store)@ == upserted(
                        old(store)@,
                        Sheet { name: n, owner: id, payload: data@ },
                    )
                    &&& r@.len() == 1
                    &&& broadcasts_update(r@[0], old(self).key, data@, id)
                },
                _ => final(store)@ == old(store)@ && r@.len() == 0,
            },
    {
        let name = read_sheet_name(data.as_str());
        self.update_named(name, data, store)
    }

    /// An update from another connection reaches this one: it goes on to the
    /// client, unless this connection produced it or is closed.
    pub fn received_internal_message(&self, msg: InternalMessage) -> (r: Vec<Effect>)
        ensures
            match forwarded(*self, msg) {
                Some((data, player_id)) => r@.len() == 1 && forwards_update(r@[0], data, player_id),
                None => r@.len() == 0,
            },
    {
        let mut effects: Vec<Effect> = Vec::new();
        match msg {
            InternalMessage::CharacterUpdated { origin, character_data, player_id } => {
                if self.open && origin != self.key {
                    effects.push(
                        Effect::Send(ToClientMessage::CharacterUpdated { data: character_data, player_id }),
                    );
                }
            },
        }
        effects
    }

    /// The client went away: the connection closes, reports the closing when
    /// the client had an id, and drops that client's records when so set.
    pub fn closed(&mut self, store: &mut CharacterStore) -> (r: Vec<Effect>)
        ensures
            final(self).key == old(self).key,
            final(self).id == old(self).id,
            final(self).forget_on_close == old(self).forget_on_close,
            !final(self).open,
            match (old(self).open, old(self).id) {
                (true, Some(id)) => {
                    &&& r@ == seq![Effect::Signal(ServerMessage::ClosedConnection { id })]
                    &&& final(store)@ == if old(self).forget_on_close {
                        without_owner(old(store)@, id)
                    } else {
                        old(store)@
                    }
                },
                _ => r@.len() == 0 && final(store)@ == old(store)@,
            },
    {
        let mut effects: Vec<Effect> = Vec::new();
        if !self.open {
            return effects;
        }
        self.open = false;
        if let Some(id) = self.id {
            if self.forget_on_close {
                store.remove_owned_by(id);
            }
            effects.push(Effect::Signal(ServerMessage::ClosedConnection { id }));
        }
        effects
    }

    /// Handles one frame from the client. Malformed frames change nothing and
    /// keep the connection open; only a close ends it.
    pub fn on_message(&mut self, message: Inbound, store: &mut CharacterStore) -> (r: Vec<Effect>)
        ensures
            final(self).key == old(self).key,
            final(self).forget_on_close == old(self).forget_on_close,
            match message {
                Inbound::Client(ClientMessage::RequestId) => {
                    &&& final(self).open == old(self).open
                    &&& final(store)@ == old(store)@
                    &&& old(self).open && old(self).id is None ==> final(self).id is Some && join_effects(
                        r@,
                        final(self).id.unwrap(),
                        true,
                        old(store)@,
                    )
                    &&& !(old(self).open && old(self).id is None) ==> final(self).id == old(self).id
                        && r@.len() == 0
                },
                Inbound::Client(ClientMessage::Id { id }) => {
                    &&& final(self).open == old(self).open
                    &&& final(store)@ == old(store)@
                    &&& old(self).open && old(self).id is None ==> final(self).id == Some(id)
                        && join_effects(r@, id, false, old(store)@)
                    &&& !(old(self).open && old(self).id is None) ==> final(self).id == old(self).id
                        && r@.len() == 0
                },
                Inbound::Client(ClientMessage::CharacterUpdated { data }) => {
                    &&& *final(self) == *old(self)
                    &&& match (old(self).open, old(self).id, sheet_name(data@)) {
                        (true, Some(id), Some(n)) => {
                            &&& final(store)@ == upserted(
                                old(store)@,
                                Sheet { name: n, owner: id, payload: data@ },
                            )
                            &&& r@.len() == 1
                            &&& broadcasts_update(r@[0], old(self).key, data@, id)
                        },
                        _ => final(store)@ == old(store)@ && r@.len() == 0,
                    }
                },
                Inbound::Unreadable => *final(self) == *old(self) && final(store)@ == old(store)@
                    && r@.len() == 0,
                Inbound::Close => {
                    &&& !final(self).open
                    &&& final(self).id == old(self).id
                    &&& match (old(self).open, old(self).id) {
                        (true, Some(id)) => {
                            &&& r@ == seq![Effect::Signal(ServerMessage::ClosedConnection { id })]
                            &&& final(store)@ == if old(self).forget_on_close {
                                without_owner(old(store)@, id)
                            } else {
                                old(store)@
                            }
                        },
                        _ => r@.len() == 0 && final(store)@ == old(store)@,
                    }
                },
            },
    {
        match message {
            Inbound::Client(ClientMessage::RequestId) => self.requested_id(store),
            Inbound::Client(ClientMessage::Id { id }) => self.received_id(id, store),
            Inbound::Client(ClientMessage::CharacterUpdated { data }) => self.character_updated(data, store),
            Inbound::Unreadable => Vec::new(),
            Inbound::Close => self.closed(store),
        }
    }
}

/// The snapshot part of `join_effects`, one sheet at a time.
proof fn lemma_join_sends(r: Seq<Effect>, id: u32, announce: bool, sheets: Seq<Sheet>, j: int)
    requires
        join_effects(r, id, announce, sheets),
        0 <= j < sheets.len(),
    ensures
        sends_sheet(r[(if announce { 1int } else { 0int }) + 1 + j], sheets[j]),
{
}

/// An update that an identified connection accepts reaches every other open
/// connection's client with the same sheet, attributed to the writer.
pub proof fn lemma_update_reaches_other_clients(
    a: Connection,
    b: Connection,
    data: Seq<char>,
    writer: u32,
    sent: Effect,
)
    requires
        a.open,
        a.id == Some(writer),
        b.open,
        b.key != a.key,
        broadcasts_update(sent, a.key, data, writer),
    ensures
        sent is Broadcast,
        forwarded(b, sent->Broadcast_0) == Some((data, writer)),
{
}

/// A client that joins after two updates of an empty store gets one sheet
/// per distinct name, each the latest written under that name.
pub proof fn lemma_join_after_two_updates(first: Sheet, second: Sheet, r: Seq<Effect>, id: u32, announce: bool)
    requires
        join_effects(r, id, announce, upserted(upserted(Seq::empty(), first), second)),
    ensures
        ({
            let k: int = if announce { 1 } else { 0 };
            &&& first.name != second.name ==> r.len() == k + 3 && sends_sheet(r[k + 1], first) && sends_sheet(
                r[k + 2],
                second,
            )
            &&& first.name == second.name ==> r.len() == k + 2 && sends_sheet(r[k + 1], second)
        }),
{
    let one = upserted(Seq::empty(), first);
    assert(!has_name(Seq::empty(), first.name));
    assert(one == seq![first]);
    let k: int = if announce { 1 } else { 0 };
    if first.name != second.name {
        assert(!has_name(one, second.name));
        let two = upserted(one, second);
        assert(two =~= seq![first, second]);
        lemma_join_sends(r, id, announce, two, 0);
        lemma_join_sends(r, id, announce, two, 1);
    } else {
        assert(one[0].name == second.name);
        assert(has_name(one, second.name));
        let two = upserted(one, second);
        assert(two =~= seq![second]);
        lemma_join_sends(r, id, announce, two, 0);
    }
}

} // verus!
