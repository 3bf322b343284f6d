use vstd::prelude::*;

use crate::game::events::GameEvent;
use crate::game::uno_game::{draw_step, init_step, pass_step, play_step, UnoGame};
use crate::protocol::{Client2Server, Server2Client};
use crate::text::{decimal, push_decimal};

verus! {

/// A room with no connected member is reaped once it has been idle this long.
pub const IDLE_SECS: u64 = 30;

/// How often a room checks whether it has gone idle.
pub const TICK_SECS: u64 = 15;

/// A connection that has joined a room. Its player id is its position in the
/// room's roster; a member that leaves keeps its place, marked disconnected.
pub struct Member {
    pub conn_id: u64,
    pub name: String,
    pub connected: bool,
}

/// A command in a room's mailbox.
pub enum RoomCmd {
    Join { conn_id: u64, name: String },
    Leave { conn_id: u64 },
    GameMsg { conn_id: u64, msg: Client2Server },
}

/// A message the room wants delivered: to every connected member, or to one
/// connection.
pub enum Outgoing {
    ToAll(Server2Client),
    ToOne(u64, Server2Client),
}

/// One game and the connections taking part in it. All changes to the game
/// go through `handle`, one command at a time.
pub struct Room {
    pub room_id: String,
    pub game: UnoGame,
    pub members: Vec<Member>,
    pub last_active: u64,
    pub closed: bool,
}

/// The session id handed out with a welcome: the room id, a dash and the
/// player id.
pub open spec fn session_text(room: Seq<char>, pid: nat) -> Seq<char> {
    room + "-"@ + decimal(pid)
}

fn session_id(room_id: &str, pid: usize) -> (r: String)
    ensures
        r@ == session_text(room_id@, pid as nat),
{
    let mut s = String::from_str(room_id);
    s.append("-");
    push_decimal(&mut s, pid as u64);
    s
}

// ----- model -----

/// `conn` is a connected member of the roster.
pub open spec fn connected_member(members: Seq<Member>, conn: u64) -> bool {
    exists|i: int| 0 <= i < members.len() && #[trigger] members[i].conn_id == conn && members[i].connected
}

/// Connection `conn` may speak for player `pid`.
pub open spec fn claims(members: Seq<Member>, conn: u64, pid: usize) -> bool {
    pid < members.len() && members[pid as int].conn_id == conn && members[pid as int].connected
}

/// `s` is the error reply to `conn`: one error message if it is a connected
/// member, nothing otherwise.
pub open spec fn error_reply(s: Seq<Outgoing>, conn: u64, members: Seq<Member>) -> bool {
    &&& connected_member(members, conn) ==> (s.len() == 1 && (s[0] matches Outgoing::ToOne(
        c,
        Server2Client::ServerError { .. },
    ) && c == conn))
    &&& !connected_member(members, conn) ==> s.len() == 0
}

/// Entry `j` (from 1) of a resync: member `j - 1` gets its own hand.
pub open spec fn private_entry(o: Outgoing, j: int, g: UnoGame, members: Seq<Member>) -> bool {
    o matches Outgoing::ToOne(c, Server2Client::PlayerState { player_id, hand }) && c
        == members[j - 1].conn_id && player_id == j - 1 && (j - 1 < g.seats().len() ==> hand@
        == g.hands()[j - 1]) && (j - 1 >= g.seats().len() ==> hand@.len() == 0)
}

/// `s` resyncs everyone with game `g`: first one public snapshot for all,
/// then each member's own hand.
pub open spec fn sync_of(s: Seq<Outgoing>, g: UnoGame, members: Seq<Member>) -> bool {
    &&& s.len() == members.len() + 1
    &&& s[0] matches Outgoing::ToAll(
        Server2Client::SharedState { players_cards_count, top_card, current_player, clockwise },
    ) && players_cards_count@.len() == g.seats().len() && (forall|i: int|
        0 <= i < g.seats().len() ==> (#[trigger] players_cards_count@[i]).0 == g.seats()[i].name
            && players_cards_count@[i].1 == g.hands()[i].len()) && top_card == g.top_card
        && current_player == g.current_player && clockwise == g.direction
    &&& forall|j: int| 1 <= j < s.len() ==> private_entry(#[trigger] s[j], j, g, members)
}

/// Whether the room takes a game message on to the engine. A start needs a
/// game not yet running; playing, drawing and passing need a running game
/// and the sender's turn; all of them need the sender to speak for the
/// player id it names. Leaving is taken as it is; a second join and a
/// challenge are refused.
pub open spec fn room_accepts(g: UnoGame, members: Seq<Member>, conn: u64, msg: Client2Server) -> bool {
    match msg {
        Client2Server::StartGame { player_id } => !g.started && claims(members, conn, player_id),
        Client2Server::PlayCard { player_id, .. } => g.started && claims(members, conn, player_id)
            && player_id == g.current_player,
        Client2Server::DrawCard { player_id, .. } => g.started && claims(members, conn, player_id)
            && player_id == g.current_player,
        Client2Server::PassTurn { player_id } => g.started && claims(members, conn, player_id)
            && player_id == g.current_player,
        Client2Server::LeaveGame { .. } => true,
        Client2Server::JoinGame { .. } => false,
        Client2Server::ChallengeWildDrawFour { .. } => false,
    }
}

/// The roster's names, in player id order.
pub open spec fn roster_names(members: Seq<Member>) -> Seq<String> {
    members.map_values(|m: Member| m.name)
}

/// The batch ends a game.
pub open spec fn ends_game(ev: Seq<GameEvent>) -> bool {
    exists|k: int| 0 <= k < ev.len() && #[trigger] ev[k] is GameOver
}

/// `s` hands batch `ev` to everyone as it is: one Events message, or nothing
/// for an empty batch.
pub open spec fn broadcast_of(s: Seq<Outgoing>, ev: Seq<GameEvent>) -> bool {
    if ev.len() == 0 {
        s.len() == 0
    } else {
        s.len() == 1 && (s[0] matches Outgoing::ToAll(Server2Client::Events(e)) && e@ == ev)
    }
}

/// Number of messages in a round for batch `ev` and `m` members.
pub open spec fn round_len(ev: Seq<GameEvent>, m: nat) -> int {
    (if ev.len() == 0 {
        0int
    } else {
        1int
    }) + m + 1
}

/// `s` is one round: batch `ev` for everyone, then a resync with game `g`.
pub open spec fn round_of(s: Seq<Outgoing>, ev: Seq<GameEvent>, g: UnoGame, members: Seq<Member>) -> bool {
    let k = round_len(ev, members.len()) - members.len() - 1;
    &&& s.len() == round_len(ev, members.len())
    &&& broadcast_of(s.take(k), ev)
    &&& sync_of(s.skip(k), g, members)
}

/// The table once a round for batch `ev` that left game `g` is done: a fresh
/// table if the batch ended the game, `g` otherwise.
pub open spec fn table_after(fin: UnoGame, g: UnoGame, ev: Seq<GameEvent>) -> bool {
    &&& ends_game(ev) ==> fresh_table(fin)
    &&& !ends_game(ev) ==> fin == g
}

/// `s` is `n` draws by `pid` starting from game `g0`, one round each, and
/// `g_end` is the game after the last one.
pub open spec fn draw_rounds(g0: UnoGame, pid: usize, n: nat, members: Seq<Member>, s: Seq<Outgoing>, g_end: UnoGame) -> bool
    decreases n,
{
    if n == 0 {
        s.len() == 0 && g_end == g0
    } else {
        exists|g_mid: UnoGame, ev: Seq<GameEvent>|
            #[trigger] draw_step(g_mid, pid, g_end, ev) && {
                let k = s.len() - round_len(ev, members.len());
                &&& 0 <= k
                &&& draw_rounds(g0, pid, (n - 1) as nat, members, s.take(k), g_mid)
                &&& round_of(s.skip(k), ev, g_end, members)
            }
    }
}

/// What an accepted game message does: the engine runs it and every batch it
/// returns goes out as a round, in call order. A start runs `init_game` on
/// the roster's names, a play `play_card`, a pass `player_pass`, each once; a
/// draw of `count` runs `draw_card` `max(count, 1)` times; a leave only
/// resyncs. `out` is what is sent and `fin` the table afterwards.
pub open spec fn game_msg_outcome(g0: UnoGame, members: Seq<Member>, msg: Client2Server, out: Seq<Outgoing>, fin: UnoGame) -> bool {
    match msg {
        Client2Server::StartGame { .. } => exists|g1: UnoGame, ev: Seq<GameEvent>|
            #[trigger] init_step(g0, roster_names(members), g1, ev) && round_of(out, ev, g1, members)
                && table_after(fin, g1, ev),
        Client2Server::PlayCard { player_id, card_index, color, call_uno } => exists|
            g1: UnoGame,
            ev: Seq<GameEvent>,
        |
            #[trigger] play_step(g0, player_id, card_index, call_uno, color, g1, ev) && round_of(
                out,
                ev,
                g1,
                members,
            ) && table_after(fin, g1, ev),
        Client2Server::DrawCard { player_id, count } => draw_rounds(
            g0,
            player_id,
            if count == 0 {
                1nat
            } else {
                count as nat
            },
            members,
            out,
            fin,
        ),
        Client2Server::PassTurn { player_id } => exists|g1: UnoGame, ev: Seq<GameEvent>|
            #[trigger] pass_step(g0, player_id, g1, ev) && round_of(out, ev, g1, members) && table_after(
                fin,
                g1,
                ev,
            ),
        Client2Server::LeaveGame { .. } => sync_of(out, g0, members) && fin == g0,
        _ => true,
    }
}

/// A draw never ends a game.
pub proof fn lemma_draw_never_ends(g0: UnoGame, pid: usize, g1: UnoGame, ev: Seq<GameEvent>)
    requires
        draw_step(g0, pid, g1, ev),
    ensures
        !ends_game(ev),
{
    assert forall|k: int| 0 <= k < ev.len() implies !(#[trigger] ev[k] is GameOver) by {}
}

/// A table back in the lobby with a fresh deck.
pub open spec fn fresh_table(g: UnoGame) -> bool {
    g.wf() && !g.started && g.seats().len() == 0 && g.top_card is None
}

/// Number of connected members.
pub open spec fn connected_total(members: Seq<Member>) -> nat
    decreases members.len(),
{
    if members.len() == 0 {
        0
    } else {
        connected_total(members.drop_last()) + if members.last().connected {
            1nat
        } else {
            0nat
        }
    }
}

pub proof fn lemma_connected_total_zero(members: Seq<Member>)
    ensures
        connected_total(members) == 0 <==> forall|i: int| 0 <= i < members.len() ==> !(#[trigger] members[i]).connected,
    decreases members.len(),
{
    if members.len() > 0 {
        lemma_connected_total_zero(members.drop_last());
        assert forall|i: int| 0 <= i < members.len() - 1 implies #[trigger] members.drop_last()[i] == members[i] by {}
        if connected_total(members) == 0 {
            assert forall|i: int| 0 <= i < members.len() implies !(#[trigger] members[i]).connected by {
                if i < members.len() - 1 {
                    assert(members.drop_last()[i] == members[i]);
                }
            }
        } else if forall|i: int| 0 <= i < members.len() ==> !(#[trigger] members[i]).connected {
            assert(!members[members.len() - 1].connected);
            assert forall|i: int| 0 <= i < members.drop_last().len() implies !(#[trigger] members.drop_last()[i]).connected by {
                assert(members.drop_last()[i] == members[i]);
            }
        }
    }
}

/// The room has had no connected member and no command for longer than the
/// idle limit.
pub open spec fn idle_at(members: Seq<Member>, last_active: u64, now: u64) -> bool {
    &&& forall|i: int| 0 <= i < members.len() ==> !(#[trigger] members[i]).connected
    &&& now > last_active
    &&& now - last_active > IDLE_SECS
}

fn has_game_over(ev: &Vec<GameEvent>) -> (r: bool)
    ensures
        r == exists|k: int| 0 <= k < ev@.len() && #[trigger] ev@[k] is GameOver,
{
    let mut k: usize = 0;
    while k < ev.len()
        invariant
            k <= ev@.len(),
            forall|j: int| 0 <= j < k ==> !(#[trigger] ev@[j] is GameOver),
        decreases ev@.len() - k,
    {
        if matches!(ev[k], GameEvent::GameOver { .. }) {
            return true;
        }
        k = k + 1;
    }
    false
}

impl Room {
    pub open spec fn wf(&self) -> bool {
        self.game.wf()
    }

    /// An open room with a table in the lobby and no members.
    pub fn new(room_id: String, now: u64) -> (r: Room)
        ensures
            r.wf(),
            r.room_id == room_id,
            fresh_table(r.game),
            r.members@.len() == 0,
            r.last_active == now,
            !r.closed,
    {
        Room { room_id, game: UnoGame::new(), members: Vec::new(), last_active: now, closed: false }
    }

    /// Number of members still connected.
    pub fn connected_count(&self) -> (r: usize)
        ensures
            r == connected_total(self.members@),
            r == 0 <==> forall|i: int| 0 <= i < self.members@.len() ==> !(#[trigger] self.members@[i]).connected,
    {
        let mut n: usize = 0;
        let mut i: usize = 0;
        while i < self.members.len()
            invariant
                i <= self.members@.len(),
                n <= i,
                n == connected_total(self.members@.take(i as int)),
            decreases self.members@.len() - i,
        {
            proof {
                assert(self.members@.take(i + 1).drop_last() =~= self.members@.take(i as int));
            }
            if self.members[i].connected {
                n = n + 1;
            }
            i = i + 1;
        }
        proof {
            assert(self.members@.take(i as int) =~= self.members@);
            lemma_connected_total_zero(self.members@);
        }
        n
    }

    /// Whether the room has gone idle at time `now`.
    pub fn idle_expired(&self, now: u64) -> (r: bool)
        ensures
            r == idle_at(self.members@, self.last_active, now),
    {
        self.connected_count() == 0 && now > self.last_active && now - self.last_active > IDLE_SECS
    }

    /// The periodic check: an idle room closes, and `true` tells the caller
    /// to take it out of the registry. A closed room stays closed and never
    /// asks again.
    pub fn on_tick(&mut self, now: u64) -> (r: bool)
        ensures
            r == (!old(self).closed && idle_at(old(self).members@, old(self).last_active, now)),
            final(self).closed == (old(self).closed || r),
            final(self).game == old(self).game,
            final(self).members == old(self).members,
            final(self).last_active == old(self).last_active,
            final(self).room_id == old(self).room_id,
    {
        if self.closed {
            return false;
        }
        if self.idle_expired(now) {
            self.closed = true;
            true
        } else {
            false
        }
    }

    fn is_connected_member(&self, conn_id: u64) -> (r: bool)
        ensures
            r == connected_member(self.members@, conn_id),
    {
        let mut i: usize = 0;
        while i < self.members.len()
            invariant
                i <= self.members@.len(),
                forall|j: int|
                    0 <= j < i ==> !(#[trigger] self.members@[j].conn_id == conn_id && self.members@[j].connected),
            decreases self.members@.len() - i,
        {
            if self.members[i].conn_id == conn_id && self.members[i].connected {
                return true;
            }
            i = i + 1;
        }
        false
    }

    fn claims(&self, conn_id: u64, player_id: usize) -> (r: bool)
        ensures
            r == claims(self.members@, conn_id, player_id),
    {
        player_id < self.members.len() && self.members[player_id].conn_id == conn_id
            && self.members[player_id].connected
    }

    /// Replies with an error to `conn_id` if it is a connected member.
    fn send_err(&self, conn_id: u64, message: &str, out: &mut Vec<Outgoing>)
        ensures
            final(out)@.len() >= old(out)@.len(),
            final(out)@.take(old(out)@.len() as int) == old(out)@,
            error_reply(final(out)@.skip(old(out)@.len() as int), conn_id, self.members@),
    {
        let ghost before = out@;
        if self.is_connected_member(conn_id) {
            out.push(Outgoing::ToOne(conn_id, Server2Client::ServerError { message: String::from_str(message) }));
        }
        proof {
            assert(out@.take(before.len() as int) =~= before);
        }
    }

    /// Sends a non-empty batch of events to everyone.
    fn broadcast(ev: Vec<GameEvent>, out: &mut Vec<Outgoing>)
        ensures
            ev@.len() == 0 ==> final(out)@ == old(out)@,
            ev@.len() > 0 ==> (final(out)@.len() == old(out)@.len() + 1 && final(out)@.take(
                old(out)@.len() as int,
            ) == old(out)@ && (final(out)@.last() matches Outgoing::ToAll(Server2Client::Events(e)) && e@
                == ev@)),
    {
        if ev.len() > 0 {
            let ghost before = out@;
            out.push(Outgoing::ToAll(Server2Client::Events(ev)));
            proof {
                assert(out@.take(before.len() as int) =~= before);
            }
        }
    }

    /// Sends everyone the public snapshot of the game, then each member
    /// their own hand.
    fn sync_state(&self, out: &mut Vec<Outgoing>)
        ensures
            final(out)@.len() == old(out)@.len() + self.members@.len() + 1,
            final(out)@.take(old(out)@.len() as int) == old(out)@,
            sync_of(final(out)@.skip(old(out)@.len() as int), self.game, self.members@),
    {
        let ghost before = out@;
        let shared = Server2Client::SharedState {
            players_cards_count: self.game.get_players_cards_count(),
            top_card: self.game.top_card,
            current_player: self.game.current_player,
            clockwise: self.game.direction,
        };
        out.push(Outgoing::ToAll(shared));
        let mut i: usize = 0;
        while i < self.members.len()
            invariant
                i <= self.members@.len(),
                out@.len() == before.len() + 1 + i,
                out@.take(before.len() as int) == before,
                out@[before.len() as int] matches Outgoing::ToAll(
                    Server2Client::SharedState { players_cards_count, top_card, current_player, clockwise },
                ) && players_cards_count@.len() == self.game.seats().len() && (forall|k: int|
                    0 <= k < self.game.seats().len() ==> (#[trigger] players_cards_count@[k]).0
                        == self.game.seats()[k].name && players_cards_count@[k].1
                        == self.game.hands()[k].len()) && top_card == self.game.top_card
                    && current_player == self.game.current_player && clockwise == self.game.direction,
                forall|j: int|
                    1 <= j <= i ==> private_entry(#[trigger] out@.skip(before.len() as int)[j], j, self.game, self.members@),
            decreases self.members@.len() - i,
        {
            let hand = self.game.get_player_hand(i);
            let ghost prev = out@;
            out.push(Outgoing::ToOne(self.members[i].conn_id, Server2Client::PlayerState { player_id: i, hand }));
            i = i + 1;
            proof {
                assert(out@.take(before.len() as int) =~= prev.take(before.len() as int));
                assert forall|j: int| 1 <= j <= i implies private_entry(
                    #[trigger] out@.skip(before.len() as int)[j],
                    j,
                    self.game,
                    self.members@,
                ) by {
                    assert(out@.skip(before.len() as int)[j] == out@[before.len() + j]);
                    if j < i {
                        assert(prev.skip(before.len() as int)[j] == prev[before.len() + j]);
                    }
                }
            }
        }
        proof {
            let s = out@.skip(before.len() as int);
            assert(s[0] == out@[before.len() as int]);
        }
    }

    /// Names of the roster, in player id order.
    fn member_names(&self) -> (r: Vec<String>)
        ensures
            r@.len() == self.members@.len(),
            r@ == roster_names(self.members@),
    {
        let mut r: Vec<String> = Vec::new();
        let mut i: usize = 0;
        while i < self.members.len()
            invariant
                i <= self.members@.len(),
                r@.len() == i,
                forall|k: int| 0 <= k < i ==> #[trigger] r@[k] == self.members@[k].name,
            decreases self.members@.len() - i,
        {
            r.push(self.members[i].name.clone());
            i = i + 1;
        }
        assert(r@ =~= roster_names(self.members@));
        r
    }
}

impl Room {
    /// Sends batch `ev` to everyone, then resyncs everyone with the game as
    /// it stands; a batch that ends the game then puts a fresh table in the
    /// lobby.
    fn finish_round(&mut self, ev: Vec<GameEvent>, out: &mut Vec<Outgoing>)
        requires
            old(self).wf(),
        ensures
            final(self).wf(),
            final(self).members == old(self).members,
            final(self).room_id == old(self).room_id,
            final(self).last_active == old(self).last_active,
            final(self).closed == old(self).closed,
            final(out)@.len() >= old(out)@.len(),
            final(out)@.take(old(out)@.len() as int) == old(out)@,
            round_of(final(out)@.skip(old(out)@.len() as int), ev@, old(self).game, old(self).members@),
            table_after(final(self).game, old(self).game, ev@),
    {
        let ghost start = out@;
        let ghost evs = ev@;
        let reset = has_game_over(&ev);
        Room::broadcast(ev, out);
        let ghost mid = out@;
        self.sync_state(out);
        if reset {
            self.game = UnoGame::new();
        }
        proof {
            let s = out@.skip(start.len() as int);
            let k = round_len(evs, self.members@.len()) - self.members@.len() - 1;
            assert(mid.len() == start.len() + k);
            assert(out@.take(start.len() as int) =~= start) by {
                assert(out@.take(mid.len() as int) == mid);
                assert(mid.take(start.len() as int) == start);
            }
            assert(s.skip(k) =~= out@.skip(mid.len() as int));
            assert(s.take(k) =~= mid.skip(start.len() as int));
            if evs.len() > 0 {
                assert(mid.skip(start.len() as int)[0] == mid.last());
            }
        }
    }

    /// Takes one game message from connection `conn_id`. A message the room
    /// refuses (see `room_accepts`) gets an error reply to its sender and
    /// changes nothing. Otherwise the engine runs it and each batch it
    /// returns goes to everyone as it is, followed by a resync of everyone
    /// with the game after that call (`game_msg_outcome`). A batch with
    /// GameOver puts a fresh table in the lobby after its resync.
    fn handle_game_msg(&mut self, conn_id: u64, msg: Client2Server) -> (out: Vec<Outgoing>)
        requires
            old(self).wf(),
        ensures
            final(self).wf(),
            final(self).members == old(self).members,
            final(self).room_id == old(self).room_id,
            final(self).last_active == old(self).last_active,
            final(self).closed == old(self).closed,
            !room_accepts(old(self).game, old(self).members@, conn_id, msg) ==> {
                &&& error_reply(out@, conn_id, old(self).members@)
                &&& final(self).game == old(self).game
            },
            room_accepts(old(self).game, old(self).members@, conn_id, msg) ==> game_msg_outcome(
                old(self).game,
                old(self).members@,
                msg,
                out@,
                final(self).game,
            ),
    {
        let mut out: Vec<Outgoing> = Vec::new();
        let ghost g0 = self.game;
        let ghost members = self.members@;
        match msg {
            Client2Server::StartGame { player_id } => {
                if self.game.started {
                    self.send_err(conn_id, "Game already started", &mut out);
                    return out;
                }
                if !self.claims(conn_id, player_id) {
                    self.send_err(conn_id, "Player mismatch", &mut out);
                    return out;
                }
                let names = self.member_names();
                let ev = self.game.init_game(names);
                let ghost g1 = self.game;
                let ghost evs = ev@;
                self.finish_round(ev, &mut out);
                proof {
                    assert(out@.skip(0) =~= out@);
                    assert(init_step(g0, roster_names(members), g1, evs));
                }
            },
            Client2Server::PlayCard { player_id, card_index, color, call_uno } => {
                if !self.game.started {
                    self.send_err(conn_id, "Game not started", &mut out);
                    return out;
                }
                if !self.claims(conn_id, player_id) {
                    self.send_err(conn_id, "Player mismatch", &mut out);
                    return out;
                }
                if player_id != self.game.current_player {
                    self.send_err(conn_id, "Not your turn", &mut out);
                    return out;
                }
                let ev = self.game.play_card(player_id, card_index, call_uno, color);
                let ghost g1 = self.game;
                let ghost evs = ev@;
                self.finish_round(ev, &mut out);
                proof {
                    assert(out@.skip(0) =~= out@);
                    assert(play_step(g0, player_id, card_index, call_uno, color, g1, evs));
                }
            },
            Client2Server::DrawCard { player_id, count } => {
                if !self.game.started {
                    self.send_err(conn_id, "Game not started", &mut out);
                    return out;
                }
                if !self.claims(conn_id, player_id) {
                    self.send_err(conn_id, "Player mismatch", &mut out);
                    return out;
                }
                if player_id != self.game.current_player {
                    self.send_err(conn_id, "Not your turn", &mut out);
                    return out;
                }
                let n: usize = if count == 0 {
                    1
                } else {
                    count
                };
                let mut t: usize = 0;
                while t < n
                    invariant
                        t <= n,
                        self.game.wf(),
                        self.members == old(self).members,
                        self.members@ == members,
                        self.room_id == old(self).room_id,
                        self.last_active == old(self).last_active,
                        self.closed == old(self).closed,
                        draw_rounds(g0, player_id, t as nat, members, out@, self.game),
                    decreases n - t,
                {
                    let ghost gm = self.game;
                    let ghost before = out@;
                    let ev = self.game.draw_card(player_id);
                    let ghost g1 = self.game;
                    let ghost evs = ev@;
                    proof {
                        lemma_draw_never_ends(gm, player_id, g1, evs);
                    }
                    self.finish_round(ev, &mut out);
                    proof {
                        let k = out@.len() - round_len(evs, members.len());
                        assert(k == before.len());
                        assert(out@.take(k) == before);
                        assert(draw_step(gm, player_id, g1, evs));
                    }
                    t = t + 1;
                }
            },
            Client2Server::PassTurn { player_id } => {
                if !self.claims(conn_id, player_id) {
                    self.send_err(conn_id, "Player mismatch", &mut out);
                    return out;
                }
                if !self.game.started {
                    self.send_err(conn_id, "Game not started", &mut out);
                    return out;
                }
                if player_id != self.game.current_player {
                    self.send_err(conn_id, "Not your turn", &mut out);
                    return out;
                }
                let ev = self.game.player_pass(player_id);
                let ghost g1 = self.game;
                let ghost evs = ev@;
                self.finish_round(ev, &mut out);
                proof {
                    assert(out@.skip(0) =~= out@);
                    assert(pass_step(g0, player_id, g1, evs));
                }
            },
            Client2Server::LeaveGame { .. } => {
                self.sync_state(&mut out);
                proof {
                    assert(out@.skip(0) =~= out@);
                }
            },
            Client2Server::JoinGame { .. } => {
                self.send_err(conn_id, "Already in room", &mut out);
            },
            Client2Server::ChallengeWildDrawFour { challenger_id, challenged_id } => {
                let _refused = self.game.challenge(challenger_id, challenged_id);
                self.send_err(conn_id, "Challenge not implemented", &mut out);
            },
        }
        out
    }

    /// Takes the next command of the mailbox at time `now`. A closed room
    /// takes nothing. A join adds the connection to the roster with the next
    /// player id, welcomes it, tells everyone and resyncs everyone. A leave
    /// marks the connection's place disconnected. A game message goes to
    /// `handle_game_msg`.
    pub fn handle(&mut self, cmd: RoomCmd, now: u64) -> (out: Vec<Outgoing>)
        requires
            old(self).wf(),
        ensures
            final(self).wf(),
            old(self).closed ==> out@.len() == 0 && *final(self) == *old(self),
            !old(self).closed ==> {
                &&& final(self).last_active == now
                &&& !final(self).closed
                &&& final(self).room_id == old(self).room_id
            },
            !old(self).closed ==> match cmd {
                RoomCmd::Join { conn_id, name } => {
                    let pid = old(self).members@.len();
                    &&& final(self).members@ == old(self).members@.push(
                        Member { conn_id, name, connected: true },
                    )
                    &&& final(self).game == old(self).game
                    &&& out@.len() == final(self).members@.len() + 3
                    &&& out@[0] matches Outgoing::ToOne(c, Server2Client::Welcome { player_id, session_id })
                        && c == conn_id && player_id == pid && session_id@ == session_text(
                        old(self).room_id@,
                        pid,
                    )
                    &&& out@[1] matches Outgoing::ToAll(Server2Client::Events(e)) && e@ == seq![
                        GameEvent::PlayerJoined { player_id: pid as usize, name },
                    ]
                    &&& sync_of(out@.skip(2), final(self).game, final(self).members@)
                },
                RoomCmd::Leave { conn_id } => {
                    &&& out@.len() == 0
                    &&& final(self).game == old(self).game
                    &&& final(self).members@.len() == old(self).members@.len()
                    &&& forall|i: int|
                        0 <= i < old(self).members@.len() ==> (#[trigger] final(self).members@[i]).conn_id
                            == old(self).members@[i].conn_id && final(self).members@[i].name == old(self).members@[i].name && final(self).members@[i].connected == (old(self).members@[i].connected && old(self).members@[i].conn_id != conn_id)
                },
                RoomCmd::GameMsg { conn_id, msg } => {
                    &&& final(self).members == old(self).members
                    &&& !room_accepts(old(self).game, old(self).members@, conn_id, msg) ==> {
                        &&& error_reply(out@, conn_id, old(self).members@)
                        &&& final(self).game == old(self).game
                    }
                    &&& room_accepts(old(self).game, old(self).members@, conn_id, msg) ==> game_msg_outcome(
                        old(self).game,
                        old(self).members@,
                        msg,
                        out@,
                        final(self).game,
                    )
                },
            },
    {
        if self.closed {
            return Vec::new();
        }
        self.last_active = now;
        match cmd {
            RoomCmd::Join { conn_id, name } => {
                let pid = self.members.len();
                let mut out: Vec<Outgoing> = Vec::new();
                self.members.push(Member { conn_id, name: name.clone(), connected: true });
                let sid = session_id(self.room_id.as_str(), pid);
                out.push(Outgoing::ToOne(conn_id, Server2Client::Welcome { player_id: pid, session_id: sid }));
                let ghost welcomed = out@;
                let ghost name0 = name;
                let mut joined: Vec<GameEvent> = Vec::new();
                joined.push(GameEvent::PlayerJoined { player_id: pid, name });
                assert(joined@ =~= seq![GameEvent::PlayerJoined { player_id: pid, name: name0 }]);
                Room::broadcast(joined, &mut out);
                assert(out@.take(1)[0] == out@[0]);
                assert(out@[0] == welcomed[0]);
                let ghost before = out@;
                self.sync_state(&mut out);
                proof {
                    assert(out@.skip(2) =~= out@.skip(before.len() as int));
                    assert(out@[0] == before[0]);
                    assert(out@[1] == before[1]);
                }
                out
            },
            RoomCmd::Leave { conn_id } => {
                let mut i: usize = 0;
                while i < self.members.len()
                    invariant
                        i <= self.members@.len(),
                        self.members@.len() == old(self).members@.len(),
                        self.game == old(self).game,
                        self.room_id == old(self).room_id,
                        self.last_active == now,
                        !self.closed,
                        forall|j: int|
                            0 <= j < self.members@.len() ==> (#[trigger] self.members@[j]).conn_id
                                == old(self).members@[j].conn_id && self.members@[j].name == old(self).members@[j].name && self.members@[j].connected == if j < i {
                                old(self).members@[j].connected && old(self).members@[j].conn_id != conn_id
                            } else {
                                old(self).members@[j].connected
                            },
                    decreases self.members@.len() - i,
                {
                    if self.members[i].conn_id == conn_id {
                        self.members[i].connected = false;
                    }
                    i = i + 1;
                }
                Vec::new()
            },
            RoomCmd::GameMsg { conn_id, msg } => self.handle_game_msg(conn_id, msg),
        }
    }
}

} // verus!
