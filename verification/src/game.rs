//! Police-and-thief game rooms: creating and joining rooms, the role each
//! newcomer is given, starting and ending a game and its result, leaving,
//! statistics and the cleanup of rooms. Positions on the playing field are
//! the caller's: it reports whether a move stays inside the field and which
//! players a moving police officer came close enough to catch.

use vstd::prelude::*;
use std::collections::HashMap;

verus! {

broadcast use vstd::std_specs::hash::group_hash_axioms;

/// Where a game room is in its life.
#[derive(Debug, Clone, Copy, PartialEq, Eq, Structural)]
pub enum GameState {
    Waiting,
    Starting,
    Playing,
    Ending,
    Finished,
}

/// A player's side.
#[derive(Debug, Clone, Copy, PartialEq, Eq, Structural)]
pub enum PlayerRole {
    Police,
    Thief,
    Spectator,
}

/// A player in a room (the position on the field is kept by the caller).
#[derive(Debug, Clone)]
pub struct Player {
    pub client_id: u32,
    pub nickname: String,
    pub role: PlayerRole,
    pub is_alive: bool,
    pub score: u32,
    pub last_activity: i64,
}

/// A game room and its players, in the order they joined.
#[derive(Debug, Clone)]
pub struct GameRoom {
    pub room_id: u32,
    pub name: String,
    pub state: GameState,
    pub players: Vec<Player>,
    pub max_players: u32,
    pub created_at: i64,
    pub started_at: Option<i64>,
}

/// Game limits. The field's size and the catching distance are the
/// caller's, who measures positions.
#[derive(Debug, Clone, Copy)]
pub struct GameConfig {
    pub max_rooms: u32,
    pub max_players_per_room: u32,
    pub game_duration_secs: u64,
}

impl GameConfig {
    /// 100 rooms of up to 10 players, five-minute games.
    pub fn default() -> (c: Self)
        ensures
            c.max_rooms == 100,
            c.max_players_per_room == 10,
            c.game_duration_secs == 300,
    {
        GameConfig { max_rooms: 100, max_players_per_room: 10, game_duration_secs: 300 }
    }
}

/// Why a game request was refused.
#[derive(Debug, Clone, Copy, PartialEq, Eq)]
pub enum GameError {
    /// No more rooms may be made (the count, the limit).
    RoomLimit { count: usize, max: u32 },
    /// No such room.
    RoomNotFound(u32),
    /// The room is full (its players, its limit).
    RoomFull { current: usize, max: u32 },
    /// The player already is in the room.
    AlreadyInRoom(u32),
    /// No such player in the room.
    PlayerNotFound(u32),
    /// The new position lies outside the playing field.
    OutsideArea,
    /// A game needs at least two players.
    NotEnoughPlayers,
    /// The room's state does not allow a start.
    CannotStart(GameState),
    /// The room's state does not allow an end.
    CannotEnd(GameState),
    /// The player is not in the room.
    NotInRoom(u32),
}

/// How many players of `ps` have `role`.
pub open spec fn count_role(ps: Seq<Player>, role: PlayerRole) -> nat
    decreases ps.len(),
{
    if ps.len() == 0 {
        0
    } else {
        count_role(ps.drop_last(), role) + if ps.last().role == role { 1nat } else { 0nat }
    }
}

/// The side a newcomer joins: police while there is none, or once there
/// are three thieves or more per officer; a thief otherwise.
pub open spec fn role_for(ps: Seq<Player>) -> PlayerRole {
    let police = count_role(ps, PlayerRole::Police);
    let thieves = count_role(ps, PlayerRole::Thief);
    if police == 0 || (thieves > 0 && thieves / police >= 3) {
        PlayerRole::Police
    } else {
        PlayerRole::Thief
    }
}

/// Whether a player with `client_id` is among `ps`.
pub open spec fn has_player(ps: Seq<Player>, client_id: u32) -> bool {
    exists|k: int| 0 <= k < ps.len() && #[trigger] ps[k].client_id == client_id
}

/// Where the player with `client_id` stands in `ps`.
pub open spec fn player_pos(ps: Seq<Player>, client_id: u32) -> int {
    choose|k: int| 0 <= k < ps.len() && #[trigger] ps[k].client_id == client_id
}

/// No two players share a client id.
pub open spec fn distinct_players(ps: Seq<Player>) -> bool {
    forall|a: int, b: int|
        0 <= a < ps.len() && 0 <= b < ps.len() && a != b ==> #[trigger] ps[a].client_id
            != #[trigger] ps[b].client_id
}

/// Whether a room with `room_id` is among `rs`.
pub open spec fn has_room(rs: Seq<GameRoom>, room_id: u32) -> bool {
    exists|i: int| 0 <= i < rs.len() && #[trigger] rs[i].room_id == room_id
}

/// Where the room with `room_id` stands in `rs`.
pub open spec fn room_pos(rs: Seq<GameRoom>, room_id: u32) -> int {
    choose|i: int| 0 <= i < rs.len() && #[trigger] rs[i].room_id == room_id
}

/// No two rooms share an id.
pub open spec fn distinct_rooms(rs: Seq<GameRoom>) -> bool {
    forall|a: int, b: int|
        0 <= a < rs.len() && 0 <= b < rs.len() && a != b ==> #[trigger] rs[a].room_id
            != #[trigger] rs[b].room_id
}

/// The player a newcomer becomes.
pub open spec fn newcomer(ps: Seq<Player>, client_id: u32, nickname: String, now: i64) -> Player {
    Player {
        client_id,
        nickname,
        role: role_for(ps),
        is_alive: true,
        score: 0,
        last_activity: now,
    }
}

/// A room just made: waiting, with no players.
pub open spec fn fresh_room(r: GameRoom, room_id: u32, name: String, max_players: u32, now: i64) -> bool {
    &&& r.room_id == room_id
    &&& r.name == name
    &&& r.state == GameState::Waiting
    &&& r.players@ == Seq::<Player>::empty()
    &&& r.max_players == max_players
    &&& r.created_at == now
    &&& r.started_at == None::<i64>
}

/// Room ids are distinct and below `next`, at most `max_rooms` rooms
/// exist, and within a room client ids are distinct.
pub open spec fn rooms_wf(rs: Seq<GameRoom>, next: u32, max_rooms: u32) -> bool {
    &&& distinct_rooms(rs)
    &&& forall|i: int| 0 <= i < rs.len() ==> #[trigger] rs[i].room_id < next
    &&& rs.len() <= max_rooms
    &&& forall|i: int| 0 <= i < rs.len() ==> distinct_players(#[trigger] rs[i].players@)
}

/// Replacing a room by one with the same id and distinct players keeps the
/// room list well formed.
proof fn lemma_rooms_update(rs: Seq<GameRoom>, next: u32, max_rooms: u32, i: int, r: GameRoom)
    requires
        rooms_wf(rs, next, max_rooms),
        0 <= i < rs.len(),
        r.room_id == rs[i].room_id,
        distinct_players(r.players@),
    ensures
        rooms_wf(rs.update(i, r), next, max_rooms),
{
    let us = rs.update(i, r);
    assert forall|a: int, b: int|
        0 <= a < us.len() && 0 <= b < us.len() && a != b implies #[trigger] us[a].room_id
        != #[trigger] us[b].room_id by {
        assert(rs[a].room_id == us[a].room_id);
        assert(rs[b].room_id == us[b].room_id);
    }
    assert forall|k: int| 0 <= k < us.len() implies #[trigger] us[k].room_id < next by {
        assert(rs[k].room_id == us[k].room_id);
    }
    assert forall|k: int| 0 <= k < us.len() implies distinct_players(#[trigger] us[k].players@) by {
        if k != i {
            assert(rs[k] == us[k]);
        }
    }
}

/// Dropping a room keeps the room list well formed.
proof fn lemma_rooms_remove(rs: Seq<GameRoom>, next: u32, max_rooms: u32, i: int)
    requires
        rooms_wf(rs, next, max_rooms),
        0 <= i < rs.len(),
    ensures
        rooms_wf(rs.remove(i), next, max_rooms),
{
    let us = rs.remove(i);
    assert forall|a: int, b: int|
        0 <= a < us.len() && 0 <= b < us.len() && a != b implies #[trigger] us[a].room_id
        != #[trigger] us[b].room_id by {
        let a2 = if a < i { a } else { a + 1 };
        let b2 = if b < i { b } else { b + 1 };
        assert(us[a] == rs[a2]);
        assert(us[b] == rs[b2]);
    }
    assert forall|k: int| 0 <= k < us.len() implies #[trigger] us[k].room_id < next by {
        let k2 = if k < i { k } else { k + 1 };
        assert(us[k] == rs[k2]);
    }
    assert forall|k: int| 0 <= k < us.len() implies distinct_players(#[trigger] us[k].players@) by {
        let k2 = if k < i { k } else { k + 1 };
        assert(us[k] == rs[k2]);
    }
}

/// `p` with its mutable fields replaced.
pub open spec fn with_status(p: Player, is_alive: bool, score: u32, last_activity: i64) -> Player {
    Player { is_alive, score, last_activity, ..p }
}

/// `r` in state `state`, started at `started_at`.
pub open spec fn with_state(r: GameRoom, state: GameState, started_at: Option<i64>) -> GameRoom {
    GameRoom { state, started_at, ..r }
}

/// A thief still free whom the officer reached.
pub open spec fn catchable(p: Player, reached: Seq<u32>) -> bool {
    p.role == PlayerRole::Thief && p.is_alive && reached.contains(p.client_id)
}

/// How many players of `ps` are caught.
pub open spec fn count_catchable(ps: Seq<Player>, reached: Seq<u32>) -> nat
    decreases ps.len(),
{
    if ps.len() == 0 {
        0
    } else {
        count_catchable(ps.drop_last(), reached) + if catchable(ps.last(), reached) { 1nat } else { 0nat }
    }
}

/// The players after the catches: every reached free thief is caught.
pub open spec fn after_catches(ps: Seq<Player>, reached: Seq<u32>) -> Seq<Player> {
    Seq::new(
        ps.len(),
        |j: int|
            if catchable(ps[j], reached) {
                with_status(ps[j], false, ps[j].score, ps[j].last_activity)
            } else {
                ps[j]
            },
    )
}

/// The players after player `k` moved at `now`: a moving officer catches
/// every free thief reached and scores 100 for each.
pub open spec fn after_move(ps: Seq<Player>, k: int, reached: Seq<u32>, now: i64) -> Seq<Player> {
    let mover = ps[k];
    if mover.role == PlayerRole::Police {
        after_catches(ps, reached).update(
            k,
            with_status(mover, mover.is_alive, (mover.score + 100 * count_catchable(ps, reached)) as u32, now),
        )
    } else {
        ps.update(k, with_status(mover, mover.is_alive, mover.score, now))
    }
}

/// Whether a move of `client_id` in room `room_id` gets as far as the
/// catches, and its officer's score then stays within range.
pub open spec fn move_fits(rs: Seq<GameRoom>, client_id: u32, room_id: u32, inside_area: bool, reached: Seq<u32>) -> bool {
    has_room(rs, room_id) && has_player(rs[room_pos(rs, room_id)].players@, client_id) && inside_area ==> {
        let ps = rs[room_pos(rs, room_id)].players@;
        let mover = ps[player_pos(ps, client_id)];
        mover.role == PlayerRole::Police ==> mover.score + 100 * count_catchable(ps, reached) <= u32::MAX
    }
}

/// How many players of `ps` are free thieves.
pub open spec fn count_alive_thieves(ps: Seq<Player>) -> nat
    decreases ps.len(),
{
    if ps.len() == 0 {
        0
    } else {
        count_alive_thieves(ps.drop_last()) + if ps.last().role == PlayerRole::Thief && ps.last().is_alive { 1nat } else { 0nat }
    }
}

/// The winner: the police when no thief is free, the thieves when there is
/// no officer, and otherwise the thieves exactly when more than half of
/// them are still free.
pub open spec fn winner_of(alive_thieves: nat, total_thieves: nat, police: nat) -> PlayerRole {
    if alive_thieves == 0 {
        PlayerRole::Police
    } else if police == 0 {
        PlayerRole::Thief
    } else if alive_thieves > total_thieves / 2 {
        PlayerRole::Thief
    } else {
        PlayerRole::Police
    }
}

/// Each player's score by client id.
pub open spec fn scores_of(ps: Seq<Player>) -> Map<u32, u32>
    decreases ps.len(),
{
    if ps.len() == 0 {
        Map::empty()
    } else {
        scores_of(ps.drop_last()).insert(ps.last().client_id, ps.last().score)
    }
}

/// Seconds since the start, or 0 for a game not started.
pub open spec fn duration_of(started_at: Option<i64>, now: i64) -> int {
    match started_at {
        Some(start) => now - start,
        None => 0,
    }
}

/// `new_rs` is `old_rs` with the players of room `i` replaced by `ps`.
pub open spec fn players_replaced(new_rs: Seq<GameRoom>, old_rs: Seq<GameRoom>, i: int, ps: Seq<Player>) -> bool {
    &&& new_rs.len() == old_rs.len()
    &&& forall|j: int| 0 <= j < old_rs.len() && j != i ==> #[trigger] new_rs[j] == old_rs[j]
    &&& new_rs[i].room_id == old_rs[i].room_id
    &&& new_rs[i].name == old_rs[i].name
    &&& new_rs[i].state == old_rs[i].state
    &&& new_rs[i].max_players == old_rs[i].max_players
    &&& new_rs[i].created_at == old_rs[i].created_at
    &&& new_rs[i].started_at == old_rs[i].started_at
    &&& new_rs[i].players@ == ps
}

/// The outcome of a finished game in `room` at `now`.
#[derive(Debug, Clone)]
pub struct GameResult {
    pub room_id: u32,
    pub winner: PlayerRole,
    pub duration_seconds: i64,
    pub total_players: usize,
    pub alive_thieves: usize,
    pub total_thieves: usize,
    pub police_count: usize,
    pub final_scores: HashMap<u32, u32>,
}

/// `res` is the result of the game in `room` at `now`.
pub open spec fn result_of(res: GameResult, room: GameRoom, now: i64) -> bool {
    let ps = room.players@;
    &&& res.room_id == room.room_id
    &&& res.alive_thieves == count_alive_thieves(ps)
    &&& res.total_thieves == count_role(ps, PlayerRole::Thief)
    &&& res.police_count == count_role(ps, PlayerRole::Police)
    &&& res.winner == winner_of(count_alive_thieves(ps), count_role(ps, PlayerRole::Thief), count_role(ps, PlayerRole::Police))
    &&& res.duration_seconds == duration_of(room.started_at, now)
    &&& res.total_players == ps.len()
    &&& res.final_scores@ == scores_of(ps)
}

/// Whether the duration of a game in `room` at `now` fits an `i64`.
pub open spec fn duration_fits(room: GameRoom, now: i64) -> bool {
    i64::MIN <= duration_of(room.started_at, now) <= i64::MAX
}

/// Players with the same client ids in the same order stay distinct.
proof fn lemma_same_ids_distinct(a: Seq<Player>, b: Seq<Player>)
    requires
        distinct_players(a),
        a.len() == b.len(),
        forall|t: int| 0 <= t < a.len() ==> #[trigger] b[t].client_id == a[t].client_id,
    ensures
        distinct_players(b),
{
    assert forall|x: int, y: int|
        0 <= x < b.len() && 0 <= y < b.len() && x != y implies #[trigger] b[x].client_id
        != #[trigger] b[y].client_id by {
        assert(b[x].client_id == a[x].client_id);
        assert(b[y].client_id == a[y].client_id);
    }
}

/// Whether `x` is among `v`.
fn contains_id(v: &Vec<u32>, x: u32) -> (r: bool)
    ensures
        r == v@.contains(x),
{
    let mut j: usize = 0;
    while j < v.len()
        invariant
            j <= v@.len(),
            forall|t: int| 0 <= t < j ==> v@[t] != x,
        decreases v@.len() - j,
    {
        if v[j] == x {
            assert(v@[j as int] == x);
            return true;
        }
        j = j + 1;
    }
    false
}

/// Sets the mutable fields of player `k`.
fn set_player(players: &mut Vec<Player>, k: usize, is_alive: bool, score: u32, last_activity: i64)
    requires
        k < old(players)@.len(),
    ensures
        final(players)@ == old(players)@.update(
            k as int,
            with_status(old(players)@[k as int], is_alive, score, last_activity),
        ),
{
    let mut p = players.remove(k);
    p.is_alive = is_alive;
    p.score = score;
    p.last_activity = last_activity;
    players.insert(k, p);
    assert(players@ =~= old(players)@.update(
        k as int,
        with_status(old(players)@[k as int], is_alive, score, last_activity),
    ));
}

/// Catches every free thief among `players` whose id is in `reached`;
/// returns how many.
fn apply_catches(players: &mut Vec<Player>, reached: &Vec<u32>) -> (caught: usize)
    ensures
        final(players)@ == after_catches(old(players)@, reached@),
        caught == count_catchable(old(players)@, reached@),
{
    let ghost orig = players@;
    let n = players.len();
    let mut caught: usize = 0;
    let mut j: usize = 0;
    while j < n
        invariant
            n == orig.len(),
            j <= n,
            players@.len() == n,
            forall|t: int| 0 <= t < j ==> #[trigger] players@[t] == after_catches(orig, reached@)[t],
            forall|t: int| j <= t < n ==> #[trigger] players@[t] == orig[t],
            caught == count_catchable(orig.take(j as int), reached@),
            caught <= j,
        decreases n - j,
    {
        assert(orig.take(j + 1).drop_last() =~= orig.take(j as int));
        assert(orig.take(j + 1).last() == orig[j as int]);
        let role = players[j].role;
        let alive = players[j].is_alive;
        let id = players[j].client_id;
        if role == PlayerRole::Thief && alive && contains_id(reached, id) {
            let score = players[j].score;
            let last = players[j].last_activity;
            set_player(players, j, false, score, last);
            caught = caught + 1;
        }
        j = j + 1;
    }
    assert(players@ =~= after_catches(orig, reached@));
    assert(orig.take(n as int) =~= orig);
    caught
}

/// A room as listed.
#[derive(Debug, Clone)]
pub struct RoomInfo {
    pub room_id: u32,
    pub name: String,
    pub state: GameState,
    pub current_players: usize,
    pub max_players: usize,
    pub created_at: i64,
}

/// `info` lists room `r`.
pub open spec fn lists_room(info: RoomInfo, r: GameRoom) -> bool {
    &&& info.room_id == r.room_id
    &&& info.name == r.name
    &&& info.state == r.state
    &&& info.current_players == r.players@.len()
    &&& info.max_players == r.max_players
    &&& info.created_at == r.created_at
}

/// `c` is a copy of room `r`.
pub open spec fn same_room(c: GameRoom, r: GameRoom) -> bool {
    &&& c.room_id == r.room_id
    &&& c.name == r.name
    &&& c.state == r.state
    &&& c.players@ == r.players@
    &&& c.max_players == r.max_players
    &&& c.created_at == r.created_at
    &&& c.started_at == r.started_at
}

/// How many rooms are in each state.
#[derive(Debug, Clone, Copy, PartialEq, Eq)]
pub struct StateCounts {
    pub waiting: u32,
    pub starting: u32,
    pub playing: u32,
    pub ending: u32,
    pub finished: u32,
}

/// Room and player totals.
#[derive(Debug, Clone, Copy)]
pub struct GameStats {
    pub total_rooms: usize,
    pub total_players: usize,
    pub active_games: usize,
    pub state_distribution: StateCounts,
    pub max_rooms: u32,
    pub max_players_per_room: u32,
}

/// How many rooms of `rs` are in state `st`.
pub open spec fn count_state(rs: Seq<GameRoom>, st: GameState) -> nat
    decreases rs.len(),
{
    if rs.len() == 0 {
        0
    } else {
        count_state(rs.drop_last(), st) + if rs.last().state == st { 1nat } else { 0nat }
    }
}

/// How many players the rooms of `rs` hold together.
pub open spec fn players_in(rs: Seq<GameRoom>) -> nat
    decreases rs.len(),
{
    if rs.len() == 0 {
        0
    } else {
        players_in(rs.drop_last()) + rs.last().players@.len()
    }
}

/// A room that cleanup drops at `now`: one without players, or one
/// finished more than an hour after it was made.
pub open spec fn stale(r: GameRoom, now: i64) -> bool {
    r.players@.len() == 0 || (r.state == GameState::Finished && now - r.created_at > 3600)
}

/// The rooms of `rs` that cleanup keeps at `now`, in order.
pub open spec fn kept(rs: Seq<GameRoom>, now: i64) -> Seq<GameRoom>
    decreases rs.len(),
{
    if rs.len() == 0 {
        Seq::empty()
    } else if stale(rs.last(), now) {
        kept(rs.drop_last(), now)
    } else {
        kept(rs.drop_last(), now).push(rs.last())
    }
}

/// Both sides are empty, or there is an officer for every three thieves
/// and no more officers than that needs.
pub open spec fn balanced(ps: Seq<Player>) -> bool {
    let police = count_role(ps, PlayerRole::Police);
    let thieves = count_role(ps, PlayerRole::Thief);
    (police == 0 && thieves == 0) || (police >= 1 && 3 * (police - 1) <= thieves <= 3 * police)
}

/// Counting the players with a role after one more joined.
proof fn lemma_count_role_push(ps: Seq<Player>, p: Player, role: PlayerRole)
    ensures
        count_role(ps.push(p), role) == count_role(ps, role) + if p.role == role { 1nat } else { 0nat },
{
    assert(ps.push(p).drop_last() =~= ps);
}

/// Joining keeps the sides balanced: starting from an empty room, the
/// first newcomer polices, and from then on there is one officer for every
/// three thieves (a new officer joins once the third thief is in).
pub proof fn lemma_roles_stay_balanced(ps: Seq<Player>, client_id: u32, nickname: String, now: i64)
    requires
        balanced(ps),
    ensures
        balanced(ps.push(newcomer(ps, client_id, nickname, now))),
{
    let nc = newcomer(ps, client_id, nickname, now);
    lemma_count_role_push(ps, nc, PlayerRole::Police);
    lemma_count_role_push(ps, nc, PlayerRole::Thief);
    let police = count_role(ps, PlayerRole::Police);
    let thieves = count_role(ps, PlayerRole::Thief);
    if police >= 1 {
        if thieves / police >= 3 {
            assert(thieves >= 3 * police) by (nonlinear_arith)
                requires
                    police >= 1,
                    thieves / police >= 3,
            ;
        } else {
            assert(thieves < 3 * police) by (nonlinear_arith)
                requires
                    police >= 1,
                    thieves / police < 3,
            ;
        }
    }
}

/// Leaving undoes joining: after a newcomer joins, the newcomer is the last
/// player, and removing it gives back the players as they were.
pub proof fn lemma_leave_undoes_join(ps: Seq<Player>, client_id: u32, nickname: String, now: i64)
    requires
        distinct_players(ps),
        !has_player(ps, client_id),
    ensures
        has_player(ps.push(newcomer(ps, client_id, nickname, now)), client_id),
        player_pos(ps.push(newcomer(ps, client_id, nickname, now)), client_id) == ps.len(),
        ps.push(newcomer(ps, client_id, nickname, now)).remove(ps.len() as int) == ps,
{
    let qs = ps.push(newcomer(ps, client_id, nickname, now));
    assert(qs[ps.len() as int].client_id == client_id);
    let k = player_pos(qs, client_id);
    if k != ps.len() {
        assert(qs[k] == ps[k]);
        assert(has_player(ps, client_id));
    }
    assert(qs.remove(ps.len() as int) =~= ps);
}

proof fn lemma_after_catches_drop_last(ps: Seq<Player>, reached: Seq<u32>)
    requires
        ps.len() > 0,
    ensures
        after_catches(ps, reached).drop_last() == after_catches(ps.drop_last(), reached),
        after_catches(ps, reached).last() == after_catches(ps, reached)[ps.len() - 1],
{
    assert(after_catches(ps, reached).drop_last() =~= after_catches(ps.drop_last(), reached));
}

/// The free thieves after the catches are those before less the caught.
proof fn lemma_alive_after_catches(ps: Seq<Player>, reached: Seq<u32>)
    ensures
        count_alive_thieves(after_catches(ps, reached)) + count_catchable(ps, reached)
            == count_alive_thieves(ps),
    decreases ps.len(),
{
    if ps.len() > 0 {
        lemma_after_catches_drop_last(ps, reached);
        lemma_alive_after_catches(ps.drop_last(), reached);
    }
}

/// Replacing a player who is no thief by another who is no thief leaves
/// the free thieves as they were.
proof fn lemma_alive_update_non_thief(ps: Seq<Player>, k: int, p: Player)
    requires
        0 <= k < ps.len(),
        ps[k].role != PlayerRole::Thief,
        p.role != PlayerRole::Thief,
    ensures
        count_alive_thieves(ps.update(k, p)) == count_alive_thieves(ps),
    decreases ps.len(),
{
    let us = ps.update(k, p);
    if k == ps.len() - 1 {
        assert(us.drop_last() =~= ps.drop_last());
    } else {
        assert(us.drop_last() =~= ps.drop_last().update(k, p));
        lemma_alive_update_non_thief(ps.drop_last(), k, p);
    }
}

/// An officer's move takes exactly the reached free thieves out of play:
/// the free thieves drop by the number caught, and no one else changes
/// sides or is freed.
pub proof fn lemma_officer_move_catches(ps: Seq<Player>, k: int, reached: Seq<u32>, now: i64)
    requires
        0 <= k < ps.len(),
        ps[k].role == PlayerRole::Police,
    ensures
        count_alive_thieves(after_move(ps, k, reached, now)) + count_catchable(ps, reached)
            == count_alive_thieves(ps),
        forall|j: int| 0 <= j < ps.len() ==> #[trigger] after_move(ps, k, reached, now)[j].role == ps[j].role,
        forall|j: int| 0 <= j < ps.len() && !ps[j].is_alive ==> !#[trigger] after_move(ps, k, reached, now)[j].is_alive,
{
    let caught = after_catches(ps, reached);
    let mover = ps[k];
    let moved = with_status(mover, mover.is_alive, (mover.score + 100 * count_catchable(ps, reached)) as u32, now);
    assert(caught[k].role == PlayerRole::Police);
    lemma_alive_update_non_thief(caught, k, moved);
    lemma_alive_after_catches(ps, reached);
}

/// Rooms, players and the next room id.
pub struct GameHandler {
    rooms: Vec<GameRoom>,
    next_room_id: u32,
    config: GameConfig,
}

impl GameHandler {
    /// The rooms, in the order they were made.
    pub closed spec fn rooms_of(&self) -> Seq<GameRoom> {
        self.rooms@
    }

    /// The id the next room gets.
    pub closed spec fn next_id(&self) -> u32 {
        self.next_room_id
    }

    /// The limits the handler was made with.
    pub closed spec fn config_of(&self) -> GameConfig {
        self.config
    }

    /// Room ids are distinct and below the next id, at most `max_rooms`
    /// rooms exist, and within a room client ids are distinct.
    pub closed spec fn wf(&self) -> bool {
        rooms_wf(self.rooms@, self.next_room_id, self.config.max_rooms)
    }

    /// No rooms; the first room gets id 1.
    pub fn new(config: GameConfig) -> (h: Self)
        ensures
            h.wf(),
            h.rooms_of() == Seq::<GameRoom>::empty(),
            h.next_id() == 1,
            h.config_of() == config,
    {
        GameHandler { rooms: Vec::new(), next_room_id: 1, config }
    }

    /// `new` with the default limits.
    pub fn with_default_config() -> (h: Self)
        ensures
            h.wf(),
            h.rooms_of() == Seq::<GameRoom>::empty(),
            h.next_id() == 1,
            h.config_of().max_rooms == 100,
            h.config_of().max_players_per_room == 10,
    {
        Self::new(GameConfig::default())
    }

    /// The id the next room gets.
    pub fn next_room_id(&self) -> (id: u32)
        ensures
            id == self.next_id(),
    {
        self.next_room_id
    }

    /// The position of room `room_id`, if there is one.
    fn find_room(&self, room_id: u32) -> (r: Option<usize>)
        requires
            self.wf(),
        ensures
            match r {
                Some(i) => i < self.rooms@.len() && i == room_pos(self.rooms@, room_id)
                    && self.rooms@[i as int].room_id == room_id,
                None => !has_room(self.rooms@, room_id),
            },
    {
        let mut i: usize = 0;
        while i < self.rooms.len()
            invariant
                self.wf(),
                i <= self.rooms@.len(),
                forall|k: int| 0 <= k < i ==> #[trigger] self.rooms@[k].room_id != room_id,
            decreases self.rooms@.len() - i,
        {
            if self.rooms[i].room_id == room_id {
                proof {
                    let p = room_pos(self.rooms@, room_id);
                    assert(self.rooms@[i as int].room_id == room_id);
                    assert(distinct_rooms(self.rooms@));
                    assert(self.rooms@[p].room_id == room_id);
                }
                return Some(i);
            }
            i = i + 1;
        }
        None
    }

    /// Makes a room named `room_name` at `now_secs`, unless `max_rooms`
    /// rooms exist already. The creator is only reported by the caller; it
    /// does not join.
    pub fn create_room(&mut self, creator_client_id: u32, room_name: String, now_secs: i64) -> (r: Result<u32, GameError>)
        requires
            old(self).wf(),
            old(self).next_id() < u32::MAX,
        ensures
            final(self).wf(),
            final(self).config_of() == old(self).config_of(),
            old(self).rooms_of().len() >= old(self).config_of().max_rooms ==> {
                &&& r == Err::<u32, GameError>(GameError::RoomLimit {
                    count: old(self).rooms_of().len() as usize,
                    max: old(self).config_of().max_rooms,
                })
                &&& final(self).rooms_of() == old(self).rooms_of()
                &&& final(self).next_id() == old(self).next_id()
            },
            old(self).rooms_of().len() < old(self).config_of().max_rooms ==> {
                &&& r == Ok::<u32, GameError>(old(self).next_id())
                &&& final(self).next_id() == old(self).next_id() + 1
                &&& final(self).rooms_of().len() == old(self).rooms_of().len() + 1
                &&& final(self).rooms_of().drop_last() == old(self).rooms_of()
                &&& fresh_room(final(self).rooms_of().last(), old(self).next_id(), room_name,
                    old(self).config_of().max_players_per_room, now_secs)
            },
    {
        let count = self.rooms.len();
        if count >= self.config.max_rooms as usize {
            return Err(GameError::RoomLimit { count, max: self.config.max_rooms });
        }
        let room_id = self.next_room_id;
        self.next_room_id = room_id + 1;
        let room = GameRoom {
            room_id,
            name: room_name,
            state: GameState::Waiting,
            players: Vec::new(),
            max_players: self.config.max_players_per_room,
            created_at: now_secs,
            started_at: None,
        };
        self.rooms.push(room);
        proof {
            let rs = self.rooms@;
            assert(rs.drop_last() =~= old(self).rooms@);
            assert forall|a: int, b: int|
                0 <= a < rs.len() && 0 <= b < rs.len() && a != b implies #[trigger] rs[a].room_id
                != #[trigger] rs[b].room_id by {
                if a < rs.len() - 1 && b < rs.len() - 1 {
                    assert(old(self).rooms@[a] == rs[a]);
                    assert(old(self).rooms@[b] == rs[b]);
                } else if a == rs.len() - 1 {
                    assert(old(self).rooms@[b].room_id < room_id);
                } else {
                    assert(old(self).rooms@[a].room_id < room_id);
                }
            }
            assert forall|i: int| 0 <= i < rs.len() implies distinct_players(#[trigger] rs[i].players@) by {
                if i < rs.len() - 1 {
                    assert(old(self).rooms@[i] == rs[i]);
                }
            }
        }
        Ok(room_id)
    }

    /// The side the next player joining `existing_players` gets.
    pub fn assign_player_role(&self, existing_players: &Vec<Player>) -> (role: PlayerRole)
        ensures
            role == role_for(existing_players@),
    {
        let mut police: usize = 0;
        let mut thieves: usize = 0;
        let mut i: usize = 0;
        while i < existing_players.len()
            invariant
                i <= existing_players@.len(),
                police == count_role(existing_players@.take(i as int), PlayerRole::Police),
                thieves == count_role(existing_players@.take(i as int), PlayerRole::Thief),
                police <= i,
                thieves <= i,
            decreases existing_players@.len() - i,
        {
            let ghost s = existing_players@;
            assert(s.take(i + 1).drop_last() =~= s.take(i as int));
            assert(s.take(i + 1).last() == s[i as int]);
            let role = existing_players[i].role;
            if role == PlayerRole::Police {
                police = police + 1;
            } else if role == PlayerRole::Thief {
                thieves = thieves + 1;
            }
            i = i + 1;
        }
        assert(existing_players@.take(existing_players@.len() as int) =~= existing_players@);
        if police == 0 || (thieves > 0 && thieves / police >= 3) {
            PlayerRole::Police
        } else {
            PlayerRole::Thief
        }
    }

    /// Whether `client_id` is among `players`.
    fn player_index(players: &Vec<Player>, client_id: u32) -> (r: Option<usize>)
        requires
            distinct_players(players@),
        ensures
            match r {
                Some(k) => k < players@.len() && k == player_pos(players@, client_id)
                    && players@[k as int].client_id == client_id,
                None => !has_player(players@, client_id),
            },
    {
        let mut k: usize = 0;
        while k < players.len()
            invariant
                distinct_players(players@),
                k <= players@.len(),
                forall|j: int| 0 <= j < k ==> #[trigger] players@[j].client_id != client_id,
            decreases players@.len() - k,
        {
            if players[k].client_id == client_id {
                proof {
                    let p = player_pos(players@, client_id);
                    assert(players@[k as int].client_id == client_id);
                    assert(players@[p].client_id == client_id);
                }
                return Some(k);
            }
            k = k + 1;
        }
        None
    }

    /// Adds `client_id` as `nickname` to room `room_id` at `now_secs`, with
    /// the side `role_for` gives. Refused when the room does not exist, is
    /// full, or has the player already.
    pub fn join_room(&mut self, client_id: u32, room_id: u32, nickname: String, now_secs: i64) -> (r: Result<(), GameError>)
        requires
            old(self).wf(),
        ensures
            final(self).wf(),
            final(self).config_of() == old(self).config_of(),
            final(self).next_id() == old(self).next_id(),
            !has_room(old(self).rooms_of(), room_id) ==> r == Err::<(), GameError>(GameError::RoomNotFound(room_id))
                && final(self).rooms_of() == old(self).rooms_of(),
            has_room(old(self).rooms_of(), room_id) ==> {
                let i = room_pos(old(self).rooms_of(), room_id);
                let room = old(self).rooms_of()[i];
                if room.players@.len() >= room.max_players {
                    &&& r == Err::<(), GameError>(GameError::RoomFull {
                        current: room.players@.len() as usize,
                        max: room.max_players,
                    })
                    &&& final(self).rooms_of() == old(self).rooms_of()
                } else if has_player(room.players@, client_id) {
                    &&& r == Err::<(), GameError>(GameError::AlreadyInRoom(client_id))
                    &&& final(self).rooms_of() == old(self).rooms_of()
                } else {
                    &&& r == Ok::<(), GameError>(())
                    &&& final(self).rooms_of().len() == old(self).rooms_of().len()
                    &&& forall|j: int| 0 <= j < old(self).rooms_of().len() && j != i
                        ==> #[trigger] final(self).rooms_of()[j] == old(self).rooms_of()[j]
                    &&& final(self).rooms_of()[i].room_id == room.room_id
                    &&& final(self).rooms_of()[i].name == room.name
                    &&& final(self).rooms_of()[i].state == room.state
                    &&& final(self).rooms_of()[i].max_players == room.max_players
                    &&& final(self).rooms_of()[i].created_at == room.created_at
                    &&& final(self).rooms_of()[i].started_at == room.started_at
                    &&& final(self).rooms_of()[i].players@ == room.players@.push(
                        newcomer(room.players@, client_id, nickname, now_secs),
                    )
                }
            },
    {
        let i = match self.find_room(room_id) {
            Some(i) => i,
            None => return Err(GameError::RoomNotFound(room_id)),
        };
        let current = self.rooms[i].players.len();
        let max = self.rooms[i].max_players;
        if current >= max as usize {
            return Err(GameError::RoomFull { current, max });
        }
        proof {
            assert(distinct_players(self.rooms@[i as int].players@));
        }
        if Self::player_index(&self.rooms[i].players, client_id).is_some() {
            return Err(GameError::AlreadyInRoom(client_id));
        }
        let role = self.assign_player_role(&self.rooms[i].players);
        let player = Player {
            client_id,
            nickname,
            role,
            is_alive: true,
            score: 0,
            last_activity: now_secs,
        };
        let ghost old_rooms = self.rooms@;
        let mut room = self.rooms.remove(i);
        let ghost old_players = room.players@;
        room.players.push(player);
        proof {
            let ps = room.players@;
            assert forall|a: int, b: int|
                0 <= a < ps.len() && 0 <= b < ps.len() && a != b implies #[trigger] ps[a].client_id
                != #[trigger] ps[b].client_id by {
                if a < ps.len() - 1 && b < ps.len() - 1 {
                    assert(old_players[a] == ps[a]);
                    assert(old_players[b] == ps[b]);
                } else if a == ps.len() - 1 {
                    assert(old_players[b] == ps[b]);
                    if ps[b].client_id == client_id {
                        assert(has_player(old_players, client_id));
                    }
                } else {
                    assert(old_players[a] == ps[a]);
                    if ps[a].client_id == client_id {
                        assert(has_player(old_players, client_id));
                    }
                }
            }
        }
        self.rooms.insert(i, room);
        proof {
            assert(self.rooms@ =~= old_rooms.update(i as int, self.rooms@[i as int]));
            lemma_rooms_update(old_rooms, self.next_room_id, self.config.max_rooms, i as int, self.rooms@[i as int]);
        }
        Ok(())
    }

    /// Sets the state and start time of room `i`.
    fn set_room_state(&mut self, i: usize, state: GameState, started_at: Option<i64>)
        requires
            old(self).wf(),
            i < old(self).rooms@.len(),
        ensures
            final(self).wf(),
            final(self).rooms@ == old(self).rooms@.update(i as int, with_state(old(self).rooms@[i as int], state, started_at)),
            final(self).next_room_id == old(self).next_room_id,
            final(self).config == old(self).config,
    {
        let ghost old_rooms = self.rooms@;
        let mut room = self.rooms.remove(i);
        room.state = state;
        room.started_at = started_at;
        self.rooms.insert(i, room);
        proof {
            assert(self.rooms@ =~= old_rooms.update(i as int, with_state(old_rooms[i as int], state, started_at)));
            lemma_rooms_update(old_rooms, self.next_room_id, self.config.max_rooms, i as int, self.rooms@[i as int]);
        }
    }

    /// Records that `client_id` moved in room `room_id` at `now_secs`. The
    /// caller tells whether the new position is inside the field and, for
    /// a police officer, which players it came within catching distance of;
    /// every free thief among them is caught and scores the officer 100.
    pub fn update_player_position(
        &mut self,
        client_id: u32,
        room_id: u32,
        inside_area: bool,
        reached: &Vec<u32>,
        now_secs: i64,
    ) -> (r: Result<(), GameError>)
        requires
            old(self).wf(),
            move_fits(old(self).rooms_of(), client_id, room_id, inside_area, reached@),
        ensures
            final(self).wf(),
            final(self).config_of() == old(self).config_of(),
            final(self).next_id() == old(self).next_id(),
            !has_room(old(self).rooms_of(), room_id) ==> r == Err::<(), GameError>(GameError::RoomNotFound(room_id))
                && final(self).rooms_of() == old(self).rooms_of(),
            has_room(old(self).rooms_of(), room_id) ==> {
                let i = room_pos(old(self).rooms_of(), room_id);
                let ps = old(self).rooms_of()[i].players@;
                if !has_player(ps, client_id) {
                    &&& r == Err::<(), GameError>(GameError::PlayerNotFound(client_id))
                    &&& final(self).rooms_of() == old(self).rooms_of()
                } else if !inside_area {
                    &&& r == Err::<(), GameError>(GameError::OutsideArea)
                    &&& final(self).rooms_of() == old(self).rooms_of()
                } else {
                    &&& r == Ok::<(), GameError>(())
                    &&& players_replaced(final(self).rooms_of(), old(self).rooms_of(), i,
                        after_move(ps, player_pos(ps, client_id), reached@, now_secs))
                }
            },
    {
        let i = match self.find_room(room_id) {
            Some(i) => i,
            None => return Err(GameError::RoomNotFound(room_id)),
        };
        proof {
            assert(distinct_players(self.rooms@[i as int].players@));
        }
        let k = match Self::player_index(&self.rooms[i].players, client_id) {
            Some(k) => k,
            None => return Err(GameError::PlayerNotFound(client_id)),
        };
        if !inside_area {
            return Err(GameError::OutsideArea);
        }
        let ghost old_rooms = self.rooms@;
        let ghost ps = self.rooms@[i as int].players@;
        let mut room = self.rooms.remove(i);
        let role = room.players[k].role;
        let alive = room.players[k].is_alive;
        let score = room.players[k].score;
        if role == PlayerRole::Police {
            let caught = apply_catches(&mut room.players, reached);
            assert(room.players@[k as int] == ps[k as int]);
            let gained: u64 = 100u64 * (caught as u64);
            let total: u64 = score as u64 + gained;
            set_player(&mut room.players, k, alive, total as u32, now_secs);
            assert(room.players@ =~= after_move(ps, k as int, reached@, now_secs));
        } else {
            set_player(&mut room.players, k, alive, score, now_secs);
            assert(room.players@ =~= after_move(ps, k as int, reached@, now_secs));
        }
        proof {
            lemma_same_ids_distinct(ps, room.players@);
        }
        self.rooms.insert(i, room);
        proof {
            assert(self.rooms@ =~= old_rooms.update(i as int, self.rooms@[i as int]));
            lemma_rooms_update(old_rooms, self.next_room_id, self.config.max_rooms, i as int, self.rooms@[i as int]);
        }
        Ok(())
    }

    /// Starts the game in room `room_id` at `now_secs`: it needs two
    /// players and a waiting room, and then is starting.
    pub fn start_game(&mut self, room_id: u32, now_secs: i64) -> (r: Result<(), GameError>)
        requires
            old(self).wf(),
        ensures
            final(self).wf(),
            final(self).config_of() == old(self).config_of(),
            final(self).next_id() == old(self).next_id(),
            !has_room(old(self).rooms_of(), room_id) ==> r == Err::<(), GameError>(GameError::RoomNotFound(room_id))
                && final(self).rooms_of() == old(self).rooms_of(),
            has_room(old(self).rooms_of(), room_id) ==> {
                let i = room_pos(old(self).rooms_of(), room_id);
                let room = old(self).rooms_of()[i];
                if room.players@.len() < 2 {
                    &&& r == Err::<(), GameError>(GameError::NotEnoughPlayers)
                    &&& final(self).rooms_of() == old(self).rooms_of()
                } else if room.state != GameState::Waiting {
                    &&& r == Err::<(), GameError>(GameError::CannotStart(room.state))
                    &&& final(self).rooms_of() == old(self).rooms_of()
                } else {
                    &&& r == Ok::<(), GameError>(())
                    &&& final(self).rooms_of() == old(self).rooms_of().update(i,
                        with_state(room, GameState::Starting, Some(now_secs)))
                }
            },
    {
        let i = match self.find_room(room_id) {
            Some(i) => i,
            None => return Err(GameError::RoomNotFound(room_id)),
        };
        if self.rooms[i].players.len() < 2 {
            return Err(GameError::NotEnoughPlayers);
        }
        let state = self.rooms[i].state;
        if state != GameState::Waiting {
            return Err(GameError::CannotStart(state));
        }
        self.set_room_state(i, GameState::Starting, Some(now_secs));
        Ok(())
    }

    /// The start's second step, a few seconds later: a room still starting
    /// is now playing. Tells whether it was.
    pub fn begin_play(&mut self, room_id: u32) -> (r: bool)
        requires
            old(self).wf(),
        ensures
            final(self).wf(),
            final(self).config_of() == old(self).config_of(),
            final(self).next_id() == old(self).next_id(),
            r == (has_room(old(self).rooms_of(), room_id)
                && old(self).rooms_of()[room_pos(old(self).rooms_of(), room_id)].state == GameState::Starting),
            r ==> {
                let i = room_pos(old(self).rooms_of(), room_id);
                final(self).rooms_of() == old(self).rooms_of().update(i,
                    with_state(old(self).rooms_of()[i], GameState::Playing, old(self).rooms_of()[i].started_at))
            },
            !r ==> final(self).rooms_of() == old(self).rooms_of(),
    {
        match self.find_room(room_id) {
            Some(i) => {
                if self.rooms[i].state == GameState::Starting {
                    let started_at = self.rooms[i].started_at;
                    self.set_room_state(i, GameState::Playing, started_at);
                    true
                } else {
                    false
                }
            },
            None => false,
        }
    }

    /// Ends the game in room `room_id` at `now_secs`: a starting or playing
    /// room is now ending, and its result is returned. The reason is the
    /// caller's to report.
    pub fn end_game(&mut self, room_id: u32, reason: &str, now_secs: i64) -> (r: Result<GameResult, GameError>)
        requires
            old(self).wf(),
            has_room(old(self).rooms_of(), room_id) ==> duration_fits(
                old(self).rooms_of()[room_pos(old(self).rooms_of(), room_id)], now_secs),
        ensures
            final(self).wf(),
            final(self).config_of() == old(self).config_of(),
            final(self).next_id() == old(self).next_id(),
            !has_room(old(self).rooms_of(), room_id) ==> {
                &&& r matches Err(e) && e == GameError::RoomNotFound(room_id)
                &&& final(self).rooms_of() == old(self).rooms_of()
            },
            has_room(old(self).rooms_of(), room_id) ==> {
                let i = room_pos(old(self).rooms_of(), room_id);
                let room = old(self).rooms_of()[i];
                if room.state != GameState::Playing && room.state != GameState::Starting {
                    &&& r matches Err(e) && e == GameError::CannotEnd(room.state)
                    &&& final(self).rooms_of() == old(self).rooms_of()
                } else {
                    &&& r matches Ok(res) && result_of(res, room, now_secs)
                    &&& final(self).rooms_of() == old(self).rooms_of().update(i,
                        with_state(room, GameState::Ending, room.started_at))
                }
            },
    {
        let i = match self.find_room(room_id) {
            Some(i) => i,
            None => return Err(GameError::RoomNotFound(room_id)),
        };
        let state = self.rooms[i].state;
        if state != GameState::Playing && state != GameState::Starting {
            return Err(GameError::CannotEnd(state));
        }
        let started_at = self.rooms[i].started_at;
        self.set_room_state(i, GameState::Ending, started_at);
        let result = self.calculate_game_result(&self.rooms[i], now_secs);
        Ok(result)
    }

    /// The end's second step, a moment later: the room is finished. Tells
    /// whether the room still exists.
    pub fn finish_game(&mut self, room_id: u32) -> (r: bool)
        requires
            old(self).wf(),
        ensures
            final(self).wf(),
            final(self).config_of() == old(self).config_of(),
            final(self).next_id() == old(self).next_id(),
            r == has_room(old(self).rooms_of(), room_id),
            r ==> {
                let i = room_pos(old(self).rooms_of(), room_id);
                final(self).rooms_of() == old(self).rooms_of().update(i,
                    with_state(old(self).rooms_of()[i], GameState::Finished, old(self).rooms_of()[i].started_at))
            },
            !r ==> final(self).rooms_of() == old(self).rooms_of(),
    {
        match self.find_room(room_id) {
            Some(i) => {
                let started_at = self.rooms[i].started_at;
                self.set_room_state(i, GameState::Finished, started_at);
                true
            },
            None => false,
        }
    }

    /// Counts the sides of `room`, names the winner and collects the scores.
    pub fn calculate_game_result(&self, room: &GameRoom, now_secs: i64) -> (res: GameResult)
        requires
            duration_fits(*room, now_secs),
        ensures
            result_of(res, *room, now_secs),
    {
        let ghost ps = room.players@;
        let n = room.players.len();
        let mut alive_thieves: usize = 0;
        let mut total_thieves: usize = 0;
        let mut police_count: usize = 0;
        let mut final_scores: HashMap<u32, u32> = HashMap::new();
        let mut j: usize = 0;
        while j < n
            invariant
                n == ps.len(),
                ps == room.players@,
                j <= n,
                alive_thieves == count_alive_thieves(ps.take(j as int)),
                total_thieves == count_role(ps.take(j as int), PlayerRole::Thief),
                police_count == count_role(ps.take(j as int), PlayerRole::Police),
                alive_thieves <= j,
                total_thieves <= j,
                police_count <= j,
                final_scores@ == scores_of(ps.take(j as int)),
            decreases n - j,
        {
            assert(ps.take(j + 1).drop_last() =~= ps.take(j as int));
            assert(ps.take(j + 1).last() == ps[j as int]);
            let role = room.players[j].role;
            if role == PlayerRole::Thief {
                total_thieves = total_thieves + 1;
                if room.players[j].is_alive {
                    alive_thieves = alive_thieves + 1;
                }
            } else if role == PlayerRole::Police {
                police_count = police_count + 1;
            }
            final_scores.insert(room.players[j].client_id, room.players[j].score);
            j = j + 1;
        }
        assert(ps.take(n as int) =~= ps);
        let winner = if alive_thieves == 0 {
            PlayerRole::Police
        } else if police_count == 0 {
            PlayerRole::Thief
        } else if alive_thieves > total_thieves / 2 {
            PlayerRole::Thief
        } else {
            PlayerRole::Police
        };
        let duration_seconds: i64 = match room.started_at {
            Some(start) => now_secs - start,
            None => 0,
        };
        GameResult {
            room_id: room.room_id,
            winner,
            duration_seconds,
            total_players: n,
            alive_thieves,
            total_thieves,
            police_count,
            final_scores,
        }
    }

    /// Every room, in the order they were made.
    pub fn get_room_list(&self) -> (v: Vec<RoomInfo>)
        ensures
            v@.len() == self.rooms_of().len(),
            forall|j: int| 0 <= j < v@.len() ==> lists_room(#[trigger] v@[j], self.rooms_of()[j]),
    {
        let mut v: Vec<RoomInfo> = Vec::new();
        let mut j: usize = 0;
        while j < self.rooms.len()
            invariant
                j <= self.rooms@.len(),
                v@.len() == j,
                forall|t: int| 0 <= t < j ==> lists_room(#[trigger] v@[t], self.rooms@[t]),
            decreases self.rooms@.len() - j,
        {
            let r = &self.rooms[j];
            v.push(RoomInfo {
                room_id: r.room_id,
                name: r.name.clone(),
                state: r.state,
                current_players: r.players.len(),
                max_players: r.max_players as usize,
                created_at: r.created_at,
            });
            j = j + 1;
        }
        v
    }

    /// A copy of room `room_id`.
    pub fn get_room_details(&self, room_id: u32) -> (r: Result<GameRoom, GameError>)
        requires
            self.wf(),
        ensures
            !has_room(self.rooms_of(), room_id) ==> (r matches Err(e) && e == GameError::RoomNotFound(room_id)),
            has_room(self.rooms_of(), room_id) ==> (r matches Ok(c) && same_room(c,
                self.rooms_of()[room_pos(self.rooms_of(), room_id)])),
    {
        let i = match self.find_room(room_id) {
            Some(i) => i,
            None => return Err(GameError::RoomNotFound(room_id)),
        };
        let room = &self.rooms[i];
        let mut players: Vec<Player> = Vec::new();
        let mut k: usize = 0;
        while k < room.players.len()
            invariant
                k <= room.players@.len(),
                players@ == room.players@.take(k as int),
            decreases room.players@.len() - k,
        {
            let p = &room.players[k];
            let copy = Player {
                client_id: p.client_id,
                nickname: p.nickname.clone(),
                role: p.role,
                is_alive: p.is_alive,
                score: p.score,
                last_activity: p.last_activity,
            };
            players.push(copy);
            assert(players@ =~= room.players@.take(k + 1));
            k = k + 1;
        }
        assert(room.players@.take(room.players@.len() as int) =~= room.players@);
        Ok(GameRoom {
            room_id: room.room_id,
            name: room.name.clone(),
            state: room.state,
            players,
            max_players: room.max_players,
            created_at: room.created_at,
            started_at: room.started_at,
        })
    }

    /// Takes `client_id` out of room `room_id`; a room left empty is
    /// dropped.
    pub fn leave_room(&mut self, client_id: u32, room_id: u32) -> (r: Result<(), GameError>)
        requires
            old(self).wf(),
        ensures
            final(self).wf(),
            final(self).config_of() == old(self).config_of(),
            final(self).next_id() == old(self).next_id(),
            !has_room(old(self).rooms_of(), room_id) ==> r == Err::<(), GameError>(GameError::RoomNotFound(room_id))
                && final(self).rooms_of() == old(self).rooms_of(),
            has_room(old(self).rooms_of(), room_id) ==> {
                let i = room_pos(old(self).rooms_of(), room_id);
                let ps = old(self).rooms_of()[i].players@;
                if !has_player(ps, client_id) {
                    &&& r == Err::<(), GameError>(GameError::NotInRoom(client_id))
                    &&& final(self).rooms_of() == old(self).rooms_of()
                } else {
                    let rest = ps.remove(player_pos(ps, client_id));
                    &&& r == Ok::<(), GameError>(())
                    &&& rest.len() == 0 ==> final(self).rooms_of() == old(self).rooms_of().remove(i)
                    &&& rest.len() > 0 ==> players_replaced(final(self).rooms_of(), old(self).rooms_of(), i, rest)
                }
            },
    {
        let i = match self.find_room(room_id) {
            Some(i) => i,
            None => return Err(GameError::RoomNotFound(room_id)),
        };
        proof {
            assert(distinct_players(self.rooms@[i as int].players@));
        }
        let k = match Self::player_index(&self.rooms[i].players, client_id) {
            Some(k) => k,
            None => return Err(GameError::NotInRoom(client_id)),
        };
        let ghost old_rooms = self.rooms@;
        let ghost ps = self.rooms@[i as int].players@;
        let mut room = self.rooms.remove(i);
        let _left = room.players.remove(k);
        if room.players.len() == 0 {
            proof {
                assert(self.rooms@ =~= old_rooms.remove(i as int));
                lemma_rooms_remove(old_rooms, self.next_room_id, self.config.max_rooms, i as int);
            }
        } else {
            proof {
                let rest = room.players@;
                assert forall|x: int, y: int|
                    0 <= x < rest.len() && 0 <= y < rest.len() && x != y implies #[trigger] rest[x].client_id
                    != #[trigger] rest[y].client_id by {
                    let x2 = if x < k { x } else { x + 1 };
                    let y2 = if y < k { y } else { y + 1 };
                    assert(rest[x] == ps[x2]);
                    assert(rest[y] == ps[y2]);
                }
            }
            self.rooms.insert(i, room);
            proof {
                assert(self.rooms@ =~= old_rooms.update(i as int, self.rooms@[i as int]));
                lemma_rooms_update(old_rooms, self.next_room_id, self.config.max_rooms, i as int, self.rooms@[i as int]);
            }
        }
        Ok(())
    }

    /// Room and player totals; the player total stops at `usize::MAX`.
    pub fn get_game_stats(&self) -> (st: GameStats)
        requires
            self.wf(),
        ensures
            st.total_rooms == self.rooms_of().len(),
            st.total_players == if players_in(self.rooms_of()) <= usize::MAX {
                players_in(self.rooms_of())
            } else {
                usize::MAX as nat
            },
            st.active_games == count_state(self.rooms_of(), GameState::Playing),
            st.state_distribution.waiting == count_state(self.rooms_of(), GameState::Waiting),
            st.state_distribution.starting == count_state(self.rooms_of(), GameState::Starting),
            st.state_distribution.playing == count_state(self.rooms_of(), GameState::Playing),
            st.state_distribution.ending == count_state(self.rooms_of(), GameState::Ending),
            st.state_distribution.finished == count_state(self.rooms_of(), GameState::Finished),
            st.max_rooms == self.config_of().max_rooms,
            st.max_players_per_room == self.config_of().max_players_per_room,
    {
        let ghost rs = self.rooms@;
        let n = self.rooms.len();
        let mut total: usize = 0;
        let mut counts = StateCounts { waiting: 0, starting: 0, playing: 0, ending: 0, finished: 0 };
        let mut j: usize = 0;
        while j < n
            invariant
                rs == self.rooms@,
                n == rs.len(),
                n <= self.config.max_rooms,
                j <= n,
                total == if players_in(rs.take(j as int)) <= usize::MAX {
                    players_in(rs.take(j as int))
                } else {
                    usize::MAX as nat
                },
                counts.waiting == count_state(rs.take(j as int), GameState::Waiting),
                counts.starting == count_state(rs.take(j as int), GameState::Starting),
                counts.playing == count_state(rs.take(j as int), GameState::Playing),
                counts.ending == count_state(rs.take(j as int), GameState::Ending),
                counts.finished == count_state(rs.take(j as int), GameState::Finished),
                counts.waiting <= j,
                counts.starting <= j,
                counts.playing <= j,
                counts.ending <= j,
                counts.finished <= j,
            decreases n - j,
        {
            assert(rs.take(j + 1).drop_last() =~= rs.take(j as int));
            assert(rs.take(j + 1).last() == rs[j as int]);
            let here = self.rooms[j].players.len();
            total = total.saturating_add(here);
            match self.rooms[j].state {
                GameState::Waiting => counts.waiting = counts.waiting + 1,
                GameState::Starting => counts.starting = counts.starting + 1,
                GameState::Playing => counts.playing = counts.playing + 1,
                GameState::Ending => counts.ending = counts.ending + 1,
                GameState::Finished => counts.finished = counts.finished + 1,
            }
            j = j + 1;
        }
        assert(rs.take(n as int) =~= rs);
        GameStats {
            total_rooms: n,
            total_players: total,
            active_games: counts.playing as usize,
            state_distribution: counts,
            max_rooms: self.config.max_rooms,
            max_players_per_room: self.config.max_players_per_room,
        }
    }

    /// Drops the rooms that are stale at `now_secs`; returns how many.
    pub fn cleanup_rooms(&mut self, now_secs: i64) -> (removed: usize)
        requires
            old(self).wf(),
        ensures
            final(self).wf(),
            final(self).config_of() == old(self).config_of(),
            final(self).next_id() == old(self).next_id(),
            final(self).rooms_of() == kept(old(self).rooms_of(), now_secs),
            removed == old(self).rooms_of().len() - final(self).rooms_of().len(),
    {
        let ghost orig = self.rooms@;
        assert(orig.len() == self.rooms.len());
        let ghost mut p: int = 0;
        let mut i: usize = 0;
        let mut removed: usize = 0;
        while i < self.rooms.len()
            invariant
                0 <= p <= orig.len(),
                orig.len() <= usize::MAX,
                self.rooms@ == kept(orig.take(p), now_secs) + orig.skip(p),
                i == kept(orig.take(p), now_secs).len(),
                removed == p - i,
                rooms_wf(self.rooms@, self.next_room_id, self.config.max_rooms),
                self.next_room_id == old(self).next_room_id,
                self.config == old(self).config,
            decreases self.rooms@.len() - i,
        {
            let ghost before = self.rooms@;
            assert(orig.take(p + 1).drop_last() =~= orig.take(p));
            assert(orig.take(p + 1).last() == orig[p]);
            assert(before[i as int] == orig[p]);
            let r = &self.rooms[i];
            let empty = r.players.len() == 0;
            let old_finished = r.state == GameState::Finished && (now_secs as i128) - (r.created_at as i128) > 3600;
            if empty || old_finished {
                self.rooms.remove(i);
                proof {
                    assert(self.rooms@ =~= kept(orig.take(p + 1), now_secs) + orig.skip(p + 1));
                    lemma_rooms_remove(before, self.next_room_id, self.config.max_rooms, i as int);
                }
                removed = removed + 1;
            } else {
                proof {
                    assert(before =~= kept(orig.take(p + 1), now_secs) + orig.skip(p + 1));
                }
                i = i + 1;
            }
            proof {
                p = p + 1;
            }
        }
        proof {
            if p < orig.len() {
                assert(self.rooms@.len() > i);
            }
            assert(orig.take(orig.len() as int) =~= orig);
            assert(self.rooms@ =~= kept(orig, now_secs));
        }
        removed
    }
}


/// No more thieves are free than there are thieves.
proof fn lemma_free_thieves_at_most_thieves(ps: Seq<Player>)
    ensures
        count_alive_thieves(ps) <= count_role(ps, PlayerRole::Thief),
    decreases ps.len(),
{
    if ps.len() > 0 {
        lemma_free_thieves_at_most_thieves(ps.drop_last());
    }
}

/// The end-of-game result: with no thief free the police win; with free
/// thieves and no officer the thieves win; and with at least one officer
/// and one free thief the thieves win exactly when more than half of all
/// thieves are free, however many officers there are.
pub proof fn lemma_winner_by_free_thieves(res: GameResult, room: GameRoom, now: i64)
    requires
        result_of(res, room, now),
    ensures
        res.alive_thieves <= res.total_thieves,
        res.winner == PlayerRole::Police || res.winner == PlayerRole::Thief,
        res.alive_thieves == 0 ==> res.winner == PlayerRole::Police,
        res.alive_thieves > 0 && res.police_count == 0 ==> res.winner == PlayerRole::Thief,
        res.alive_thieves > 0 && res.police_count > 0 ==> ((res.winner == PlayerRole::Thief) <==> (res.alive_thieves * 2
            > res.total_thieves)),
{
    lemma_free_thieves_at_most_thieves(room.players@);
}

/// Cleanup at `now` keeps, in order, exactly the rooms that have players
/// and are not games finished more than an hour (3600 s) after their room
/// was made: no room with players is removed unless its game is finished
/// and old, and every empty room goes.
pub proof fn lemma_cleanup_keeps_live_rooms(rs: Seq<GameRoom>, now: i64)
    ensures
        forall|i: int|
            0 <= i < rs.len() && rs[i].players@.len() > 0 && !(rs[i].state == GameState::Finished && now
                - rs[i].created_at > 3600) ==> #[trigger] kept(rs, now).contains(rs[i]),
        forall|r: GameRoom|
            #[trigger] kept(rs, now).contains(r) ==> rs.contains(r) && r.players@.len() > 0 && !(r.state
                == GameState::Finished && now - r.created_at > 3600),
        kept(rs, now).len() <= rs.len(),
    decreases rs.len(),
{
    if rs.len() > 0 {
        let front = rs.drop_last();
        lemma_cleanup_keeps_live_rooms(front, now);
        let k = kept(rs, now);
        let kf = kept(front, now);
        assert forall|i: int|
            0 <= i < rs.len() && rs[i].players@.len() > 0 && !(rs[i].state == GameState::Finished && now
                - rs[i].created_at > 3600) implies #[trigger] k.contains(rs[i]) by {
            if i < rs.len() - 1 {
                assert(front[i] == rs[i]);
                assert(kf.contains(front[i]));
                let j = choose|j: int| 0 <= j < kf.len() && kf[j] == front[i];
                if !stale(rs.last(), now) {
                    assert(k[j] == kf[j]);
                }
            } else {
                assert(k[k.len() - 1] == rs.last());
            }
        }
        assert forall|r: GameRoom| #[trigger] k.contains(r) implies rs.contains(r) && r.players@.len() > 0
            && !(r.state == GameState::Finished && now - r.created_at > 3600) by {
            let j = choose|j: int| 0 <= j < k.len() && k[j] == r;
            if !stale(rs.last(), now) && j == k.len() - 1 {
                assert(rs[rs.len() - 1] == r);
            } else {
                assert(kf[j] == r);
                assert(kf.contains(r));
                let m = choose|m: int| 0 <= m < front.len() && front[m] == r;
                assert(rs[m] == r);
            }
        }
    }
}

} // verus!
