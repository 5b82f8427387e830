//! The game record: seats, phases, roles and the invariant that every
//! operation keeps.

use vstd::prelude::*;

verus! {

/// Role: kills by night, wins at parity with the town.
pub const ROLE_MAFIA: u32 = 0;

/// Role: no night action.
pub const ROLE_VILLAGER: u32 = 1;

/// Role: protects one seat by night, itself included.
pub const ROLE_DOCTOR: u32 = 2;

/// Role: investigates one other seat by night.
pub const ROLE_SHERIFF: u32 = 3;

/// Phase: players join; no roles yet.
pub const PHASE_LOBBY: u32 = 0;

/// Phase: the living humans commit to their night actions.
pub const PHASE_NIGHT_COMMIT: u32 = 1;

/// Phase: the living humans open their commitments.
pub const PHASE_NIGHT_REVEAL: u32 = 2;

/// Phase: the living humans vote.
pub const PHASE_DAY: u32 = 3;

/// Phase: a team has won; nothing changes any more.
pub const PHASE_OVER: u32 = 4;

/// Team: the Mafia seats.
pub const TEAM_MAFIA: u32 = 0;

/// Team: every seat that is not Mafia.
pub const TEAM_TOWN: u32 = 1;

/// Number of seats in every game.
pub const MAX_PLAYERS: u32 = 8;

/// The target value that means "no target": a pass at night, an abstention
/// by day.
pub const PASS_TARGET: u32 = 0xFFFF_FFFF;

/// Keys under which a deployment keeps its records.
#[derive(Clone, Copy, Debug, PartialEq, Eq)]
pub enum DataKey {
    Game(u32),
    Admin,
    GameHubAddress,
}

/// Why an operation was refused. A refused operation changes nothing.
#[derive(Clone, Copy, Debug, PartialEq, Eq, Structural)]
pub enum MafiaError {
    GameNotFound,
    GameFull,
    AlreadyJoined,
    NotInGame,
    WrongPhase,
    AlreadyActed,
    InvalidTarget,
    NotAlive,
    GameAlreadyOver,
    NotCreator,
    SessionExists,
    InvalidReveal,
    NoCommitment,
}

impl MafiaError {
    /// The number under which the error is reported to a caller.
    pub open spec fn code_of(self) -> u32 {
        match self {
            MafiaError::GameNotFound => 1,
            MafiaError::GameFull => 2,
            MafiaError::AlreadyJoined => 3,
            MafiaError::NotInGame => 4,
            MafiaError::WrongPhase => 5,
            MafiaError::AlreadyActed => 6,
            MafiaError::InvalidTarget => 7,
            MafiaError::NotAlive => 8,
            MafiaError::GameAlreadyOver => 9,
            MafiaError::NotCreator => 10,
            MafiaError::SessionExists => 11,
            MafiaError::InvalidReveal => 12,
            MafiaError::NoCommitment => 13,
        }
    }

    /// The number under which the error is reported to a caller.
    pub fn code(self) -> (n: u32)
        ensures
            n == self.code_of(),
            1 <= n <= 13,
    {
        match self {
            MafiaError::GameNotFound => 1,
            MafiaError::GameFull => 2,
            MafiaError::AlreadyJoined => 3,
            MafiaError::NotInGame => 4,
            MafiaError::WrongPhase => 5,
            MafiaError::AlreadyActed => 6,
            MafiaError::InvalidTarget => 7,
            MafiaError::NotAlive => 8,
            MafiaError::GameAlreadyOver => 9,
            MafiaError::NotCreator => 10,
            MafiaError::SessionExists => 11,
            MafiaError::InvalidReveal => 12,
            MafiaError::NoCommitment => 13,
        }
    }
}

/// Who occupies a seat: the 56 characters of the account's or contract's
/// address in its text form.
#[derive(Clone, Copy, Debug, PartialEq, Eq)]
pub struct PlayerId {
    pub strkey: [u8; 56],
}

/// One of the eight seats.
#[derive(Clone, Copy, Debug, PartialEq, Eq)]
pub struct Slot {
    /// The human in the seat; `None` for a seat that the engine plays.
    pub addr: Option<PlayerId>,
    pub role: u32,
    pub alive: bool,
    /// The target chosen in the current sub-phase; `None` is a pass.
    pub action: Option<u32>,
    /// Whether the seat has acted in the current sub-phase.
    pub submitted: bool,
    /// The digest committed to this night, until the night is resolved.
    pub commitment: Option<[u8; 32]>,
}

/// One session's game.
#[derive(Clone, Debug, PartialEq, Eq)]
pub struct Game {
    pub creator: PlayerId,
    pub slots: Vec<Slot>,
    pub human_count: u32,
    pub phase: u32,
    pub day: u32,
    pub winner: Option<u32>,
    pub last_killed: Option<u32>,
    pub last_saved: bool,
    pub last_investigated: Option<u32>,
    pub invest_is_mafia: bool,
    pub last_voted_out: Option<u32>,
    pub wager: i128,
}

/// What the engine asks of the host's generator: to be seeded with `seed`
/// and then to give, in order, one number below each entry of `bounds`.
#[derive(Clone, Debug, PartialEq, Eq)]
pub struct DrawRequest {
    pub seed: [u8; 32],
    pub bounds: Vec<u64>,
}

/// A request as a mathematical value.
pub struct DrawRequestView {
    pub seed: Seq<u8>,
    pub bounds: Seq<u64>,
}

impl View for DrawRequest {
    type V = DrawRequestView;

    open spec fn view(&self) -> DrawRequestView {
        DrawRequestView { seed: self.seed@, bounds: self.bounds@ }
    }
}

/// A game as a mathematical value: the seats are a sequence.
pub struct GameView {
    pub creator: PlayerId,
    pub slots: Seq<Slot>,
    pub human_count: u32,
    pub phase: u32,
    pub day: u32,
    pub winner: Option<u32>,
    pub last_killed: Option<u32>,
    pub last_saved: bool,
    pub last_investigated: Option<u32>,
    pub invest_is_mafia: bool,
    pub last_voted_out: Option<u32>,
    pub wager: i128,
}

impl View for Game {
    type V = GameView;

    open spec fn view(&self) -> GameView {
        GameView {
            creator: self.creator,
            slots: self.slots@,
            human_count: self.human_count,
            phase: self.phase,
            day: self.day,
            winner: self.winner,
            last_killed: self.last_killed,
            last_saved: self.last_saved,
            last_investigated: self.last_investigated,
            invest_is_mafia: self.invest_is_mafia,
            last_voted_out: self.last_voted_out,
            wager: self.wager,
        }
    }
}

/// The roles dealt at the start, before they are shuffled over the seats.
pub open spec fn role_template() -> Seq<u32> {
    seq![
        ROLE_MAFIA,
        ROLE_MAFIA,
        ROLE_DOCTOR,
        ROLE_SHERIFF,
        ROLE_VILLAGER,
        ROLE_VILLAGER,
        ROLE_VILLAGER,
        ROLE_VILLAGER,
    ]
}

/// The roles of the seats, seat by seat.
pub open spec fn roles_of(slots: Seq<Slot>) -> Seq<u32> {
    Seq::new(slots.len(), |i: int| slots[i].role)
}

/// How many of the first `n` roles are `role`.
pub open spec fn role_count(roles: Seq<u32>, role: u32, n: int) -> nat
    decreases n,
{
    if n <= 0 {
        0
    } else {
        role_count(roles, role, n - 1) + if roles[n - 1] == role {
            1nat
        } else {
            0nat
        }
    }
}

/// Eight roles: two Mafia, one Doctor, one Sheriff and four Villagers, in
/// some order.
pub open spec fn is_full_cast(roles: Seq<u32>) -> bool {
    &&& roles.len() == 8
    &&& role_count(roles, ROLE_MAFIA, 8) == 2
    &&& role_count(roles, ROLE_DOCTOR, 8) == 1
    &&& role_count(roles, ROLE_SHERIFF, 8) == 1
    &&& role_count(roles, ROLE_VILLAGER, 8) == 4
}

/// The seats hold the full cast.
pub open spec fn roles_match_template(slots: Seq<Slot>) -> bool {
    is_full_cast(roles_of(slots))
}

/// The seat's fields that last one sub-phase are empty.
pub open spec fn cleared(s: Slot) -> Slot {
    Slot { action: None, submitted: false, commitment: None, ..s }
}

/// The seat is dead.
pub open spec fn killed(s: Slot) -> Slot {
    Slot { alive: false, ..s }
}

/// Every seat with its sub-phase fields empty.
pub open spec fn all_cleared(slots: Seq<Slot>) -> Seq<Slot> {
    Seq::new(slots.len(), |i: int| cleared(slots[i]))
}

/// `t` names a living seat.
pub open spec fn living_seat(slots: Seq<Slot>, t: u32) -> bool {
    t < slots.len() && slots[t as int].alive
}

/// Every target on record names a living seat. A target is recorded only
/// for a living seat, and nobody dies before the targets are wiped.
pub open spec fn targets_alive(slots: Seq<Slot>) -> bool {
    forall|i: int|
        0 <= i < slots.len() ==> ((#[trigger] slots[i]).action matches Some(t) ==> living_seat(
            slots,
            t,
        ))
}

/// Targets stay targets of living seats where nobody dies and every seat
/// keeps its target, drops it, or takes one that names a living seat.
pub proof fn lemma_targets_kept(before: Seq<Slot>, after: Seq<Slot>)
    requires
        targets_alive(before),
        after.len() == before.len(),
        forall|i: int| 0 <= i < after.len() ==> (#[trigger] after[i]).alive == before[i].alive,
        forall|i: int|
            0 <= i < after.len() ==> ((#[trigger] after[i]).action matches Some(t) ==> after[i].action
                == before[i].action || living_seat(before, t)),
    ensures
        targets_alive(after),
{
    assert forall|i: int| 0 <= i < after.len() implies ((#[trigger] after[i]).action matches Some(
        t,
    ) ==> living_seat(after, t)) by {
        if let Some(t) = after[i].action {
            if after[i].action == before[i].action {
                assert(living_seat(before, t));
            }
            assert(after[t as int].alive == before[t as int].alive);
        }
    }
}

/// The seat is alive and has nothing pending: no action, no commitment, and
/// it has not acted.
pub open spec fn is_idle(s: Slot) -> bool {
    s.alive && s.action is None && !s.submitted && s.commitment is None
}

/// Every seat is alive and has nothing pending.
pub open spec fn all_idle(slots: Seq<Slot>) -> bool {
    forall|i: int| 0 <= i < slots.len() ==> is_idle(#[trigger] slots[i])
}

impl GameView {
    /// What every operation expects of a game and keeps: eight seats, the
    /// humans in the first `human_count` of them, and every chosen target a
    /// living seat. In the lobby nobody has won and every seat is alive with
    /// nothing pending; once the game has begun the seats hold the fixed set
    /// of roles.
    pub open spec fn wf(self) -> bool {
        &&& self.slots.len() == 8
        &&& 1 <= self.human_count <= 8
        &&& forall|i: int|
            0 <= i < 8 ==> ((#[trigger] self.slots[i]).addr is Some <==> i < self.human_count)
        &&& targets_alive(self.slots)
        &&& self.phase != PHASE_LOBBY ==> roles_match_template(self.slots)
        &&& self.phase == PHASE_LOBBY ==> self.winner is None && all_idle(self.slots)
    }
}

/// After the lobby, a change that leaves every seat its occupant and its
/// role and keeps the targets on record living seats keeps the invariant.
pub proof fn lemma_wf_kept(before: GameView, after: GameView)
    requires
        before.wf(),
        before.phase != PHASE_LOBBY,
        after.phase != PHASE_LOBBY,
        after.slots.len() == 8,
        after.human_count == before.human_count,
        forall|i: int|
            0 <= i < 8 ==> (#[trigger] after.slots[i]).addr == before.slots[i].addr
                && after.slots[i].role == before.slots[i].role,
        targets_alive(after.slots),
    ensures
        after.wf(),
{
    assert(roles_of(after.slots) =~= roles_of(before.slots));
    assert forall|i: int| 0 <= i < 8 implies ((#[trigger] after.slots[i]).addr is Some <==> i
        < after.human_count) by {
        assert(after.slots[i].addr == before.slots[i].addr);
    }
}

impl Game {
    /// The game's invariant, see [`GameView::wf`].
    pub open spec fn wf(&self) -> bool {
        self@.wf()
    }

    /// Tests the invariant, for a caller that holds a game of unknown
    /// origin.
    pub fn check_wf(&self) -> (ok: bool)
        ensures
            ok == self.wf(),
    {
        if self.slots.len() != 8 || self.human_count < 1 || self.human_count > 8 {
            return false;
        }
        let mut mafia: u32 = 0;
        let mut doctor: u32 = 0;
        let mut sheriff: u32 = 0;
        let mut villager: u32 = 0;
        let mut idle: bool = true;
        let mut i: usize = 0;
        while i < 8
            invariant
                i <= 8,
                self.slots@.len() == 8,
                idle == (forall|k: int| 0 <= k < i ==> is_idle(#[trigger] self.slots@[k])),
                1 <= self.human_count <= 8,
                forall|k: int|
                    0 <= k < i ==> ((#[trigger] self.slots@[k]).addr is Some <==> k
                        < self.human_count),
                forall|k: int|
                    0 <= k < i ==> ((#[trigger] self.slots@[k]).action matches Some(t)
                        ==> living_seat(self.slots@, t)),
                mafia == role_count(roles_of(self.slots@), ROLE_MAFIA, i as int),
                doctor == role_count(roles_of(self.slots@), ROLE_DOCTOR, i as int),
                sheriff == role_count(roles_of(self.slots@), ROLE_SHERIFF, i as int),
                villager == role_count(roles_of(self.slots@), ROLE_VILLAGER, i as int),
                mafia <= i,
                doctor <= i,
                sheriff <= i,
                villager <= i,
            decreases 8 - i,
        {
            let s: Slot = self.slots[i];
            if s.addr.is_some() != (i < self.human_count as usize) {
                return false;
            }
            match s.action {
                Some(t) => {
                    if t >= 8 || !self.slots[t as usize].alive {
                        return false;
                    }
                },
                None => {},
            }
            if !s.alive || s.action.is_some() || s.submitted || s.commitment.is_some() {
                idle = false;
            }
            if s.role == ROLE_MAFIA {
                mafia += 1;
            } else if s.role == ROLE_DOCTOR {
                doctor += 1;
            } else if s.role == ROLE_SHERIFF {
                sheriff += 1;
            } else if s.role == ROLE_VILLAGER {
                villager += 1;
            }
            i += 1;
        }
        if self.phase == PHASE_LOBBY {
            self.winner.is_none() && idle
        } else {
            mafia == 2 && doctor == 1 && sheriff == 1 && villager == 4
        }
    }
}

/// Whether two identities are the same.
pub fn same_player(a: &PlayerId, b: &PlayerId) -> (same: bool)
    ensures
        same == (*a == *b),
{
    let mut i: usize = 0;
    while i < 56
        invariant
            i <= 56,
            forall|k: int| 0 <= k < i ==> a.strkey[k] == b.strkey[k],
        decreases 56 - i,
    {
        if a.strkey[i] != b.strkey[i] {
            return false;
        }
        i += 1;
    }
    assert(a.strkey =~= b.strkey);
    true
}

/// Whether two digests are the same.
pub fn same_digest(a: &[u8; 32], b: &[u8; 32]) -> (same: bool)
    ensures
        same == (a@ == b@),
        same == (*a == *b),
{
    let mut i: usize = 0;
    while i < 32
        invariant
            i <= 32,
            forall|k: int| 0 <= k < i ==> a[k] == b[k],
        decreases 32 - i,
    {
        if a[i] != b[i] {
            return false;
        }
        i += 1;
    }
    assert(*a =~= *b);
    assert(a@ =~= b@);
    true
}

} // verus!
