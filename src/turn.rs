use vstd::prelude::*;

use crate::id::Uid;
use crate::list::IdListView;
use crate::player::{Player, Players};

verus! {

/// Whether the game master asked to jump to a chosen player.
#[derive(Clone, Copy, PartialEq, Eq, Structural, Debug)]
pub enum NextPlayerState {
    /// Turns follow the order.
    Default,
    /// A jump was asked for; the target is chosen at the start of the next pass.
    Pending,
    /// Every player of the order is skipped until this one.
    Picked(Uid),
}

/// What the turn engine asks of its caller next.
#[derive(Clone, Copy, PartialEq, Eq, Structural, Debug)]
pub enum TurnStep {
    /// Choose the player to jump to, then hand the choice to `pick`.
    PickNext,
    /// It is this player's turn.
    Play(Uid),
    /// A whole pass over the order found nobody to play.
    NoPlayable,
}

/// The position of the turn cycle over a player order.
#[derive(Clone, Copy, PartialEq, Eq, Structural, Debug)]
pub struct TurnEngine {
    pub next_player: NextPlayerState,
    /// The position in the order from which the current pass goes on.
    pub pos: usize,
    /// A pass over the order is under way.
    pub in_pass: bool,
}

/// The order entry `id` gets a turn: it names a live player, and the one
/// that was picked, if any.
pub open spec fn playable(state: NextPlayerState, players: IdListView<Player>, id: Uid) -> bool {
    &&& players.contains(id)
    &&& (state matches NextPlayerState::Picked(t) ==> id == t)
}

/// The first position at or after `from` whose entry gets a turn.
pub open spec fn first_playable(
    order: Seq<Uid>,
    players: IdListView<Player>,
    state: NextPlayerState,
    from: int,
) -> Option<int>
    decreases order.len() - from,
{
    if from < 0 || from >= order.len() {
        None
    } else if playable(state, players, order[from]) {
        Some(from)
    } else {
        first_playable(order, players, state, from + 1)
    }
}

/// A position that `first_playable` finds lies in the order, at or after
/// `from`, and its entry gets a turn.
pub proof fn lemma_first_playable(
    order: Seq<Uid>,
    players: IdListView<Player>,
    state: NextPlayerState,
    from: int,
)
    ensures
        first_playable(order, players, state, from) matches Some(i) ==> from <= i < order.len()
            && playable(state, players, order[i]),
    decreases order.len() - from,
{
    if 0 <= from < order.len() && !playable(state, players, order[from]) {
        lemma_first_playable(order, players, state, from + 1);
    }
}

impl TurnEngine {
    /// The engine after giving the turn to the entry at position `i`: a pick is used up.
    pub open spec fn spec_take(self, order: Seq<Uid>, i: int) -> (TurnEngine, TurnStep) {
        (
            TurnEngine {
                next_player: if self.next_player is Picked {
                    NextPlayerState::Default
                } else {
                    self.next_player
                },
                pos: (i + 1) as usize,
                in_pass: true,
            },
            TurnStep::Play(order[i]),
        )
    }

    /// One step of the turn cycle: the rest of the current pass is searched
    /// first; at the start of a new pass a pending jump asks for its target;
    /// then the new pass is searched from the top.
    pub open spec fn spec_advance(self, order: Seq<Uid>, players: IdListView<Player>) -> (
        TurnEngine,
        TurnStep,
    ) {
        let rest = if self.in_pass {
            first_playable(order, players, self.next_player, self.pos as int)
        } else {
            None
        };
        if rest is Some {
            self.spec_take(order, rest->0)
        } else if self.next_player is Pending {
            (
                TurnEngine { next_player: NextPlayerState::Pending, pos: 0, in_pass: true },
                TurnStep::PickNext,
            )
        } else {
            match first_playable(order, players, self.next_player, 0) {
                Some(i) => self.spec_take(order, i),
                None => (TurnEngine { pos: 0, in_pass: false, ..self }, TurnStep::NoPlayable),
            }
        }
    }

    /// An engine at the start of the first pass, with no jump asked for.
    pub fn new() -> (r: Self)
        ensures
            r == (TurnEngine { next_player: NextPlayerState::Default, pos: 0, in_pass: false }),
    {
        TurnEngine { next_player: NextPlayerState::Default, pos: 0, in_pass: false }
    }

    /// The first position at or after `from` whose entry gets a turn.
    fn scan(&self, order: &Vec<Uid>, players: &Players, from: usize) -> (r: Option<usize>)
        requires
            players.wf(),
        ensures
            r matches Some(i) ==> i < order@.len() && first_playable(
                order@,
                players@,
                self.next_player,
                from as int,
            ) == Some(i as int),
            r is None ==> first_playable(order@, players@, self.next_player, from as int) is None,
    {
        proof {
            lemma_first_playable(order@, players@, self.next_player, from as int);
        }
        let mut i: usize = from;
        while i < order.len()
            invariant
                players.wf(),
                from <= i,
                first_playable(order@, players@, self.next_player, from as int)
                    == first_playable(order@, players@, self.next_player, i as int),
            decreases order@.len() - i,
        {
            let id = order[i];
            let wanted = match self.next_player {
                NextPlayerState::Picked(t) => t == id,
                _ => true,
            };
            if wanted && players.contains(id) {
                return Some(i);
            }
            i = i + 1;
        }
        None
    }

    /// Moves the cycle on: returns whose turn it is, or that a jump target must
    /// be chosen, or that a whole pass found nobody to play. Entries of the
    /// order that no longer name a live player are skipped.
    pub fn advance(&mut self, order: &Vec<Uid>, players: &Players) -> (r: TurnStep)
        requires
            players.wf(),
        ensures
            (*final(self), r) == old(self).spec_advance(order@, players@),
    {
        if self.in_pass {
            if let Some(i) = self.scan(order, players, self.pos) {
                return self.take(order, i);
            }
        }
        if let NextPlayerState::Pending = self.next_player {
            self.pos = 0;
            self.in_pass = true;
            return TurnStep::PickNext;
        }
        match self.scan(order, players, 0) {
            Some(i) => self.take(order, i),
            None => {
                self.pos = 0;
                self.in_pass = false;
                TurnStep::NoPlayable
            },
        }
    }

    fn take(&mut self, order: &Vec<Uid>, i: usize) -> (r: TurnStep)
        requires
            i < order@.len(),
        ensures
            (*final(self), r) == old(self).spec_take(order@, i as int),
    {
        if let NextPlayerState::Picked(_) = self.next_player {
            self.next_player = NextPlayerState::Default;
        }
        let n = order.len();
        self.pos = i + 1;
        self.in_pass = true;
        TurnStep::Play(order[i])
    }

    /// Asks for a jump: the current pass ends, and the next one starts by
    /// choosing the target.
    pub fn request_pick(&mut self)
        ensures
            *final(self) == (TurnEngine {
                next_player: NextPlayerState::Pending,
                pos: 0,
                in_pass: false,
            }),
    {
        self.next_player = NextPlayerState::Pending;
        self.pos = 0;
        self.in_pass = false;
    }

    /// Hands over the chosen jump target. With no choice the jump stays
    /// pending and the pass runs as usual; it is asked for again at the next pass.
    pub fn pick(&mut self, target: Option<Uid>)
        ensures
            *final(self) == (match (old(self).next_player, target) {
                (NextPlayerState::Pending, Some(t)) => TurnEngine {
                    next_player: NextPlayerState::Picked(t),
                    ..*old(self)
                },
                _ => *old(self),
            }),
    {
        if let NextPlayerState::Pending = self.next_player {
            if let Some(t) = target {
                self.next_player = NextPlayerState::Picked(t);
            }
        }
    }
}

/// Whoever the turn cycle hands a turn to is a live player named by the
/// order, and the picked one while a jump is under way: entries that dangle
/// are never played.
pub proof fn lemma_play_is_live(e: TurnEngine, order: Seq<Uid>, players: IdListView<Player>)
    ensures
        e.spec_advance(order, players).1 matches TurnStep::Play(id) ==> {
            &&& players.contains(id)
            &&& order.contains(id)
            &&& (e.next_player matches NextPlayerState::Picked(t) ==> id == t)
        },
{
    lemma_first_playable(order, players, e.next_player, e.pos as int);
    lemma_first_playable(order, players, e.next_player, 0);
    if let TurnStep::Play(id) = e.spec_advance(order, players).1 {
        let rest = if e.in_pass {
            first_playable(order, players, e.next_player, e.pos as int)
        } else {
            None
        };
        let i = if rest is Some {
            rest->0
        } else {
            first_playable(order, players, e.next_player, 0)->0
        };
        assert(order[i] == id);
    }
}

/// Once a jump target is picked, the next turn goes to the first entry of
/// the order that names it, when that entry names a live player.
pub proof fn lemma_pick_jumps(
    e: TurnEngine,
    order: Seq<Uid>,
    players: IdListView<Player>,
    t: Uid,
    k: int,
)
    requires
        e.next_player == NextPlayerState::Picked(t),
        e.pos == 0,
        e.in_pass,
        0 <= k < order.len(),
        order[k] == t,
        players.contains(t),
        forall|j: int| 0 <= j < k ==> order[j] != t,
        order.len() <= usize::MAX,
    ensures
        e.spec_advance(order, players).1 == TurnStep::Play(t),
        e.spec_advance(order, players).0.next_player == NextPlayerState::Default,
        e.spec_advance(order, players).0.pos == k + 1,
{
    lemma_first_playable_at(order, players, e.next_player, 0, k);
}

/// `first_playable` finds the first position whose entry gets a turn.
proof fn lemma_first_playable_at(
    order: Seq<Uid>,
    players: IdListView<Player>,
    state: NextPlayerState,
    from: int,
    k: int,
)
    requires
        0 <= from <= k < order.len(),
        playable(state, players, order[k]),
        forall|j: int| from <= j < k ==> !playable(state, players, order[j]),
    ensures
        first_playable(order, players, state, from) == Some(k),
    decreases k - from,
{
    if from < k {
        lemma_first_playable_at(order, players, state, from + 1, k);
    }
}

} // verus!
