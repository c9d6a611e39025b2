//! Pending decisions a player answers: the companion question and the
//! cleanup discard (CR 514.1), and the choices each one offers.
use vstd::prelude::*;

use crate::ids::{GameObjectId, PlayerId};
use crate::state::{
    actions_view, card_position, take_card, Action, ActionView, CardInstance, DecisionContinuation, DecisionView,
    Game, GameView, PendingDecision, PlayerView, Step, ZoneKind, ZonePlacement,
};

verus! {

/// Every way to choose `k` of these items, keeping their order: those with
/// the first item come before those without it.
pub open spec fn combinations<A>(ids: Seq<A>, k: nat) -> Seq<Seq<A>>
    decreases ids.len(),
{
    if k == 0 {
        seq![Seq::empty()]
    } else if ids.len() < k {
        Seq::empty()
    } else {
        combinations(ids.drop_first(), (k - 1) as nat).map_values(|rest: Seq<A>| seq![ids[0]] + rest)
            + combinations(ids.drop_first(), k)
    }
}

/// Puts an item in front of a list.
pub open spec fn prepended<A>(first: A) -> spec_fn(Seq<A>) -> Seq<A> {
    |list: Seq<A>| seq![first] + list
}

/// Each choice of `k` items has `k` of them, each one of the items, and
/// none twice when the items are distinct.
pub proof fn lemma_combination_shape<A>(items: Seq<A>, k: nat, j: int)
    requires
        0 <= j < combinations(items, k).len(),
    ensures
        combinations(items, k)[j].len() == k,
        forall|m: int| 0 <= m < combinations(items, k)[j].len() ==> items.contains(#[trigger] combinations(items, k)[j][m]),
        items.no_duplicates() ==> combinations(items, k)[j].no_duplicates(),
    decreases items.len(),
{
    if k == 0 {
        assert(combinations(items, k)[j] == Seq::<A>::empty());
    } else if items.len() < k {
    } else {
        let rest = items.drop_first();
        let with = combinations(rest, (k - 1) as nat);
        let without = combinations(rest, k);
        let mapped = with.map_values(prepended(items[0]));
        assert(combinations(items, k) == mapped + without) by {
            assert(with.map_values(|r: Seq<A>| seq![items[0]] + r) =~= mapped);
        }
        if j < mapped.len() {
            lemma_combination_shape(rest, (k - 1) as nat, j);
            let tail = with[j];
            let chosen = seq![items[0]] + tail;
            assert(combinations(items, k)[j] == chosen);
            assert forall|m: int| 0 <= m < chosen.len() implies items.contains(#[trigger] chosen[m]) by {
                if m == 0 {
                    assert(items[0] == chosen[m]);
                } else {
                    assert(chosen[m] == tail[m - 1]);
                    assert(rest.contains(tail[m - 1]));
                    let r = choose|r: int| 0 <= r < rest.len() && rest[r] == tail[m - 1];
                    assert(items[r + 1] == rest[r]);
                }
            }
            if items.no_duplicates() {
                assert(rest.no_duplicates());
                assert forall|a: int, b: int| 0 <= a < chosen.len() && 0 <= b < chosen.len() && a != b implies chosen[a]
                    != chosen[b] by {
                    if a == 0 || b == 0 {
                        let other = if a == 0 { b } else { a };
                        assert(rest.contains(tail[other - 1]));
                        let r = choose|r: int| 0 <= r < rest.len() && rest[r] == tail[other - 1];
                        assert(items[r + 1] == rest[r]);
                        assert(items[0] != items[r + 1]);
                    } else {
                        assert(chosen[a] == tail[a - 1]);
                        assert(chosen[b] == tail[b - 1]);
                    }
                }
            }
        } else {
            lemma_combination_shape(rest, k, j - mapped.len());
            let chosen = without[j - mapped.len()];
            assert(combinations(items, k)[j] == chosen);
            assert forall|m: int| 0 <= m < chosen.len() implies items.contains(#[trigger] chosen[m]) by {
                assert(rest.contains(chosen[m]));
                let r = choose|r: int| 0 <= r < rest.len() && rest[r] == chosen[m];
                assert(items[r + 1] == rest[r]);
            }
            if items.no_duplicates() {
                assert(rest.no_duplicates());
            }
        }
    }
}

pub open spec fn id_lists<A>(lists: Seq<Vec<A>>) -> Seq<Seq<A>> {
    lists.map_values(|list: Vec<A>| list@)
}

/// Every way to choose `k` of the items from `start` on, in order.
pub fn combinations_from<A: Copy>(ids: &Vec<A>, start: usize, k: usize) -> (result: Vec<Vec<A>>)
    requires
        start <= ids@.len(),
    ensures
        id_lists(result@) == combinations(ids@.subrange(start as int, ids@.len() as int), k as nat),
    decreases ids@.len() - start,
{
    let ghost rest = ids@.subrange(start as int, ids@.len() as int);
    let mut result: Vec<Vec<A>> = Vec::new();
    if k == 0 {
        result.push(Vec::new());
        proof {
            assert(id_lists(result@) =~= seq![Seq::<A>::empty()]);
        }
        return result;
    }
    if ids.len() - start < k {
        proof {
            assert(id_lists(result@) =~= Seq::<Seq<A>>::empty());
        }
        return result;
    }
    let first = ids[start];
    proof {
        assert(rest.drop_first() =~= ids@.subrange(start + 1, ids@.len() as int));
        assert(rest[0] == first);
    }
    let with = combinations_from(ids, start + 1, k - 1);
    let ghost with_view = id_lists(with@);
    let mut j: usize = 0;
    while j < with.len()
        invariant
            j <= with@.len(),
            with_view == id_lists(with@),
            id_lists(result@) == with_view.take(j as int).map_values(prepended(first)),
        decreases with@.len() - j,
    {
        let tail = &with[j];
        let mut chosen: Vec<A> = Vec::new();
        chosen.push(first);
        let mut n: usize = 0;
        while n < tail.len()
            invariant
                n <= tail@.len(),
                chosen@ == seq![first] + tail@.take(n as int),
            decreases tail@.len() - n,
        {
            chosen.push(tail[n]);
            proof {
                assert(tail@.take(n + 1) =~= tail@.take(n as int).push(tail@[n as int]));
                assert(seq![first] + tail@.take(n + 1) =~= (seq![first] + tail@.take(n as int)).push(tail@[n as int]));
            }
            n = n + 1;
        }
        proof {
            assert(tail@.take(n as int) =~= tail@);
            assert(with_view[j as int] == tail@);
            assert(chosen@ =~= prepended(first)(with_view[j as int]));
        }
        let ghost before = id_lists(result@);
        result.push(chosen);
        proof {
            assert(id_lists(result@) =~= before.push(chosen@));
            assert(with_view.take(j + 1).map_values(prepended(first)) =~= with_view.take(j as int).map_values(prepended(first)).push(
                prepended(first)(with_view[j as int]),
            ));
        }
        j = j + 1;
    }
    proof {
        assert(with_view.take(j as int) =~= with_view);
    }
    let mut without = combinations_from(ids, start + 1, k);
    let ghost so_far = id_lists(result@);
    let ghost without_view = id_lists(without@);
    result.append(&mut without);
    proof {
        assert(id_lists(result@) =~= so_far + without_view);
        assert(with_view.map_values(prepended(first)) =~= combinations(rest.drop_first(), (k - 1) as nat).map_values(
            |list: Seq<A>| seq![rest[0]] + list,
        ));
    }
    result
}

/// The most cards a player may keep in hand through the cleanup step.
pub const MAXIMUM_HAND_SIZE: usize = 7usize;

/// The object ids of a list of cards.
pub open spec fn card_ids(cards: Seq<CardInstance>) -> Seq<GameObjectId> {
    cards.map_values(|card: CardInstance| card.id)
}

/// A choice of options as an action answering the pending decision.
pub open spec fn choice_action() -> spec_fn(Seq<GameObjectId>) -> ActionView {
    |options: Seq<GameObjectId>| ActionView::ChooseDecision { options }
}

/// A count as the `u8` a decision records, at most 255.
pub open spec fn capped(count: int) -> u8 {
    if count <= 0 {
        0u8
    } else if count <= 255 {
        count as u8
    } else {
        255u8
    }
}

impl GameView {
    /// How many cards over the maximum hand size the player holds.
    pub open spec fn excess_cards(self, player: PlayerId) -> nat {
        if self.player(player).hand.len() > MAXIMUM_HAND_SIZE {
            (self.player(player).hand.len() - MAXIMUM_HAND_SIZE) as nat
        } else {
            0
        }
    }

    /// Whether the first pending decision is a cleanup discard.
    pub open spec fn awaiting_cleanup_discard(self) -> bool {
        self.pending_decisions.len() > 0 && self.pending_decisions[0].continuation is CleanupDiscard
    }

    /// The discards the player may choose: each way to pick the excess
    /// from their hand, in hand order.
    pub open spec fn spec_cleanup_discard_actions(self, player: PlayerId) -> Seq<ActionView> {
        combinations(card_ids(self.player(player).hand), self.excess_cards(player)).map_values(choice_action())
    }

    /// CR 514.1: the cleanup step begins with the active player asked to
    /// discard down to the maximum hand size.
    pub open spec fn spec_begin_cleanup(self) -> GameView {
        let player = self.active_player;
        GameView {
            step: Step::Cleanup,
            pending_decisions: self.pending_decisions.push(
                DecisionView {
                    player,
                    minimum: capped(self.excess_cards(player) as int),
                    maximum: capped(self.excess_cards(player) as int),
                    options: card_ids(self.player(player).hand),
                    continuation: DecisionContinuation::CleanupDiscard { player },
                },
            ),
            ..self
        }
    }

    /// A card discarded from the player's hand goes to its owner's
    /// graveyard as a new object.
    pub open spec fn spec_discard(self, player: PlayerId, card: GameObjectId) -> GameView {
        let state = self.player(player);
        match card_position(state.hand, card) {
            None => self,
            Some(i) => {
                let (spent, moved) = self.with_player(player, PlayerView { hand: state.hand.remove(i), ..state }).zone_change(
                    state.hand[i],
                );
                spent.put_in_zone(moved, ZoneKind::Graveyard, ZonePlacement::Top)
            },
        }
    }

    /// The first `n` of these cards discarded, in order.
    pub open spec fn discard_upto(self, player: PlayerId, cards: Seq<GameObjectId>, n: int) -> GameView
        decreases n,
    {
        if n <= 0 {
            self
        } else {
            self.discard_upto(player, cards, n - 1).spec_discard(player, cards[n - 1])
        }
    }

    /// A cleanup discard the player may make: exactly the excess, each a
    /// card in their hand, none named twice.
    pub open spec fn valid_discard(self, player: PlayerId, options: Seq<GameObjectId>) -> bool {
        &&& options.len() == self.excess_cards(player)
        &&& options.no_duplicates()
        &&& forall|i: int| 0 <= i < options.len() ==> card_position(self.player(player).hand, #[trigger] options[i]) is Some
    }

    /// Answering the first pending decision. The companion question takes
    /// no card or one; the cleanup discard takes the cards to discard, after
    /// which the next turn begins. An answer by another player, or one the
    /// decision does not allow, changes nothing.
    pub open spec fn spec_choose_decision(self, player: PlayerId, options: Seq<GameObjectId>) -> GameView {
        if self.pending_decisions.len() == 0 || self.pending_decisions[0].player != player {
            self
        } else {
            match self.pending_decisions[0].continuation {
                DecisionContinuation::ChooseCompanion { .. } => if options.len() == 0 {
                    self.spec_choose_companion(player, None)
                } else if options.len() == 1 {
                    self.spec_choose_companion(player, Some(options[0]))
                } else {
                    self
                },
                DecisionContinuation::CleanupDiscard { .. } => if self.valid_discard(player, options) {
                    GameView {
                        pending_decisions: self.pending_decisions.drop_first(),
                        ..self.discard_upto(player, options, options.len() as int)
                    }.spec_begin_turn()
                } else {
                    self
                },
            }
        }
    }
}

fn ids_of_cards(cards: &Vec<CardInstance>) -> (ids: Vec<GameObjectId>)
    ensures
        ids@ == card_ids(cards@),
{
    let mut ids: Vec<GameObjectId> = Vec::new();
    let mut i: usize = 0;
    while i < cards.len()
        invariant
            i <= cards@.len(),
            ids@ == card_ids(cards@.take(i as int)),
        decreases cards@.len() - i,
    {
        ids.push(cards[i].id);
        proof {
            assert(card_ids(cards@.take(i + 1)) =~= card_ids(cards@.take(i as int)).push(cards@[i as int].id));
        }
        i = i + 1;
    }
    proof {
        assert(cards@.take(i as int) =~= cards@);
    }
    ids
}

fn capped_exec(count: usize) -> (c: u8)
    ensures
        c == capped(count as int),
{
    if count <= 255 {
        count as u8
    } else {
        255
    }
}

impl Game {
    /// Whether the first pending decision is a cleanup discard.
    pub fn awaiting_cleanup_discard(&self) -> (awaiting: bool)
        ensures
            awaiting == self@.awaiting_cleanup_discard(),
    {
        self.pending_decisions.len() > 0 && match self.pending_decisions[0].continuation {
            DecisionContinuation::CleanupDiscard { .. } => true,
            _ => false,
        }
    }

    /// The discards the player may choose in cleanup.
    pub fn cleanup_discard_actions(&self, player: PlayerId) -> (actions: Vec<Action>)
        requires
            self.wf(),
        ensures
            actions_view(actions@) == self@.spec_cleanup_discard_actions(player),
    {
        let hand = &self.players[player.index()].hand;
        let ids = ids_of_cards(hand);
        let excess: usize = if hand.len() > MAXIMUM_HAND_SIZE {
            hand.len() - MAXIMUM_HAND_SIZE
        } else {
            0
        };
        let mut choices = combinations_from(&ids, 0, excess);
        proof {
            assert(ids@.subrange(0, ids@.len() as int) =~= ids@);
        }
        let ghost all = id_lists(choices@);
        let mut actions: Vec<Action> = Vec::new();
        let mut k: usize = 0;
        let ghost orig = choices@;
        let total = choices.len();
        while choices.len() > 0
            invariant
                k <= orig.len(),
                choices@ == orig.skip(k as int),
                choices@.len() == orig.len() - k,
                orig.len() <= usize::MAX,
                all == id_lists(orig),
                actions_view(actions@) == all.take(k as int).map_values(choice_action()),
            decreases choices@.len(),
        {
            proof {
                assert(orig.skip(k as int)[0] == orig[k as int]);
                assert(orig.skip(k as int).remove(0) =~= orig.skip(k + 1));
            }
            let chosen = choices.remove(0);
            let ghost before = actions_view(actions@);
            actions.push(Action::ChooseDecision { options: chosen });
            proof {
                assert(all[k as int] == orig[k as int]@);
                assert(actions_view(actions@) =~= before.push(choice_action()(all[k as int])));
                assert(all.take(k + 1).map_values(choice_action()) =~= all.take(k as int).map_values(choice_action()).push(
                    choice_action()(all[k as int]),
                ));
            }
            k = k + 1;
        }
        proof {
            assert(all.take(k as int) =~= all);
            if hand@.len() <= MAXIMUM_HAND_SIZE {
                assert(excess == 0);
            }
        }
        actions
    }

    /// Begins the cleanup step: the active player is asked to discard down
    /// to the maximum hand size.
    pub fn begin_cleanup(&mut self)
        requires
            old(self).wf(),
        ensures
            final(self)@ == old(self)@.spec_begin_cleanup(),
            final(self).wf(),
            final(self).next_object_id == old(self).next_object_id,
            final(self).battlefield@.len() == old(self).battlefield@.len(),
    {
        let player = self.active_player;
        let hand_size = self.players[player.index()].hand.len();
        let excess: usize = if hand_size > MAXIMUM_HAND_SIZE {
            hand_size - MAXIMUM_HAND_SIZE
        } else {
            0
        };
        let count = capped_exec(excess);
        let options = ids_of_cards(&self.players[player.index()].hand);
        let decision = PendingDecision {
            player,
            minimum: count,
            maximum: count,
            options,
            continuation: DecisionContinuation::CleanupDiscard { player },
        };
        let ghost decisions = self@.pending_decisions;
        self.step = Step::Cleanup;
        self.pending_decisions.push(decision);
        proof {
            assert(self@.pending_decisions =~= decisions.push(decision@));
            assert(hand_size > MAXIMUM_HAND_SIZE ==> excess == self@.excess_cards(player));
        }
    }

    /// Discards a card from the player's hand to their graveyard.
    pub fn discard(&mut self, player: PlayerId, card: GameObjectId)
        requires
            old(self).wf(),
            old(self).next_object_id < u32::MAX,
        ensures
            final(self)@ == old(self)@.spec_discard(player, card),
            final(self).wf(),
            final(self).next_object_id <= old(self).next_object_id + 1,
            final(self).battlefield@ == old(self).battlefield@,
            final(self)@.pending_decisions == old(self)@.pending_decisions,
    {
        let index = player.index();
        let ghost state = old(self)@.player(player);
        let taken = take_card(&mut self.players[index].hand, card);
        let found = match taken {
            Some(found) => found,
            None => {
                proof {
                    assert(self@.players =~= old(self)@.players);
                    assert(self@ =~= old(self)@);
                }
                return;
            },
        };
        proof {
            let i = card_position(state.hand, card)->0;
            assert(self@.players =~= old(self)@.players.update(index as int, PlayerView { hand: state.hand.remove(i), ..state }));
        }
        let moved = self.zone_change_card(found);
        self.put_card_in_zone(moved, ZoneKind::Graveyard, ZonePlacement::Top);
    }

    /// Whether these options are a cleanup discard the player may make.
    pub fn valid_discard(&self, player: PlayerId, options: &Vec<GameObjectId>) -> (valid: bool)
        requires
            self.wf(),
        ensures
            valid == self@.valid_discard(player, options@),
    {
        let hand = &self.players[player.index()].hand;
        let excess: usize = if hand.len() > MAXIMUM_HAND_SIZE {
            hand.len() - MAXIMUM_HAND_SIZE
        } else {
            0
        };
        proof {
            assert(hand@ == self@.player(player).hand);
        }
        if options.len() != excess {
            return false;
        }
        let mut i: usize = 0;
        while i < options.len()
            invariant
                i <= options@.len(),
                hand@ == self@.player(player).hand,
                forall|a: int, b: int| 0 <= a < b < i ==> options@[a] != options@[b],
                forall|a: int| 0 <= a < i ==> card_position(hand@, #[trigger] options@[a]) is Some,
            decreases options@.len() - i,
        {
            let mut j: usize = 0;
            while j < i
                invariant
                    j <= i,
                    i < options@.len(),
                    forall|a: int| 0 <= a < j ==> options@[a] != options@[i as int],
                decreases i - j,
            {
                if options[j] == options[i] {
                    proof {
                        assert(!options@.no_duplicates());
                    }
                    return false;
                }
                j = j + 1;
            }
            match crate::characteristics::find_card(hand, options[i]) {
                Some(_) => {},
                None => {
                    return false;
                },
            }
            i = i + 1;
        }
        true
    }

    /// Answers the first pending decision with these options.
    pub fn choose_decision(&mut self, player: PlayerId, options: &Vec<GameObjectId>)
        requires
            old(self).wf(),
            old(self).next_object_id + old(self)@.player(player).hand.len() + 2 * crate::companion::OPENING_HAND_SIZE
                < u32::MAX,
        ensures
            final(self)@ == old(self)@.spec_choose_decision(player, options@),
            final(self).wf(),
    {
        if self.pending_decisions.len() == 0 || self.pending_decisions[0].player != player {
            return;
        }
        match self.pending_decisions[0].continuation {
            DecisionContinuation::ChooseCompanion { .. } => {
                if options.len() == 0 {
                    self.choose_companion(player, None);
                } else if options.len() == 1 {
                    self.choose_companion(player, Some(options[0]));
                }
            },
            DecisionContinuation::CleanupDiscard { .. } => {
                if !self.valid_discard(player, options) {
                    return;
                }
                let ghost start = self@;
                let mut n: usize = 0;
                while n < options.len()
                    invariant
                        self.wf(),
                        n <= options@.len(),
                        options@.len() <= start.player(player).hand.len(),
                        self@ == start.discard_upto(player, options@, n as int),
                        self@.pending_decisions == start.pending_decisions,
                        start.pending_decisions.len() > 0,
                        self.next_object_id <= start.next_object_id + n,
                        start.next_object_id + start.player(player).hand.len() < u32::MAX,
                    decreases options@.len() - n,
                {
                    self.discard(player, options[n]);
                    n = n + 1;
                }
                let ghost decisions = self@.pending_decisions;
                self.pending_decisions.remove(0);
                proof {
                    assert(self@.pending_decisions =~= decisions.drop_first());
                }
                self.begin_turn();
            },
        }
    }
}

} // verus!
