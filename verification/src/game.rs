//! The interface every game offers to whoever drives it.

use vstd::prelude::*;

pub mod highlow;
pub mod whist;

verus! {

/// A turn-based game, driven one action at a time.
///
/// A driver asks whose turn it is and which actions are legal, looks at the
/// observation, and hands one action to `step`, which advances the game and
/// reports the new observation, a reward, and whether the episode is over.
pub trait Game: Sized {
    type Action: Into<u32>;

    type Player: Into<u32>;

    type Reward;

    type State;

    type Error;

    /// What holds of every value of the game that its functions hand out.
    spec fn wf(&self) -> bool;

    /// Whether `action` may be taken in this state.
    spec fn legal(&self, action: Self::Action) -> bool;

    /// Whether the episode is over.
    spec fn finished(&self) -> bool;

    /// Whether `state` is what the player to act may see of this state.
    spec fn observed(&self, state: Self::State) -> bool;

    /// The player whose action is awaited.
    fn current_player(&self) -> (player: &Self::Player)
        requires
            self.wf(),
    ;

    /// The actions that are legal in this state, all of them.
    fn legal_actions(&self) -> (actions: Vec<Self::Action>)
        requires
            self.wf(),
        ensures
            forall|action: Self::Action|
                #![trigger actions@.contains(action)]
                #![trigger self.legal(action)]
                actions@.contains(action) <==> self.legal(action),
    ;

    /// What the player to act may see.
    fn observation(&self) -> (state: Self::State)
        requires
            self.wf(),
        ensures
            self.observed(state),
    ;

    /// Takes one action. A legal action advances the game and yields the
    /// new observation, the reward and whether the episode is now over; any
    /// other action is refused and leaves the game as it was.
    fn step(&mut self, action: Self::Action) -> (outcome: Result<
        (Self::State, Self::Reward, bool),
        Self::Error,
    >)
        requires
            old(self).wf(),
        ensures
            final(self).wf(),
            outcome is Ok <==> old(self).legal(action),
            outcome matches Ok((state, _, done)) ==> final(self).observed(state) && (done
                <==> final(self).finished()),
            outcome is Err ==> *final(self) == *old(self),
    ;

    /// Abandons the episode and begins a new one.
    fn reset(&mut self)
        requires
            old(self).wf(),
        ensures
            final(self).wf(),
            !final(self).finished(),
    ;
}

} // verus!
