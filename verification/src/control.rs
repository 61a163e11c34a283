//! The control loop's decisions: what a posted state sets, and what each
//! turn of the loop does with a changed state.

use vstd::prelude::*;

use crate::lg_ac::{Mode, State};

verus! {

/// What a turn of the control loop asks to be done.
pub enum LoopAction {
    /// Switch the air conditioner on before sending a state.
    PowerOn,
    /// Store the state in the settings.
    Save(State),
    /// Send the state over infrared.
    Send(State),
}

/// The actions of a turn: nothing when the current state holds no change;
/// otherwise store and send it, first switching the unit on if the last
/// state sent was `Off`.
pub open spec fn loop_actions(last: State, current: State) -> Seq<LoopAction> {
    if current.updated {
        (if last.mode == Mode::Off {
            seq![LoopAction::PowerOn]
        } else {
            Seq::<LoopAction>::empty()
        }) + seq![LoopAction::Save(current), LoopAction::Send(current)]
    } else {
        Seq::<LoopAction>::empty()
    }
}

/// The last state sent, after a turn.
pub open spec fn last_after(last: State, current: State) -> State {
    if current.updated {
        current
    } else {
        last
    }
}

/// The current state, after a turn: the same, with no change pending.
pub open spec fn current_after(current: State) -> State {
    State { updated: false, ..current }
}

/// One turn of the control loop over the last state sent and the current
/// state: returns what is to be done, records the current state as the last
/// one sent when it held a change, and clears its change mark.
pub fn check_loop_step(last_state: &mut State, current_state: &mut State) -> (r: Vec<LoopAction>)
    ensures
        r@ == loop_actions(*old(last_state), *old(current_state)),
        *final(last_state) == last_after(*old(last_state), *old(current_state)),
        *final(current_state) == current_after(*old(current_state)),
        !final(current_state).updated,
        final(current_state).mode == old(current_state).mode,
        final(current_state).min_temp == old(current_state).min_temp,
        final(current_state).max_temp == old(current_state).max_temp,
        final(current_state).target_temp == old(current_state).target_temp,
        final(current_state).fan_speed == old(current_state).fan_speed,
        final(current_state).fan_mode == old(current_state).fan_mode,
{
    let mut r: Vec<LoopAction> = Vec::new();
    if current_state.updated {
        if last_state.mode == Mode::Off {
            r.push(LoopAction::PowerOn);
        }
        r.push(LoopAction::Save(current_state.clone()));
        r.push(LoopAction::Send(current_state.clone()));
        *last_state = current_state.clone();
    }
    current_state.updated = false;
    assert(r@ =~= loop_actions(*old(last_state), *old(current_state)));
    r
}

/// The state that a posted state sets: the posted state, marked as a change
/// to be sent.
pub open spec fn posted(body: State) -> State {
    State { updated: true, ..body }
}

/// Takes a posted state as the current state, marked as a change.
pub fn set_state(current_state: &mut State, body: State)
    ensures
        *final(current_state) == posted(body),
        final(current_state).updated,
        final(current_state).mode == body.mode,
        final(current_state).min_temp == body.min_temp,
        final(current_state).max_temp == body.max_temp,
        final(current_state).target_temp == body.target_temp,
        final(current_state).fan_speed == body.fan_speed,
        final(current_state).fan_mode == body.fan_mode,
{
    *current_state = body;
    current_state.updated = true;
}

/// A turn settles the loop: a second turn with no new state in between does
/// nothing and changes nothing.
pub proof fn law_turn_settles(last: State, current: State)
    ensures
        loop_actions(last_after(last, current), current_after(current)) == Seq::<
            LoopAction,
        >::empty(),
        last_after(last_after(last, current), current_after(current)) == last_after(
            last,
            current,
        ),
        current_after(current_after(current)) == current_after(current),
{
}

/// A posted state is stored and sent by the next turn, which records it as
/// the last state sent; the unit is switched on first exactly when the last
/// state sent was `Off`.
pub proof fn law_posted_state_is_sent(last: State, body: State)
    ensures
        ({
            let acts = loop_actions(last, posted(body));
            &&& acts.len() == (if last.mode == Mode::Off { 3int } else { 2int })
            &&& (last.mode == Mode::Off ==> acts[0] is PowerOn)
            &&& acts[acts.len() - 2] == LoopAction::Save(posted(body))
            &&& acts[acts.len() - 1] == LoopAction::Send(posted(body))
        }),
        last_after(last, posted(body)) == posted(body),
{
}

/// A post sets the posted state in every field but the change mark, which
/// it sets: mode, fan mode, temperature limits, target temperature and fan
/// speed are the body's.
pub proof fn law_post_keeps_body(body: State)
    ensures
        posted(body).updated,
        posted(body).mode == body.mode,
        posted(body).fan_mode == body.fan_mode,
        posted(body).min_temp == body.min_temp,
        posted(body).max_temp == body.max_temp,
        posted(body).target_temp == body.target_temp,
        posted(body).fan_speed == body.fan_speed,
{
}

/// A turn changes the current state only in its change mark, which it
/// clears; the last state sent afterwards is the current state when that
/// held a change, and is left alone otherwise.
pub proof fn law_turn_only_clears_mark(last: State, current: State)
    ensures
        !current_after(current).updated,
        current_after(current).mode == current.mode,
        current_after(current).fan_mode == current.fan_mode,
        current_after(current).min_temp == current.min_temp,
        current_after(current).max_temp == current.max_temp,
        current_after(current).target_temp == current.target_temp,
        current_after(current).fan_speed == current.fan_speed,
        current.updated ==> last_after(last, current) == current,
        !current.updated ==> last_after(last, current) == last,
{
}

} // verus!
