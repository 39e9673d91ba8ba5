use vstd::prelude::*;

verus! {

/// The keys the controls respond to; every other key is `Other`.
#[derive(Clone, Copy, Debug, PartialEq, Eq, Structural)]
pub enum Key {
    W,
    A,
    S,
    D,
    Up,
    Down,
    Left,
    Right,
    Q,
    E,
    Z,
    X,
    R,
    Space,
    Escape,
    Other,
}

/// A change to the view, applied in order by whoever holds the angles and
/// the focal length.
#[derive(Clone, Copy, Debug, PartialEq, Eq, Structural)]
pub enum Action {
    /// Pitch grows by one rotation step.
    PitchUp,
    /// Pitch shrinks by one rotation step.
    PitchDown,
    /// Yaw grows by one rotation step.
    YawUp,
    /// Yaw shrinks by one rotation step.
    YawDown,
    /// Roll grows by one rotation step.
    RollUp,
    /// Roll shrinks by one rotation step.
    RollDown,
    /// Focal length shrinks by one, if it is above its lower limit.
    FocalDown,
    /// Focal length grows by one, if it is below its upper limit.
    FocalUp,
    /// All angles back to zero and the focal length back to its configured value.
    Reset,
}

/// The state of the controls between two frames.
#[derive(Clone, Copy, Debug, PartialEq, Eq, Structural)]
pub enum Mode {
    /// Keys steer the view.
    Steering,
    /// The view turns on every axis by itself while the space key is held.
    Animating,
    /// The exit key was pressed; the loop ends.
    Exiting,
}

/// The action a key asks for while steering, if any.
pub open spec fn key_action(k: Key) -> Option<Action> {
    match k {
        Key::W | Key::Up => Some(Action::PitchUp),
        Key::S | Key::Down => Some(Action::PitchDown),
        Key::A | Key::Left => Some(Action::YawUp),
        Key::D | Key::Right => Some(Action::YawDown),
        Key::Q => Some(Action::RollUp),
        Key::E => Some(Action::RollDown),
        Key::Z => Some(Action::FocalDown),
        Key::X => Some(Action::FocalUp),
        Key::R => Some(Action::Reset),
        _ => None,
    }
}

pub fn action_for(k: Key) -> (r: Option<Action>)
    ensures
        r == key_action(k),
{
    match k {
        Key::W | Key::Up => Some(Action::PitchUp),
        Key::S | Key::Down => Some(Action::PitchDown),
        Key::A | Key::Left => Some(Action::YawUp),
        Key::D | Key::Right => Some(Action::YawDown),
        Key::Q => Some(Action::RollUp),
        Key::E => Some(Action::RollDown),
        Key::Z => Some(Action::FocalDown),
        Key::X => Some(Action::FocalUp),
        Key::R => Some(Action::Reset),
        _ => None,
    }
}

/// Steering through the first `n` keys, in order: whether the exit key came,
/// whether animation is on, and the actions so far. Keys after the exit key
/// are not looked at; each space key flips animation.
pub open spec fn steer(keys: Seq<Key>, n: nat) -> (bool, bool, Seq<Action>)
    decreases n,
{
    if n == 0 {
        (false, false, Seq::empty())
    } else {
        let (exit, anim, acts) = steer(keys, (n - 1) as nat);
        if exit {
            (exit, anim, acts)
        } else {
            match keys[n - 1] {
                Key::Escape => (true, anim, acts),
                Key::Space => (false, !anim, acts),
                k => match key_action(k) {
                    Some(a) => (false, anim, acts.push(a)),
                    None => (false, anim, acts),
                },
            }
        }
    }
}

/// The automatic turn made on each animated frame.
pub open spec fn animation_actions() -> Seq<Action> {
    seq![Action::PitchUp, Action::YawUp, Action::RollUp]
}

/// The next mode and the actions to apply, given the mode and the keys held
/// during this frame.
pub open spec fn control_spec(mode: Mode, keys: Seq<Key>) -> (Mode, Seq<Action>) {
    match mode {
        Mode::Exiting => (Mode::Exiting, Seq::empty()),
        Mode::Animating => (
            if keys.contains(Key::Space) {
                Mode::Animating
            } else {
                Mode::Steering
            },
            animation_actions(),
        ),
        Mode::Steering => {
            let (exit, anim, acts) = steer(keys, keys.len());
            (
                if exit {
                    Mode::Exiting
                } else if anim {
                    Mode::Animating
                } else {
                    Mode::Steering
                },
                acts,
            )
        },
    }
}

/// One step of the controls: from the current mode and the keys held this
/// frame, the mode for the next frame and the view changes to apply now.
///
/// While steering, keys act in order; the exit key ends the loop, and the
/// space key starts the animation. While animating, every axis turns by one
/// step and the animation stops once the space key is released. Exiting is
/// final.
pub fn control_step(mode: Mode, keys: &Vec<Key>) -> (r: (Mode, Vec<Action>))
    ensures
        r.0 == control_spec(mode, keys@).0,
        r.1@ == control_spec(mode, keys@).1,
{
    match mode {
        Mode::Exiting => (Mode::Exiting, Vec::new()),
        Mode::Animating => {
            let mut held = false;
            let mut k: usize = 0;
            while k < keys.len()
                invariant
                    k <= keys@.len(),
                    held <==> exists|m: int| 0 <= m < k && keys@[m] == Key::Space,
                decreases keys@.len() - k,
            {
                if keys[k] == Key::Space {
                    held = true;
                }
                k = k + 1;
            }
            let acts = vec![Action::PitchUp, Action::YawUp, Action::RollUp];
            assert(acts@ =~= animation_actions());
            (
                if held {
                    Mode::Animating
                } else {
                    Mode::Steering
                },
                acts,
            )
        },
        Mode::Steering => {
            let mut anim = false;
            let mut acts: Vec<Action> = Vec::new();
            let mut k: usize = 0;
            while k < keys.len()
                invariant
                    mode == Mode::Steering,
                    k <= keys@.len(),
                    steer(keys@, k as nat) == (false, anim, acts@),
                decreases keys@.len() - k,
            {
                let key = keys[k];
                if key == Key::Escape {
                    proof {
                        assert(steer(keys@, (k + 1) as nat) == (true, anim, acts@));
                        lemma_steer_exit_stays(keys@, (k + 1) as nat, keys@.len());
                    }
                    return (Mode::Exiting, acts);
                } else if key == Key::Space {
                    anim = !anim;
                } else {
                    match action_for(key) {
                        Some(a) => acts.push(a),
                        None => {},
                    }
                }
                k = k + 1;
            }
            (
                if anim {
                    Mode::Animating
                } else {
                    Mode::Steering
                },
                acts,
            )
        },
    }
}

/// Once the exit key has come, later keys change nothing.
proof fn lemma_steer_exit_stays(keys: Seq<Key>, n: nat, m: nat)
    requires
        n <= m,
        steer(keys, n).0,
    ensures
        steer(keys, m) == steer(keys, n),
    decreases m - n,
{
    if n < m {
        lemma_steer_exit_stays(keys, n, (m - 1) as nat);
    }
}

} // verus!
