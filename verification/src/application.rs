use vstd::prelude::*;

verus! {

/// Loading of the audio player. On the web, audio may only start after a
/// gesture of the user, so loading waits for the first key or mouse input.
#[derive(Debug, PartialEq, Eq)]
pub enum AudioState {
    NotLoaded,
    Loading,
    Loaded,
}

/// What happened that concerns the audio player.
#[derive(Debug, PartialEq, Eq)]
pub enum AudioEvent {
    /// A key or a mouse button was used.
    UserGesture,
    /// The audio player has been built.
    PlayerBuilt,
}

/// The state after `event`, and whether loading starts with it: the first
/// gesture starts loading; a built player ends it.
pub open spec fn audio_step(state: AudioState, event: AudioEvent) -> (AudioState, bool) {
    match event {
        AudioEvent::UserGesture => if state is NotLoaded {
            (AudioState::Loading, true)
        } else {
            (state, false)
        },
        AudioEvent::PlayerBuilt => (AudioState::Loaded, false),
    }
}

/// How many times loading starts while `events` happen, from `state`.
pub open spec fn loading_starts(state: AudioState, events: Seq<AudioEvent>) -> nat
    decreases events.len(),
{
    if events.len() == 0 {
        0
    } else {
        let (next, started) = audio_step(state, events[0]);
        (if started {
            1nat
        } else {
            0nat
        }) + loading_starts(next, events.drop_first())
    }
}

impl AudioState {
    /// Moves on from `event`; answers whether loading should start now.
    pub fn handle(&mut self, event: AudioEvent) -> (start_loading: bool)
        ensures
            (*final(self), start_loading) == audio_step(*old(self), event),
    {
        match event {
            AudioEvent::UserGesture => {
                let start_loading = matches!(*self, AudioState::NotLoaded);
                if start_loading {
                    *self = AudioState::Loading;
                }
                start_loading
            },
            AudioEvent::PlayerBuilt => {
                *self = AudioState::Loaded;
                false
            },
        }
    }
}

/// Audio loading starts at most once, whatever events follow, and never
/// again once it has begun.
pub proof fn lemma_audio_loads_once(state: AudioState, events: Seq<AudioEvent>)
    ensures
        loading_starts(state, events) <= 1,
        !(state is NotLoaded) ==> loading_starts(state, events) == 0,
    decreases events.len(),
{
    if events.len() > 0 {
        let (next, started) = audio_step(state, events[0]);
        lemma_audio_loads_once(next, events.drop_first());
    }
}

/// The life of the application: the engine is built once, asynchronously,
/// after the first resume, and the game runs once it is there.
pub enum State<E> {
    Uninitialized,
    Initializing,
    Initialized(E),
}

/// The state after a resume, and whether building the engine begins with it.
pub open spec fn begin_step<E>(state: State<E>) -> (State<E>, bool) {
    if state is Uninitialized {
        (State::Initializing, true)
    } else {
        (state, false)
    }
}

impl<E> State<E> {
    /// On a resume: starts building the engine if that has not begun yet,
    /// and answers whether it began now.
    pub fn begin_initialization(&mut self) -> (begun: bool)
        ensures
            (*final(self), begun) == begin_step(*old(self)),
    {
        let begun = matches!(*self, State::Uninitialized);
        if begun {
            *self = State::Initializing;
        }
        begun
    }

    /// The engine is there: the game runs with it.
    pub fn finish_initialization(&mut self, engine: E)
        ensures
            *final(self) == State::Initialized(engine),
    {
        *self = State::Initialized(engine);
    }
}

/// The engine is built at most once: after a resume has begun building it,
/// or once it is there, no further resume begins again.
pub proof fn lemma_initialization_begins_once<E>(state: State<E>, engine: E)
    ensures
        !begin_step(begin_step(state).0).1,
        !begin_step(State::Initialized(engine)).1,
{
}

} // verus!
