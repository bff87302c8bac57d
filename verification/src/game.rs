use vstd::prelude::*;
use super::sdl::{
    SDL_INIT_AUDIO, SDL_INIT_CAMERA, SDL_INIT_EVENTS, SDL_INIT_GAMEPAD, SDL_INIT_HAPTIC,
    SDL_INIT_JOYSTICK, SDL_INIT_SENSOR, SDL_INIT_VIDEO,
};

verus! {

/// Collects the subsystems that a game session is started with.
pub struct GameBuilder {
    flags: u32,
}

impl View for GameBuilder {
    type V = u32;

    /// The initialisation word built so far.
    closed spec fn view(&self) -> u32 {
        self.flags
    }
}

impl Default for GameBuilder {
    fn default() -> (builder: Self)
        ensures
            builder@ == 0,
    {
        Self::new()
    }
}

impl GameBuilder {
    /// A builder that asks for no subsystem.
    pub fn new() -> (builder: GameBuilder)
        ensures
            builder@ == 0,
    {
        GameBuilder { flags: 0 }
    }

    /// Adds the bits of `flag` to the initialisation word.
    pub fn add_flag(self, flag: u32) -> (builder: GameBuilder)
        ensures
            builder@ == self@ | flag,
    {
        GameBuilder { flags: self.flags | flag }
    }

    /// Asks for the video subsystem.
    pub fn use_video(self) -> (builder: Self)
        ensures
            builder@ == self@ | SDL_INIT_VIDEO,
    {
        self.add_flag(SDL_INIT_VIDEO)
    }

    /// Asks for the audio subsystem.
    pub fn use_audio(self) -> (builder: Self)
        ensures
            builder@ == self@ | SDL_INIT_AUDIO,
    {
        self.add_flag(SDL_INIT_AUDIO)
    }

    /// Asks for the joystick subsystem.
    pub fn use_joystick(self) -> (builder: Self)
        ensures
            builder@ == self@ | SDL_INIT_JOYSTICK,
    {
        self.add_flag(SDL_INIT_JOYSTICK)
    }

    /// Asks for the haptic subsystem.
    pub fn use_haptic(self) -> (builder: Self)
        ensures
            builder@ == self@ | SDL_INIT_HAPTIC,
    {
        self.add_flag(SDL_INIT_HAPTIC)
    }

    /// Asks for the gamepad subsystem.
    pub fn use_gamepad(self) -> (builder: Self)
        ensures
            builder@ == self@ | SDL_INIT_GAMEPAD,
    {
        self.add_flag(SDL_INIT_GAMEPAD)
    }

    /// Asks for the events subsystem.
    pub fn use_events(self) -> (builder: Self)
        ensures
            builder@ == self@ | SDL_INIT_EVENTS,
    {
        self.add_flag(SDL_INIT_EVENTS)
    }

    /// Asks for the sensor subsystem.
    pub fn use_sensor(self) -> (builder: Self)
        ensures
            builder@ == self@ | SDL_INIT_SENSOR,
    {
        self.add_flag(SDL_INIT_SENSOR)
    }

    /// Asks for the camera subsystem.
    pub fn use_camera(self) -> (builder: Self)
        ensures
            builder@ == self@ | SDL_INIT_CAMERA,
    {
        self.add_flag(SDL_INIT_CAMERA)
    }

    /// The initialisation word to start the session with.
    pub fn flags(&self) -> (flags: u32)
        ensures
            flags == self@,
    {
        self.flags
    }
}


} // verus!
