use vstd::prelude::*;

verus! {

/// Subsystem bits of the SDL initialisation word.
pub const SDL_INIT_AUDIO: u32 = 0x0000_0010;

pub const SDL_INIT_VIDEO: u32 = 0x0000_0020;

pub const SDL_INIT_JOYSTICK: u32 = 0x0000_0200;

pub const SDL_INIT_HAPTIC: u32 = 0x0000_1000;

pub const SDL_INIT_GAMEPAD: u32 = 0x0000_2000;

pub const SDL_INIT_EVENTS: u32 = 0x0000_4000;

pub const SDL_INIT_SENSOR: u32 = 0x0000_8000;

pub const SDL_INIT_CAMERA: u32 = 0x0001_0000;

/// Collects the subsystems that an SDL session is started with.
pub struct SDLSessionBuilder {
    flags: u32,
}

impl View for SDLSessionBuilder {
    type V = u32;

    /// The initialisation word built so far.
    closed spec fn view(&self) -> u32 {
        self.flags
    }
}

impl Default for SDLSessionBuilder {
    fn default() -> (builder: Self)
        ensures
            builder@ == 0,
    {
        Self::new()
    }
}

impl SDLSessionBuilder {
    /// A builder that asks for no subsystem.
    pub fn new() -> (builder: SDLSessionBuilder)
        ensures
            builder@ == 0,
    {
        SDLSessionBuilder { flags: 0 }
    }

    /// Adds the bits of `flag` to the initialisation word.
    pub fn add_flag(self, flag: u32) -> (builder: SDLSessionBuilder)
        ensures
            builder@ == self@ | flag,
    {
        SDLSessionBuilder { flags: self.flags | flag }
    }

    /// Asks for the video subsystem.
    pub fn use_video(self) -> (builder: Self)
        ensures
            builder@ == self@ | SDL_INIT_VIDEO,
    {
        self.add_flag(SDL_INIT_VIDEO)
    }

    /// Asks for the audio subsystem.
    pub fn use_audio(self) -> (builder: Self)
        ensures
            builder@ == self@ | SDL_INIT_AUDIO,
    {
        self.add_flag(SDL_INIT_AUDIO)
    }

    /// Asks for the joystick subsystem.
    pub fn use_joystick(self) -> (builder: Self)
        ensures
            builder@ == self@ | SDL_INIT_JOYSTICK,
    {
        self.add_flag(SDL_INIT_JOYSTICK)
    }

    /// Asks for the haptic subsystem.
    pub fn use_haptic(self) -> (builder: Self)
        ensures
            builder@ == self@ | SDL_INIT_HAPTIC,
    {
        self.add_flag(SDL_INIT_HAPTIC)
    }

    /// Asks for the gamepad subsystem.
    pub fn use_gamepad(self) -> (builder: Self)
        ensures
            builder@ == self@ | SDL_INIT_GAMEPAD,
    {
        self.add_flag(SDL_INIT_GAMEPAD)
    }

    /// Asks for the events subsystem.
    pub fn use_events(self) -> (builder: Self)
        ensures
            builder@ == self@ | SDL_INIT_EVENTS,
    {
        self.add_flag(SDL_INIT_EVENTS)
    }

    /// Asks for the sensor subsystem.
    pub fn use_sensor(self) -> (builder: Self)
        ensures
            builder@ == self@ | SDL_INIT_SENSOR,
    {
        self.add_flag(SDL_INIT_SENSOR)
    }

    /// Asks for the camera subsystem.
    pub fn use_camera(self) -> (builder: Self)
        ensures
            builder@ == self@ | SDL_INIT_CAMERA,
    {
        self.add_flag(SDL_INIT_CAMERA)
    }

    /// The initialisation word to start the session with.
    pub fn flags(&self) -> (flags: u32)
        ensures
            flags == self@,
    {
        self.flags
    }
}

} // verus!
