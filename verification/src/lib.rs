//! The core of Boppo activities: the ten top buttons, their forty lights, the colors set on them
//! and the events the buttons raise, with the rules that relate them.
//!
//! Selections of buttons ([`Buttons`]) and of lights ([`Lights`]) are bitsets whose model is the
//! set of selected indices; [`Framebuffer`] holds a color per light; [`LightsSetter`] decides what
//! is sent to the hardware and when; [`ButtonEvent`] packs an event into 16 bits and
//! [`EventFilter`] decides which events a stream reports.
pub mod bits;
pub mod color;
pub mod hal;
pub mod update_loop;

mod button;
mod button_events;
mod buttons;
mod framebuffer;
mod language;
mod lights;
mod lights_setter;
mod random;
mod short_duration;

pub use button::{Button, Column, Row};
pub use button_events::{ButtonEvent, EventFilter, EventTypeFilter};
pub use buttons::{ButtonIndices, Buttons, ButtonsIter};
pub use framebuffer::{Framebuffer, FramebufferRGBA};
pub use language::{LanguageTag, LanguageTagParseError};
pub use lights::{LightDir, LightIndices, Lights};
pub use lights_setter::{LightsSetter, PauseAutoFlushGuard};
pub use short_duration::{OutOfBoundsError, ShortDuration};
