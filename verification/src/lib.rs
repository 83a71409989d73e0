//! Prisme: a Super Nintendo emulator core (master-clock scheduler, S-PPU
//! memories, ports and scanline renderer) together with the pure logic of its
//! frontend (library, cheats, metadata, localisation).

pub mod bits;
pub mod text;
pub mod scheduler;
pub mod frame;
pub mod ppu;
pub mod agent;
pub mod cheats;
pub mod i18n;
pub mod paths;
pub mod stamp;
pub mod library;
pub mod net;
pub mod metadata;
pub mod dialog;
pub mod pad;
pub mod input;
pub mod guide;
pub mod audio;
pub mod assistant;
pub mod menu;
pub mod cli;
pub mod script;
pub mod live;
pub mod snapshot;
pub mod frame_plan;
pub mod session;
