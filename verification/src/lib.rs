//! Verified core logic of the geng game engine: the shader include
//! preprocessor, the glyph atlas packer, the state stack, input and
//! touch-simulation state machines, and the small value types around them.

pub mod asset;
pub mod text;
pub mod shader_lib;
pub mod font;
pub mod state;
pub mod console;
pub mod window;
pub mod touch_simulator;
pub mod ui;
pub mod cli_args;
pub mod net;
pub mod camera;
pub mod sound;
pub mod debug_overlay;
pub mod draw_2d;
