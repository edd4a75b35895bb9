//! Input state handling for sending several analog axes and mapped key
//! presses of game devices into a game as encoded relative mouse movements.

pub mod device_codes;
pub mod text;
pub mod mapping;
pub mod keys;
pub mod axis_state;
pub mod settings;
pub mod devices;
pub mod send_loop;
pub mod console;
