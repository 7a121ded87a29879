//! Verified frame logic for a DM joint motor on CAN and a WS2812 status LED.
//!
//! The library computes every CAN frame and header that the board sends to
//! the motor, decodes the motor's replies, keeps the mailbox through which
//! received frames reach the waiting code, and computes the colour bytes for
//! the LED together with the reset and latch bytes around them. The board
//! support code performs the transfers.

pub mod motor_dm;
pub mod can_bus;
pub mod rgb_ws2812;
