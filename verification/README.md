# code_02_stm32h7_dm

Firmware logic for an STM32H7 board that drives a DM joint motor over CAN
(FDCAN1, 1 Mbit/s) and shows its state on a WS2812 LED (SPI6), with the logic
proved in Verus.

- `src/motor_dm.rs`: the motor's command frames (enable, disable, register
  writes, mode switch, MIT, position/speed, speed, position/speed/current),
  the feedback query, the decoding of feedback frames, and the decision of
  a query after each look at the mailbox.
- `src/can_bus.rs`: the header of every outgoing frame (length taken from
  the payload), handed to `fdcan`,
  and the receive mailbox shared by the receive interrupt and the waiting
  code, with its read-once law over any interleaving of stores and reads.
- `src/rgb_ws2812.rs`: the 24 SPI bytes of a colour and the whole burst
  (reset lead, colour, latch tail) that sends it.
- `app/`: board bring-up, the CAN and SPI transfers, the interrupt handler,
  and the float conversions between physical units and the raw fields.
- `tests/`: scenarios and laws on concrete values.
