//! Commands, replies and telemetry records.

use vstd::prelude::*;

verus! {

/// A request sent from the client to the device.
#[derive(Clone, Copy, Debug, PartialEq, Eq, Structural)]
pub enum Command {
    /// Opens a drain cycle; the device answers with [`Reply::SendingStarted`].
    StartSending,
    /// Asks for the next buffered record.
    GetMessage,
    /// Tells the device that the client has finished.
    SendingCompleted,
}

/// One telemetry sample. Every field is the bit pattern of a
/// single-precision reading.
#[derive(Clone, Copy, Debug, PartialEq, Eq, Structural)]
pub enum LogMessage {
    /// Accelerometer, three axes.
    Accel { x: u32, y: u32, z: u32 },
    /// Gyroscope, three axes.
    Gyro { x: u32, y: u32, z: u32 },
    /// Magnetometer, three axes.
    Mag { x: u32, y: u32, z: u32 },
    /// The four actuator values.
    Motors { m1: u32, m2: u32, m3: u32, m4: u32 },
    /// Battery voltage and current.
    Batt { v: u32, a: u32 },
}

/// An answer sent from the device to the client.
#[derive(Clone, Copy, Debug, PartialEq, Eq)]
pub enum Reply {
    /// The device accepted [`Command::StartSending`].
    SendingStarted,
    /// The next record, or `None` once the device has nothing more to send
    /// in this drain cycle.
    Message(Option<LogMessage>),
}

/// A stand-alone gyroscope reading, three axes, each the bit pattern of a
/// single-precision value.
#[derive(Clone, Copy, Debug, PartialEq, Eq, Structural)]
pub struct Gyro {
    pub x: u32,
    pub y: u32,
    pub z: u32,
}

impl Gyro {
    /// The record that reports this reading.
    pub fn into_message(self) -> (m: LogMessage)
        ensures
            m == (LogMessage::Gyro { x: self.x, y: self.y, z: self.z }),
    {
        LogMessage::Gyro { x: self.x, y: self.y, z: self.z }
    }
}

} // verus!
