//! The messages exchanged with the device, as plain values.

use vstd::prelude::*;

verus! {

/// First byte of a SysEx message.
pub const EST: u8 = 0xF0;

/// Last byte of a SysEx message.
pub const EOX: u8 = 0xF7;

/// The MIDI clock, which may come at any time.
pub const CLOCK: u8 = 0xF8;

/// What the device knows about a sample besides its audio data.
#[derive(Debug)]
pub struct SampleHeader {
    pub sample_no: u8,
    pub name: String,
    pub length: u32,
    pub level: u16,
    pub speed: u16,
}

/// The audio data of a sample.
#[derive(Debug)]
pub struct SampleData {
    pub sample_no: u8,
    pub data: Vec<i16>,
}

/// The content of a [`SampleHeader`].
#[verifier::ext_equal]
pub struct HeaderContent {
    pub sample_no: u8,
    pub name: Seq<char>,
    pub length: u32,
    pub level: u16,
    pub speed: u16,
}

impl View for SampleHeader {
    type V = HeaderContent;

    open spec fn view(&self) -> HeaderContent {
        HeaderContent {
            sample_no: self.sample_no,
            name: self.name@,
            length: self.length,
            level: self.level,
            speed: self.speed,
        }
    }
}

/// The content of a [`SampleData`].
#[verifier::ext_equal]
pub struct DataContent {
    pub sample_no: u8,
    pub data: Seq<i16>,
}

impl View for SampleData {
    type V = DataContent;

    open spec fn view(&self) -> DataContent {
        DataContent { sample_no: self.sample_no, data: self.data@ }
    }
}

/// Asks for the header of a sample.
#[derive(Clone, Copy, Debug, PartialEq, Eq, Structural)]
pub struct SampleHeaderDumpRequest {
    pub sample_no: u8,
}

/// Asks for the audio data of a sample.
#[derive(Clone, Copy, Debug, PartialEq, Eq, Structural)]
pub struct SampleDataDumpRequest {
    pub sample_no: u8,
}

/// Asks a device to identify itself; the reply repeats the echo.
#[derive(Clone, Copy, Debug, PartialEq, Eq, Structural)]
pub struct SearchDeviceRequest {
    pub echo: u8,
}

/// The content of a message has all that the message holds.
pub proof fn law_content_of_messages(header: SampleHeader, data: SampleData)
    ensures
        header@.sample_no == header.sample_no,
        header@.name == header.name@,
        header@.length == header.length,
        header@.level == header.level,
        header@.speed == header.speed,
        data@.sample_no == data.sample_no,
        data@.data == data.data@,
{
}

} // verus!
