//! The record-type bytes of the wire format.
use vstd::prelude::*;

verus! {

pub const DATA: u8 = 0x00;

pub const END_OF_FILE: u8 = 0x01;

pub const EXTENDED_SEGMENT_ADDRESS: u8 = 0x02;

pub const START_SEGMENT_ADDRESS: u8 = 0x03;

pub const EXTENDED_LINEAR_ADDRESS: u8 = 0x04;

pub const START_LINEAR_ADDRESS: u8 = 0x05;

} // verus!
