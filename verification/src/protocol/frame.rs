//! The frame of the link layer.

use crate::bytes::{append, to_vec};
use vstd::prelude::*;

verus! {

/// A decoded frame: address, control code and data without the 33H offset.
#[derive(Debug, Clone)]
pub struct Frame {
    pub address: [u8; 6],
    pub control: u8,
    pub data: Vec<u8>,
}

/// A frame as a mathematical value.
pub ghost struct FrameModel {
    pub address: Seq<u8>,
    pub control: u8,
    pub data: Seq<u8>,
}

impl View for Frame {
    type V = FrameModel;

    open spec fn view(&self) -> FrameModel {
        FrameModel { address: self.address@, control: self.control, data: self.data@ }
    }
}

impl Frame {
    /// A request to read the data item `di`.
    pub fn read(address: [u8; 6], di: [u8; 4]) -> (r: Frame)
        ensures
            r@ == (FrameModel { address: address@, control: 0x11, data: di@ }),
    {
        Frame { address, control: 0x11, data: to_vec(di.as_slice()) }
    }

    /// The normal answer to a read of `di`: the identifier and then the value.
    pub fn response(address: [u8; 6], di: [u8; 4], value: &Vec<u8>) -> (r: Frame)
        ensures
            r@ == (FrameModel { address: address@, control: 0x91, data: di@ + value@ }),
    {
        let mut frame = Frame::read(address, di);
        frame.control = 0x91;
        append(&mut frame.data, value.as_slice());
        frame
    }
}

} // verus!
