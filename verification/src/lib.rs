//! Firmware logic of the c't-Lab measurement modules (ADA-IO, DCG, DDS, DIV, EDL).

pub mod avrd;
pub mod bits;
pub mod text;
pub mod protocol;
pub mod ada_hw;
pub mod ada_parser;
pub mod edl_parser;
pub mod dcg_hw;
pub mod div_hw;
pub mod mp3control;
pub mod dds_hw;
pub mod dds_sqg;
pub mod sqg_firmware;
pub mod dcg;
pub mod div;
pub mod edl;
pub mod dds;
pub mod ada;
