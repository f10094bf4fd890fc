#![allow(non_camel_case_types, non_upper_case_globals, non_snake_case)]
use vstd::prelude::*;

pub mod common;
pub mod ffi;
pub mod linux;
pub mod win32;
pub mod game;
