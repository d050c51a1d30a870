use vstd::prelude::*;

verus! {

// Equal-tempered pitches around A4 = 440 Hz, in millihertz.
pub const C_4: u32 = 261_626;

pub const D_4: u32 = 293_665;

pub const E_4: u32 = 329_628;

pub const F_4: u32 = 349_228;

pub const G_4: u32 = 391_995;

pub const A_4: u32 = 440_000;

pub const B_4: u32 = 493_883;

pub const C_5: u32 = 523_251;

pub const D_5: u32 = 587_330;

} // verus!
