use vstd::prelude::*;

verus! {

/// Id of 1m.
pub const TILE_1M: u8 = 0;

/// Id of 2m.
pub const TILE_2M: u8 = 1;

/// Id of 3m.
pub const TILE_3M: u8 = 2;

/// Id of 4m.
pub const TILE_4M: u8 = 3;

/// Id of 5m.
pub const TILE_5M: u8 = 4;

/// Id of 6m.
pub const TILE_6M: u8 = 5;

/// Id of 7m.
pub const TILE_7M: u8 = 6;

/// Id of 8m.
pub const TILE_8M: u8 = 7;

/// Id of 9m.
pub const TILE_9M: u8 = 8;

/// Id of 1p.
pub const TILE_1P: u8 = 9;

/// Id of 2p.
pub const TILE_2P: u8 = 10;

/// Id of 3p.
pub const TILE_3P: u8 = 11;

/// Id of 4p.
pub const TILE_4P: u8 = 12;

/// Id of 5p.
pub const TILE_5P: u8 = 13;

/// Id of 6p.
pub const TILE_6P: u8 = 14;

/// Id of 7p.
pub const TILE_7P: u8 = 15;

/// Id of 8p.
pub const TILE_8P: u8 = 16;

/// Id of 9p.
pub const TILE_9P: u8 = 17;

/// Id of 1s.
pub const TILE_1S: u8 = 18;

/// Id of 2s.
pub const TILE_2S: u8 = 19;

/// Id of 3s.
pub const TILE_3S: u8 = 20;

/// Id of 4s.
pub const TILE_4S: u8 = 21;

/// Id of 5s.
pub const TILE_5S: u8 = 22;

/// Id of 6s.
pub const TILE_6S: u8 = 23;

/// Id of 7s.
pub const TILE_7S: u8 = 24;

/// Id of 8s.
pub const TILE_8S: u8 = 25;

/// Id of 9s.
pub const TILE_9S: u8 = 26;

/// Id of 1z, east.
pub const TILE_1Z: u8 = 27;

/// Id of 2z, south.
pub const TILE_2Z: u8 = 28;

/// Id of 3z, west.
pub const TILE_3Z: u8 = 29;

/// Id of 4z, north.
pub const TILE_4Z: u8 = 30;

/// Id of 5z, white.
pub const TILE_5Z: u8 = 31;

/// Id of 6z, green.
pub const TILE_6Z: u8 = 32;

/// Id of 7z, red.
pub const TILE_7Z: u8 = 33;

/// Id of 0m, the red five of man.
pub const TILE_0M: u8 = 34;

/// Id of 0p, the red five of pin.
pub const TILE_0P: u8 = 35;

/// Id of 0s, the red five of sou.
pub const TILE_0S: u8 = 36;

} // verus!
