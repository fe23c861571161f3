//! Drumlin: the rules of a drum-machine plugin, with every rule stated as a
//! contract and proved.

use vstd::prelude::*;

pub mod chorus;
pub mod delay;
pub mod dig;
pub mod drive;
pub mod dynamics;
pub mod editor;
pub mod engine;
pub mod envelope;
pub mod filter;
pub mod folders;
pub mod history;
pub mod ieee;
pub mod kitfiles;
pub mod kits;
pub mod lfo;
pub mod midi_export;
pub mod midi_learn;
pub mod mod_matrix;
pub mod order;
pub mod oscillator;
pub mod params;
pub mod pattern;
pub mod phaser;
pub mod presets;
pub mod queue;
pub mod recall;
pub mod reverb;
pub mod ring;
pub mod rng;
pub mod sound;
pub mod state;
pub mod terrain;
pub mod text;
pub mod util;
pub mod views;
pub mod wavetable;
pub mod worlds;

verus! {

} // verus!
