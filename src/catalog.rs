use vstd::prelude::*;

verus! {

/// Number of voices in the built-in catalog.
pub const VOICE_COUNT: usize = 6;

/// One voice of the catalog: a named short sample assignable to a pad.
#[derive(Debug, Clone, Copy, PartialEq)]
pub struct Voice {
    /// Position of the voice in the catalog; the playback engine's voice key.
    pub index: usize,
    pub id: &'static str,
    pub name: &'static str,
    /// Where the sample's bytes are fetched from.
    pub filename: &'static str,
    pub is_playing: bool,
}

fn voice(index: usize, id: &'static str, name: &'static str, filename: &'static str) -> (v: Voice)
    ensures
        v.index == index,
        v.id == id,
        v.name == name,
        v.filename == filename,
        !v.is_playing,
{
    Voice { index, id, name, filename, is_playing: false }
}

/// The built-in catalog. Each voice's `index` is its position.
pub fn voices() -> (r: Vec<Voice>)
    ensures
        r@.len() == VOICE_COUNT,
        forall|i: int| 0 <= i < r@.len() ==> (#[trigger] r@[i]).index == i && !r@[i].is_playing,
{
    let mut r: Vec<Voice> = Vec::new();
    r.push(voice(0, "Joy", "JOY", "sounds/jovijovi_joy.mp3"));
    r.push(voice(1, "Divi", "DIVI", "sounds/jovijovi_divi.mp3"));
    r.push(voice(2, "Jon", "JON", "sounds/jovijovi_jon.mp3"));
    r.push(voice(3, "Jon?", "JON?", "sounds/jovijovi_jon-.mp3"));
    r.push(voice(4, "Bon", "BON", "sounds/jovijovi_bon.mp3"));
    r.push(voice(5, "Jovi", "JOVI", "sounds/jovijovi_jovi.mp3"));
    r
}

} // verus!
