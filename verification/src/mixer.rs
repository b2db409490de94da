//! The mixer console.
use vstd::prelude::*;
use vstd::string::StringExecFns;
use crate::audio::Sample;
use crate::ieee::{F32_ONE, F32_ZERO};

verus! {

/// One channel strip. Volume and pan are binary32 numbers.
#[derive(Debug)]
pub struct MixerChannel {
    pub name: String,
    pub volume: Sample,
    pub pan: Sample,
    pub mute: bool,
    pub solo: bool,
}

impl MixerChannel {
    /// A channel at full volume in the centre, neither muted nor soloed.
    pub fn new(name: &str) -> (r: Self)
        ensures
            r.name@ == name@,
            r.volume == F32_ONE,
            r.pan == F32_ZERO,
            !r.mute,
            !r.solo,
    {
        MixerChannel { name: String::from_str(name), volume: F32_ONE, pan: F32_ZERO, mute: false, solo: false }
    }
}

impl Default for MixerChannel {
    fn default() -> (r: Self)
        ensures
            r.name@ == "Channel"@,
            r.volume == F32_ONE,
            r.pan == F32_ZERO,
            !r.mute,
            !r.solo,
    {
        MixerChannel::new("Channel")
    }
}

/// The console: the channel strips and the master volume, a binary32
/// number.
#[derive(Debug)]
pub struct Mixer {
    pub channels: Vec<MixerChannel>,
    pub master_volume: Sample,
}

impl Mixer {
    /// A console without channels at full master volume.
    pub fn new() -> (r: Self)
        ensures
            r.channels@ == Seq::<MixerChannel>::empty(),
            r.master_volume == F32_ONE,
    {
        Mixer { channels: Vec::new(), master_volume: F32_ONE }
    }

    /// Add a channel at the end. The result is its place.
    pub fn add_channel(&mut self, channel: MixerChannel) -> (index: usize)
        ensures
            index == old(self).channels@.len(),
            final(self).channels@ == old(self).channels@.push(channel),
            final(self).master_volume == old(self).master_volume,
    {
        let index: usize = self.channels.len();
        self.channels.push(channel);
        index
    }

    /// Remove the channel at `index`, which moves the later channels up.
    /// An index that no channel has is ignored.
    pub fn remove_channel(&mut self, index: usize)
        ensures
            final(self).master_volume == old(self).master_volume,
            final(self).channels@ == if index < old(self).channels@.len() {
                old(self).channels@.remove(index as int)
            } else {
                old(self).channels@
            },
    {
        if index < self.channels.len() {
            let _ = self.channels.remove(index);
        }
    }

    /// The channel at `index`, if there is one.
    pub fn get_channel(&self, index: usize) -> (r: Option<&MixerChannel>)
        ensures
            r is Some <==> index < self.channels@.len(),
            r matches Some(channel) ==> *channel == self.channels@[index as int],
    {
        if index < self.channels.len() {
            Some(&self.channels[index])
        } else {
            None
        }
    }

    /// The channel at `index`, open to change, if there is one.
    pub fn get_channel_mut(&mut self, index: usize) -> (r: Option<&mut MixerChannel>)
        ensures
            r is Some <==> index < old(self).channels@.len(),
            final(self).master_volume == old(self).master_volume,
            r is None ==> final(self).channels@ == old(self).channels@,
            r matches Some(channel) ==> *channel == old(self).channels@[index as int] && final(self).channels@ == old(
                self,
            ).channels@.update(index as int, *final(channel)),
    {
        if index < self.channels.len() {
            Some(&mut self.channels[index])
        } else {
            None
        }
    }
}

impl Default for Mixer {
    fn default() -> (r: Self)
        ensures
            r.channels@ == Seq::<MixerChannel>::empty(),
            r.master_volume == F32_ONE,
    {
        Mixer::new()
    }
}

} // verus!
