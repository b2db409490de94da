//! What a project says of itself.
use vstd::prelude::*;
use vstd::string::StringExecFns;
use crate::audio::SampleRate;
use crate::time::{Tempo, TimeSignature, BPM_DEFAULT};
use crate::timeline::{Timeline, Track};

verus! {

/// Name, author and history of a project.
#[derive(Debug, Clone)]
pub struct ProjectMetadata {
    pub name: String,
    pub author: String,
    pub description: String,
    pub created: String,
    pub modified: String,
}

impl ProjectMetadata {
    /// The metadata of a project named `name`, with everything else empty.
    pub fn named(name: &str) -> (r: Self)
        ensures
            r.name@ == name@,
            r.author@ == Seq::<char>::empty(),
            r.description@ == Seq::<char>::empty(),
            r.created@ == Seq::<char>::empty(),
            r.modified@ == Seq::<char>::empty(),
    {
        ProjectMetadata {
            name: String::from_str(name),
            author: String::new(),
            description: String::new(),
            created: String::new(),
            modified: String::new(),
        }
    }
}

impl Default for ProjectMetadata {
    fn default() -> (r: Self)
        ensures
            r.name@ == "Untitled"@,
            r.author@ == Seq::<char>::empty(),
            r.description@ == Seq::<char>::empty(),
            r.created@ == Seq::<char>::empty(),
            r.modified@ == Seq::<char>::empty(),
    {
        ProjectMetadata::named("Untitled")
    }
}

/// A path in the file system.
#[verifier::external_type_specification]
#[verifier::external_body]
pub struct ExPathBuf(std::path::PathBuf);

/// A project: its metadata, its format and its arrangement, and where its
/// file is, once it has one.
#[derive(Debug, Clone)]
pub struct Project {
    pub metadata: ProjectMetadata,
    pub sample_rate: SampleRate,
    pub tempo: Tempo,
    pub time_signature: TimeSignature,
    pub timeline: Timeline,
    /// The file that the project was last loaded from or saved to.
    pub path: Option<std::path::PathBuf>,
    /// Whether the project has changed since then.
    pub modified: bool,
}

impl Project {
    /// An empty project named `name` at 48 kHz and 120 beats per minute in
    /// common time, without a file and unmodified.
    pub fn new(name: &str) -> (r: Self)
        ensures
            r.metadata.name@ == name@,
            r.sample_rate == SampleRate(48000),
            r.tempo == Tempo(BPM_DEFAULT),
            r.time_signature == (TimeSignature { numerator: 4, denominator: 4 }),
            r.timeline.track_list() == Seq::<Track>::empty(),
            r.path is None,
            !r.modified,
    {
        Project {
            metadata: ProjectMetadata::named(name),
            sample_rate: SampleRate(48000),
            tempo: Tempo(BPM_DEFAULT),
            time_signature: TimeSignature { numerator: 4, denominator: 4 },
            timeline: Timeline::new(),
            path: None,
            modified: false,
        }
    }

    /// Note that the project as it stands is what the file at `path` holds,
    /// after it was saved there or loaded from there.
    pub fn settle(&mut self, path: std::path::PathBuf)
        ensures
            final(self).path == Some(path),
            !final(self).modified,
            final(self).metadata == old(self).metadata,
            final(self).sample_rate == old(self).sample_rate,
            final(self).tempo == old(self).tempo,
            final(self).time_signature == old(self).time_signature,
            final(self).timeline == old(self).timeline,
    {
        self.path = Some(path);
        self.modified = false;
    }
}

impl Default for Project {
    fn default() -> (r: Self)
        ensures
            r.metadata.name@ == "Untitled"@,
            r.path is None,
            !r.modified,
    {
        Project::new("Untitled")
    }
}

} // verus!
