//! Tracks and the regions arranged on them.
use vstd::prelude::*;
use vstd::string::StringExecFns;
use crate::time::SamplePosition;

verus! {

/// The name of a track within a timeline.
#[derive(Debug, Clone, Copy, PartialEq, Eq, Structural, Hash)]
pub struct TrackId(pub u64);

/// The name of a region within a timeline.
#[derive(Debug, Clone, Copy, PartialEq, Eq, Structural, Hash)]
pub struct RegionId(pub u64);

/// The kind of a track.
#[derive(Debug, Clone, Copy, PartialEq, Eq, Structural)]
pub enum TrackType {
    Audio,
    Midi,
    Instrument,
    Bus,
    Master,
}

/// The colour that a new track or region gets.
pub const DEFAULT_COLOR: u32 = 0x4A90D9;

/// The height in pixels that a new track gets.
pub const DEFAULT_TRACK_HEIGHT: u32 = 80;

/// A stretch of audio or MIDI on a track.
#[derive(Debug, Clone)]
pub struct Region {
    pub id: RegionId,
    pub name: String,
    pub start: SamplePosition,
    pub length: SamplePosition,
    pub track_id: TrackId,
    pub color: u32,
}

impl Region {
    /// An unnamed region in the default colour.
    pub fn new(id: RegionId, track_id: TrackId, start: SamplePosition, length: SamplePosition) -> (r: Self)
        ensures
            r.id == id,
            r.name@ == Seq::<char>::empty(),
            r.start == start,
            r.length == length,
            r.track_id == track_id,
            r.color == DEFAULT_COLOR,
    {
        Region { id, name: String::new(), start, length, track_id, color: DEFAULT_COLOR }
    }

    /// The position just behind the region.
    pub fn end(&self) -> (r: SamplePosition)
        requires
            i64::MIN <= self.start.0 + self.length.0 <= i64::MAX,
        ensures
            r.0 == self.start.0 + self.length.0,
    {
        SamplePosition(self.start.0 + self.length.0)
    }
}

/// A track of the timeline.
#[derive(Debug, Clone)]
pub struct Track {
    pub id: TrackId,
    pub name: String,
    pub track_type: TrackType,
    pub regions: Vec<Region>,
    pub mute: bool,
    pub solo: bool,
    pub armed: bool,
    pub height: u32,
    pub color: u32,
}

impl Track {
    /// An empty track that is neither muted, soloed nor armed.
    pub fn new(id: TrackId, name: &str, track_type: TrackType) -> (r: Self)
        ensures
            r.id == id,
            r.name@ == name@,
            r.track_type == track_type,
            r.regions@ == Seq::<Region>::empty(),
            !r.mute && !r.solo && !r.armed,
            r.height == DEFAULT_TRACK_HEIGHT,
            r.color == DEFAULT_COLOR,
    {
        Track {
            id,
            name: String::from_str(name),
            track_type,
            regions: Vec::new(),
            mute: false,
            solo: false,
            armed: false,
            height: DEFAULT_TRACK_HEIGHT,
            color: DEFAULT_COLOR,
        }
    }

    /// Put a region at the end of the track's list.
    pub fn add_region(&mut self, region: Region)
        ensures
            final(self).regions@ == old(self).regions@.push(region),
            final(self).id == old(self).id,
            final(self).name == old(self).name,
            final(self).track_type == old(self).track_type,
            final(self).mute == old(self).mute,
            final(self).solo == old(self).solo,
            final(self).armed == old(self).armed,
            final(self).height == old(self).height,
            final(self).color == old(self).color,
    {
        self.regions.push(region);
    }
}

/// The tracks of `tracks` whose id is not `id`, in their order.
pub open spec fn without_track(tracks: Seq<Track>, id: TrackId) -> Seq<Track> {
    tracks.filter(|t: Track| t.id != id)
}

/// The place of the first track named `id`, or the length of `tracks` if
/// there is none.
pub open spec fn first_named(tracks: Seq<Track>, id: TrackId) -> int
    decreases tracks.len(),
{
    if tracks.len() == 0 {
        0
    } else if tracks[0].id == id {
        0
    } else {
        1 + first_named(tracks.drop_first(), id)
    }
}

/// `first_named` is a place in `tracks` exactly if a track is named `id`,
/// and no track before that place is.
pub proof fn lemma_first_named(tracks: Seq<Track>, id: TrackId)
    ensures
        0 <= first_named(tracks, id) <= tracks.len(),
        first_named(tracks, id) < tracks.len() ==> tracks[first_named(tracks, id)].id == id,
        forall|i: int| 0 <= i < first_named(tracks, id) ==> (#[trigger] tracks[i]).id != id,
    decreases tracks.len(),
{
    if tracks.len() > 0 && tracks[0].id != id {
        let rest = tracks.drop_first();
        lemma_first_named(rest, id);
        assert forall|i: int| 0 <= i < first_named(tracks, id) implies (#[trigger] tracks[i]).id != id by {
            if i > 0 {
                assert(tracks[i] == rest[i - 1]);
            }
        }
    }
}

/// The arrangement: a list of tracks, and the counters that name new tracks
/// and regions.
#[derive(Debug, Clone)]
pub struct Timeline {
    pub tracks: Vec<Track>,
    next_track_id: u64,
    next_region_id: u64,
}

impl Timeline {
    /// The tracks, in their order.
    pub closed spec fn track_list(&self) -> Seq<Track> {
        self.tracks@
    }

    /// The id that the next track gets.
    pub closed spec fn next_track(&self) -> u64 {
        self.next_track_id
    }

    /// The id that the next region gets.
    pub closed spec fn next_region(&self) -> u64 {
        self.next_region_id
    }

    /// An empty timeline.
    pub fn new() -> (r: Self)
        ensures
            r.track_list() == Seq::<Track>::empty(),
            r.next_track() == 0,
            r.next_region() == 0,
    {
        Timeline { tracks: Vec::new(), next_track_id: 0, next_region_id: 0 }
    }

    /// A timeline with the given tracks, which names its next track and its
    /// next region as given: for a timeline that is taken up again where it
    /// was left.
    pub fn from_parts(tracks: Vec<Track>, next_track_id: u64, next_region_id: u64) -> (r: Self)
        ensures
            r.track_list() == tracks@,
            r.next_track() == next_track_id,
            r.next_region() == next_region_id,
    {
        Timeline { tracks, next_track_id, next_region_id }
    }

    /// The id that the next track gets.
    pub fn next_track_id(&self) -> (r: u64)
        ensures
            r == self.next_track(),
    {
        self.next_track_id
    }

    /// The id that the next region gets.
    pub fn next_region_id(&self) -> (r: u64)
        ensures
            r == self.next_region(),
    {
        self.next_region_id
    }

    /// Whether the timeline has an id left for another track.
    pub fn has_free_track_id(&self) -> (r: bool)
        ensures
            r == (self.next_track() < u64::MAX),
    {
        self.next_track_id < u64::MAX
    }

    /// Whether the timeline has an id left for another region.
    pub fn has_free_region_id(&self) -> (r: bool)
        ensures
            r == (self.next_region() < u64::MAX),
    {
        self.next_region_id < u64::MAX
    }

    /// Add an empty track at the end. The result is its id.
    pub fn add_track(&mut self, name: &str, track_type: TrackType) -> (id: TrackId)
        requires
            old(self).next_track() < u64::MAX,
        ensures
            id.0 == old(self).next_track(),
            final(self).next_track() == old(self).next_track() + 1,
            final(self).next_region() == old(self).next_region(),
            final(self).track_list().len() == old(self).track_list().len() + 1,
            final(self).track_list().take(old(self).track_list().len() as int) == old(self).track_list(),
            ({
                let track = final(self).track_list().last();
                &&& track.id == id
                &&& track.name@ == name@
                &&& track.track_type == track_type
                &&& track.regions@ == Seq::<Region>::empty()
                &&& !track.mute && !track.solo && !track.armed
            }),
    {
        let id = TrackId(self.next_track_id);
        self.next_track_id = self.next_track_id + 1;
        self.tracks.push(Track::new(id, name, track_type));
        assert(self.tracks@.take(old(self).track_list().len() as int) =~= old(self).track_list());
        id
    }

    /// Remove every track named `id`.
    pub fn remove_track(&mut self, id: TrackId)
        ensures
            final(self).track_list() == without_track(old(self).track_list(), id),
            final(self).next_track() == old(self).next_track(),
            final(self).next_region() == old(self).next_region(),
    {
        let ghost all = self.tracks@;
        let ghost keep = |t: Track| t.id != id;
        let ghost mut seen: int = 0;
        let mut i: usize = 0;
        while i < self.tracks.len()
            invariant
                0 <= seen <= all.len(),
                all == old(self).track_list(),
                keep == (|t: Track| t.id != id),
                i == all.take(seen).filter(keep).len(),
                self.tracks@ == all.take(seen).filter(keep) + all.skip(seen),
                self.next_track_id == old(self).next_track_id,
                self.next_region_id == old(self).next_region_id,
            decreases all.len() - seen,
        {
            proof {
                reveal(Seq::filter);
                assert(all.take(seen + 1).drop_last() =~= all.take(seen));
                assert(self.tracks@[i as int] == all.skip(seen)[0]);
                assert(all.skip(seen + 1) =~= all.skip(seen).drop_first());
            }
            if self.tracks[i].id == id {
                let _ = self.tracks.remove(i);
                proof {
                    assert(self.tracks@ =~= all.take(seen + 1).filter(keep) + all.skip(seen + 1));
                }
            } else {
                proof {
                    assert(self.tracks@ =~= all.take(seen + 1).filter(keep) + all.skip(seen + 1));
                }
                i += 1;
            }
            proof {
                seen = seen + 1;
            }
        }
        proof {
            assert(seen == all.len()) by {
                if seen < all.len() {
                    assert(self.tracks@.len() == i + all.skip(seen).len());
                }
            }
            assert(all.take(seen) =~= all);
            assert(self.tracks@ =~= all.filter(keep));
        }
    }

    /// Where the first track named `id` stands.
    fn find(&self, id: TrackId) -> (r: Option<usize>)
        ensures
            r is Some <==> first_named(self.track_list(), id) < self.track_list().len(),
            r matches Some(i) ==> i == first_named(self.track_list(), id),
    {
        proof {
            lemma_first_named(self.tracks@, id);
        }
        let mut i: usize = 0;
        while i < self.tracks.len()
            invariant
                i <= self.tracks.len(),
                i <= first_named(self.tracks@, id),
                first_named(self.tracks@, id) <= self.tracks@.len(),
                first_named(self.tracks@, id) < self.tracks@.len() ==> self.tracks@[first_named(
                    self.tracks@,
                    id,
                )].id == id,
                forall|j: int| 0 <= j < first_named(self.tracks@, id) ==> (#[trigger] self.tracks@[j]).id != id,
            decreases self.tracks.len() - i,
        {
            if self.tracks[i].id == id {
                return Some(i);
            }
            i += 1;
        }
        None
    }

    /// The first track named `id`, if there is one.
    pub fn get_track(&self, id: TrackId) -> (r: Option<&Track>)
        ensures
            r is Some <==> first_named(self.track_list(), id) < self.track_list().len(),
            r matches Some(track) ==> *track == self.track_list()[first_named(self.track_list(), id)],
    {
        match self.find(id) {
            Some(i) => Some(&self.tracks[i]),
            None => None,
        }
    }

    /// The first track named `id`, open to change, if there is one.
    pub fn get_track_mut(&mut self, id: TrackId) -> (r: Option<&mut Track>)
        ensures
            r is Some <==> first_named(old(self).track_list(), id) < old(self).track_list().len(),
            final(self).next_track() == old(self).next_track(),
            final(self).next_region() == old(self).next_region(),
            r is None ==> final(self).track_list() == old(self).track_list(),
            r matches Some(track) ==> {
                let at = first_named(old(self).track_list(), id);
                &&& *track == old(self).track_list()[at]
                &&& final(self).track_list() == old(self).track_list().update(at, *final(track))
            },
    {
        match self.find(id) {
            Some(i) => Some(&mut self.tracks[i]),
            None => None,
        }
    }

    /// A new id for a region.
    pub fn new_region_id(&mut self) -> (id: RegionId)
        requires
            old(self).next_region() < u64::MAX,
        ensures
            id.0 == old(self).next_region(),
            final(self).next_region() == old(self).next_region() + 1,
            final(self).next_track() == old(self).next_track(),
            final(self).track_list() == old(self).track_list(),
    {
        let id = RegionId(self.next_region_id);
        self.next_region_id = self.next_region_id + 1;
        id
    }
}

impl Default for Timeline {
    fn default() -> (r: Self)
        ensures
            r.track_list() == Seq::<Track>::empty(),
            r.next_track() == 0,
            r.next_region() == 0,
    {
        Timeline::new()
    }
}

} // verus!
