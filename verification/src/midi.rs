//! Reading the notes of a MIDI track, for charts that follow a melody.
use vstd::prelude::*;

verus! {

/// An event of a MIDI track, as far as charts read it: the ticks since the
/// previous event, and the key of the note if the event starts a note.
#[derive(PartialEq, Eq, Structural, Debug, Clone, Copy)]
pub struct MidiEvent {
    pub delta: u32,
    pub note_on: Option<u8>,
}

/// The timing of a MIDI file: either ticks per beat, or frames per second
/// (24, 25, 29 for 29.97, or 30) and ticks per frame.
#[derive(PartialEq, Eq, Structural, Debug, Clone, Copy)]
pub enum MidiTiming {
    Metrical(u16),
    Timecode(u8, u8),
}

/// The parts of a MIDI file that charts read: its timing and its tracks.
#[derive(Debug)]
pub struct MidiFile {
    pub timing: MidiTiming,
    pub tracks: Vec<Vec<MidiEvent>>,
}

impl MidiFile {
    /// The tracks, each as the sequence of its events.
    pub open spec fn spec_tracks(&self) -> Seq<Seq<MidiEvent>> {
        self.tracks@.map_values(|t: Vec<MidiEvent>| t@)
    }

    /// The first track of the file, if the file has a track.
    pub fn first_track(&self) -> (track: Option<&Vec<MidiEvent>>)
        ensures
            track is Some <==> self.tracks@.len() > 0,
            track matches Some(t) ==> t@ == self.spec_tracks()[0],
    {
        if self.tracks.len() > 0 {
            Some(&self.tracks[0])
        } else {
            None
        }
    }
}

/// A MIDI file whose bytes `midly` could not read.
#[verifier::external_type_specification]
#[verifier::external_body]
pub struct ExMidlyError(midly::Error);

/// Why a MIDI file could not be read.
#[derive(Debug)]
pub enum MidiError {
    Malformed(midly::Error),
}

/// What `midly::Smf::parse` reads from the bytes `raw`, when it reads them:
/// the timing of the file and the events of each track.
pub uninterp spec fn smf_contents(raw: Seq<u8>) -> Option<(MidiTiming, Seq<Seq<MidiEvent>>)>;

/// Calls `midly::Smf::parse` on `raw` and copies out the timing and, for each
/// event of each track, its delta time and the key of a note-on message. The
/// result is claimed to be a function of the bytes alone (`smf_contents`).
#[verifier::external_body]
fn smf_parse(raw: &[u8]) -> (res: Result<MidiFile, midly::Error>)
    ensures
        res is Ok <==> smf_contents(raw@) is Some,
        res matches Ok(file) ==> smf_contents(raw@) == Some((file.timing, file.spec_tracks())),
{
    let smf = midly::Smf::parse(raw)?;
    let timing = match smf.header.timing {
        midly::Timing::Metrical(t) => MidiTiming::Metrical(t.as_int()),
        midly::Timing::Timecode(fps, sub) => MidiTiming::Timecode(fps.as_int(), sub),
    };
    let tracks = smf.tracks.iter().map(|track| track.iter().map(|e| MidiEvent {
        delta: e.delta.as_int(),
        note_on: match e.kind {
            midly::TrackEventKind::Midi { message: midly::MidiMessage::NoteOn { key, .. }, .. } => Some(key.as_int()),
            _ => None,
        },
    }).collect()).collect();
    Ok(MidiFile { timing, tracks })
}

/// Read the timing and tracks of the MIDI file whose bytes are `raw`.
pub fn parse_midi(raw: &[u8]) -> (res: Result<MidiFile, MidiError>)
    ensures
        res is Ok <==> smf_contents(raw@) is Some,
        res matches Ok(file) ==> smf_contents(raw@) == Some((file.timing, file.spec_tracks())),
{
    match smf_parse(raw) {
        Ok(file) => Ok(file),
        Err(err) => Err(MidiError::Malformed(err)),
    }
}

/// The ticks from the start of the track to the end of its last event.
pub open spec fn tick_sum(track: Seq<MidiEvent>) -> int
    decreases track.len(),
{
    if track.len() == 0 {
        0
    } else {
        tick_sum(track.drop_last()) + track.last().delta
    }
}

/// A note of a track: the tick at which it starts, its key, and, once the
/// notes are grouped, its group as (group number, place in the group, group size).
#[derive(PartialEq, Eq, Debug, Clone, Copy)]
pub struct MarkedNote {
    pub tick: u32,
    pub key: u8,
    pub midigroup: Option<(usize, usize, usize)>,
}

/// The notes that the note-on events of `track` start, in track order.
pub open spec fn spec_notes(track: Seq<MidiEvent>) -> Seq<MarkedNote>
    decreases track.len(),
{
    if track.len() == 0 {
        Seq::empty()
    } else {
        let before = spec_notes(track.drop_last());
        match track.last().note_on {
            Some(key) => before.push(MarkedNote { tick: tick_sum(track) as u32, key, midigroup: None }),
            None => before,
        }
    }
}

/// How many events of `track` start a note.
pub open spec fn note_on_count(track: Seq<MidiEvent>) -> nat
    decreases track.len(),
{
    if track.len() == 0 {
        0
    } else {
        note_on_count(track.drop_last()) + if track.last().note_on is Some { 1nat } else { 0nat }
    }
}

/// There is one note for every note-on event, in track order, even when
/// several notes start at the same tick: the note of the event at index `i`
/// comes after the notes of the note-on events before it, has the event's key,
/// and starts at the tick that the track has reached with that event.
pub proof fn lemma_one_note_per_note_on(track: Seq<MidiEvent>)
    ensures
        spec_notes(track).len() == note_on_count(track),
        forall|i: int| 0 <= i < track.len() && (#[trigger] track[i]).note_on is Some ==> spec_notes(track)[note_on_count(track.take(i)) as int]
            == (MarkedNote { tick: tick_sum(track.take(i + 1)) as u32, key: track[i].note_on.unwrap(), midigroup: None }),
    decreases track.len(),
{
    if track.len() > 0 {
        let before = track.drop_last();
        lemma_one_note_per_note_on(before);
        let last = track.len() - 1;
        assert(track.take(last + 1) =~= track);
        assert(track.take(last) =~= before);
        assert forall|i: int| 0 <= i < track.len() && (#[trigger] track[i]).note_on is Some implies spec_notes(track)[note_on_count(track.take(i)) as int]
            == (MarkedNote { tick: tick_sum(track.take(i + 1)) as u32, key: track[i].note_on.unwrap(), midigroup: None }) by {
            if i < last {
                assert(track.take(i) =~= before.take(i));
                assert(track.take(i + 1) =~= before.take(i + 1));
                assert(before[i] == track[i]);
                lemma_note_on_count_prefix(before, i);
            }
        }
    }
}

/// A prefix of a track has no more note-on events than the track, and fewer
/// when a note-on event follows it.
pub proof fn lemma_note_on_count_prefix(track: Seq<MidiEvent>, i: int)
    requires
        0 <= i < track.len(),
    ensures
        note_on_count(track.take(i)) + (if track[i].note_on is Some { 1int } else { 0int }) <= note_on_count(track),
    decreases track.len(),
{
    if i == track.len() - 1 {
        assert(track.take(i) =~= track.drop_last());
    } else {
        lemma_note_on_count_prefix(track.drop_last(), i);
        assert(track.drop_last().take(i) =~= track.take(i));
    }
}

/// The running tick sum of a track never goes down.
pub proof fn lemma_tick_sum_prefix(track: Seq<MidiEvent>, i: int)
    requires
        0 <= i <= track.len(),
    ensures
        0 <= tick_sum(track.take(i)) <= tick_sum(track),
    decreases track.len(),
{
    if track.len() > 0 {
        if i == track.len() {
            assert(track.take(i) =~= track);
        } else {
            lemma_tick_sum_prefix(track.drop_last(), i);
            assert(track.drop_last().take(i) =~= track.take(i));
        }
        lemma_tick_sum_prefix(track.drop_last(), track.len() - 1);
        assert(track.drop_last().take(track.len() - 1) =~= track.drop_last());
    }
}

/// The length of a track, in ticks: the sum of the delta times of its events.
pub fn get_track_duration(track: &Vec<MidiEvent>) -> (ticks: u32)
    requires
        tick_sum(track@) <= u32::MAX,
    ensures
        ticks == tick_sum(track@),
{
    let mut ticks: u32 = 0;
    let mut i: usize = 0;
    while i < track.len()
        invariant
            i <= track@.len(),
            ticks == tick_sum(track@.take(i as int)),
            tick_sum(track@) <= u32::MAX,
        decreases track@.len() - i,
    {
        proof {
            lemma_tick_sum_prefix(track@, i + 1);
            assert(track@.take(i + 1).drop_last() =~= track@.take(i as int));
        }
        ticks = ticks + track[i].delta;
        i = i + 1;
    }
    proof {
        assert(track@.take(i as int) =~= track@);
    }
    ticks
}

/// The notes of `track`, each with the tick at which it starts and its key,
/// in track order and not grouped.
pub fn midi_to_beats_ungrouped(track: &Vec<MidiEvent>) -> (notes: Vec<MarkedNote>)
    requires
        tick_sum(track@) <= u32::MAX,
    ensures
        notes@ == spec_notes(track@),
        notes@.len() == note_on_count(track@),
        forall|i: int| 0 <= i < track@.len() && (#[trigger] track@[i]).note_on is Some ==> notes@[note_on_count(track@.take(i)) as int]
            == (MarkedNote { tick: tick_sum(track@.take(i + 1)) as u32, key: track@[i].note_on.unwrap(), midigroup: None }),
{
    proof {
        lemma_one_note_per_note_on(track@);
    }
    let mut tick_number: u32 = 0;
    let mut notes: Vec<MarkedNote> = Vec::new();
    let mut i: usize = 0;
    while i < track.len()
        invariant
            i <= track@.len(),
            tick_number == tick_sum(track@.take(i as int)),
            notes@ == spec_notes(track@.take(i as int)),
            tick_sum(track@) <= u32::MAX,
        decreases track@.len() - i,
    {
        proof {
            lemma_tick_sum_prefix(track@, i + 1);
            assert(track@.take(i + 1).drop_last() =~= track@.take(i as int));
        }
        let event = track[i];
        tick_number = tick_number + event.delta;
        if let Some(key) = event.note_on {
            notes.push(MarkedNote { tick: tick_number, key, midigroup: None });
        }
        i = i + 1;
    }
    proof {
        assert(track@.take(i as int) =~= track@);
    }
    notes
}

/// The first note of the run of equal keys that holds note `j`: notes with the
/// same key in a row form one group.
pub open spec fn run_start(notes: Seq<MarkedNote>, j: int) -> int
    decreases j,
{
    if j <= 0 {
        0
    } else if notes[j - 1].key != notes[j].key {
        j
    } else {
        run_start(notes, j - 1)
    }
}

/// One past the last note of the run of equal keys that holds note `j`.
pub open spec fn run_end(notes: Seq<MarkedNote>, j: int) -> int
    decreases notes.len() - j,
{
    if j + 1 >= notes.len() {
        notes.len() as int
    } else if notes[j + 1].key != notes[j].key {
        j + 1
    } else {
        run_end(notes, j + 1)
    }
}

/// The number of the run of equal keys that holds note `j`, counting from 0.
pub open spec fn group_id(notes: Seq<MarkedNote>, j: int) -> int
    decreases j,
{
    if j <= 0 {
        0
    } else {
        group_id(notes, j - 1) + if notes[j - 1].key != notes[j].key { 1int } else { 0int }
    }
}

/// How many notes come before the last run of equal keys: the last run is
/// never closed by a change of key, so it is not kept.
pub open spec fn grouped_len(notes: Seq<MarkedNote>) -> int {
    if notes.len() == 0 {
        0
    } else {
        run_start(notes, notes.len() - 1)
    }
}

/// Note `j` of `notes`, marked with its group: the group's number, the note's
/// place in the group, and the group's size.
pub open spec fn grouped_note(notes: Seq<MarkedNote>, j: int) -> MarkedNote {
    MarkedNote {
        tick: notes[j].tick,
        key: notes[j].key,
        midigroup: Some((
            group_id(notes, j) as usize,
            (j - run_start(notes, j)) as usize,
            (run_end(notes, j) - run_start(notes, j)) as usize,
        )),
    }
}

/// The notes of `notes` that belong to a closed group, each marked with its group.
pub open spec fn spec_grouped(notes: Seq<MarkedNote>) -> Seq<MarkedNote> {
    Seq::new(grouped_len(notes) as nat, |j: int| grouped_note(notes, j))
}

/// Bounds on the groups: a run starts at or before its note and ends after it,
/// and the number of a group never exceeds the index of its notes.
pub proof fn lemma_run_bounds(notes: Seq<MarkedNote>, j: int)
    requires
        0 <= j < notes.len(),
    ensures
        0 <= run_start(notes, j) <= j < run_end(notes, j) <= notes.len(),
        0 <= group_id(notes, j) <= j,
    decreases notes.len() - j,
{
    lemma_run_start_bounds(notes, j);
    if j + 1 < notes.len() && notes[j + 1].key == notes[j].key {
        lemma_run_bounds(notes, j + 1);
    }
}

proof fn lemma_run_start_bounds(notes: Seq<MarkedNote>, j: int)
    requires
        0 <= j < notes.len(),
    ensures
        0 <= run_start(notes, j) <= j,
        0 <= group_id(notes, j) <= j,
    decreases j,
{
    if j > 0 {
        lemma_run_start_bounds(notes, j - 1);
    }
}

/// The notes of `track` with the same key in a row grouped together, each note
/// marked with its group number, its place in the group and the group's size.
/// A group is closed by the first note of the next group, so the notes of the
/// last group are left out.
pub fn midi_to_beats_grouped(track: &Vec<MidiEvent>) -> (grouped: Vec<MarkedNote>)
    requires
        tick_sum(track@) <= u32::MAX,
    ensures
        grouped@ == spec_grouped(spec_notes(track@)),
{
    let notes = midi_to_beats_ungrouped(track);
    let ghost n = notes@;
    let mut grouped: Vec<MarkedNote> = Vec::new();
    if notes.len() == 0 {
        proof {
            assert(grouped@ =~= spec_grouped(n));
        }
        return grouped;
    }
    let mut group_start: usize = 0;
    let mut group_number: usize = 0;
    let mut i: usize = 1;
    while i < notes.len()
        invariant
            n == notes@,
            1 <= i <= n.len(),
            group_start < i,
            group_number < i,
            run_start(n, i - 1) == group_start,
            forall|k: int| group_start <= k < i ==> #[trigger] run_start(n, k) == group_start,
            forall|k: int| group_start <= k < i ==> #[trigger] group_id(n, k) == group_number,
            forall|k: int| group_start <= k < i ==> #[trigger] run_end(n, k) == run_end(n, i - 1),
            grouped@.len() == group_start,
            forall|j: int| 0 <= j < group_start ==> #[trigger] grouped@[j] == grouped_note(n, j),
        decreases n.len() - i,
    {
        assert(group_id(n, i - 1) == group_number);
        if notes[i].key != notes[i - 1].key {
            // The note at `i` closes the group that started at `group_start`.
            let size = i - group_start;
            let mut k = group_start;
            while k < i
                invariant
                    n == notes@,
                    group_start <= k <= i,
                    i < n.len(),
                    size == i - group_start,
                    n[i as int].key != n[i - 1].key,
                    forall|m: int| group_start <= m < i ==> #[trigger] run_start(n, m) == group_start,
                    forall|m: int| group_start <= m < i ==> #[trigger] group_id(n, m) == group_number,
                    forall|m: int| group_start <= m < i ==> #[trigger] run_end(n, m) == run_end(n, i - 1),
                    grouped@.len() == k,
                    forall|j: int| 0 <= j < k ==> #[trigger] grouped@[j] == grouped_note(n, j),
                decreases i - k,
            {
                let note = notes[k];
                assert(run_end(n, i - 1) == i);
                grouped.push(MarkedNote {
                    tick: note.tick,
                    key: note.key,
                    midigroup: Some((group_number, k - group_start, size)),
                });
                k = k + 1;
            }
            group_number = group_number + 1;
            group_start = i;
        }
        assert(group_id(n, i as int) == group_number);
        i = i + 1;
    }
    proof {
        assert(grouped@ =~= spec_grouped(n));
    }
    grouped
}

/// The notes of a track start in time order, and none starts after the track
/// ends; so the fraction of the track before each note is between 0 and 1.
pub proof fn lemma_notes_in_time_order(track: Seq<MidiEvent>)
    requires
        tick_sum(track) <= u32::MAX,
    ensures
        forall|i: int, j: int| 0 <= i <= j < spec_notes(track).len() ==>
            #[trigger] spec_notes(track)[i].tick <= #[trigger] spec_notes(track)[j].tick,
        forall|i: int| 0 <= i < spec_notes(track).len() ==> #[trigger] spec_notes(track)[i].tick <= tick_sum(track),
        forall|i: int| 0 <= i < spec_notes(track).len() ==> #[trigger] spec_notes(track)[i].midigroup is None,
    decreases track.len(),
{
    if track.len() > 0 {
        let before = track.drop_last();
        lemma_notes_in_time_order(before);
        lemma_tick_sum_prefix(track, track.len() - 1);
        assert(track.take(track.len() - 1) =~= before);
        let ns = spec_notes(track);
        let nb = spec_notes(before);
        assert forall|i: int| 0 <= i < nb.len() implies #[trigger] ns[i] == nb[i] by {
        }
        assert forall|i: int, j: int| 0 <= i <= j < ns.len() implies #[trigger] ns[i].tick <= #[trigger] ns[j].tick by {
            if j >= nb.len() {
                assert(ns[j].tick == tick_sum(track));
                if i < nb.len() {
                    assert(nb[i].tick <= tick_sum(before));
                }
            }
        }
    }
}

/// Grouping keeps the notes, in order, up to the start of the last run of equal
/// keys, and leaves out that last run: every left-out note has the key of the
/// last note.
pub proof fn lemma_grouping_drops_last_run(notes: Seq<MarkedNote>)
    requires
        notes.len() > 0,
    ensures
        0 <= grouped_len(notes) < notes.len(),
        forall|j: int| 0 <= j < grouped_len(notes) ==> #[trigger] spec_grouped(notes)[j].tick == notes[j].tick
            && spec_grouped(notes)[j].key == notes[j].key,
        forall|j: int| grouped_len(notes) <= j < notes.len() ==> #[trigger] notes[j].key == notes.last().key,
        grouped_len(notes) > 0 ==> notes[grouped_len(notes) - 1].key != notes.last().key,
{
    let last = notes.len() - 1;
    lemma_run_bounds(notes, last);
    lemma_run_keys_equal(notes, last);
}

/// Every note from the start of a run up to note `j` has the key of note `j`,
/// and the note before the run (if any) has another key.
pub proof fn lemma_run_keys_equal(notes: Seq<MarkedNote>, j: int)
    requires
        0 <= j < notes.len(),
    ensures
        forall|k: int| run_start(notes, j) <= k <= j ==> #[trigger] notes[k].key == notes[j].key,
        run_start(notes, j) > 0 ==> notes[run_start(notes, j) - 1].key != notes[run_start(notes, j)].key,
    decreases j,
{
    if j > 0 && notes[j - 1].key == notes[j].key {
        lemma_run_keys_equal(notes, j - 1);
    }
}

/// The group marks are consistent: a note's place is within its group, and the
/// next grouped note is either the next note of the same group or the first
/// note of the next group.
pub proof fn lemma_group_marks(notes: Seq<MarkedNote>, j: int)
    requires
        notes.len() <= usize::MAX,
        0 <= j < grouped_len(notes),
    ensures
        spec_grouped(notes)[j].midigroup matches Some((id, place, size)) && place < size && id <= j,
        j + 1 < grouped_len(notes) ==> {
            let (id, place, size) = spec_grouped(notes)[j].midigroup.unwrap();
            let (id2, place2, size2) = spec_grouped(notes)[j + 1].midigroup.unwrap();
            (id2 == id && place2 == place + 1 && size2 == size) || (id2 == id + 1 && place2 == 0)
        },
{
    let last = notes.len() - 1;
    lemma_run_bounds(notes, last);
    lemma_run_bounds(notes, j);
    if j + 1 < grouped_len(notes) {
        lemma_run_bounds(notes, j + 1);
        if notes[j + 1].key == notes[j].key {
            assert(run_end(notes, j) == run_end(notes, j + 1));
            assert(run_start(notes, j + 1) == run_start(notes, j));
            assert(group_id(notes, j + 1) == group_id(notes, j));
        } else {
            assert(run_start(notes, j + 1) == j + 1);
            assert(group_id(notes, j + 1) == group_id(notes, j) + 1);
        }
    }
}

} // verus!
