//! The state of the application: the slots, the log, and the audio data that
//! was downloaded or loaded.

use crate::audio::{OriginalContent, OriginalSample, UNITY_SPEED};
use crate::text::{join_lines, joined, texts};
use std::collections::HashMap;
use vstd::prelude::*;
use vstd::string::*;

verus! {

/// The number of sample slots of the device.
pub const TOTAL_SLOTS: usize = 200;

/// What is shown of a sample slot.
#[derive(Debug)]
pub struct SampleInfo {
    pub slot: i32,
    pub name: String,
    pub length: i32,
    pub speed: i32,
    pub has_sample: bool,
    /// The name was changed and not yet saved to the device.
    pub name_edited: bool,
}

/// The content of a [`SampleInfo`].
#[verifier::ext_equal]
pub struct Row {
    pub slot: i32,
    pub name: Seq<char>,
    pub length: i32,
    pub speed: i32,
    pub has_sample: bool,
    pub name_edited: bool,
}

impl View for SampleInfo {
    type V = Row;

    open spec fn view(&self) -> Row {
        Row {
            slot: self.slot,
            name: self.name@,
            length: self.length,
            speed: self.speed,
            has_sample: self.has_sample,
            name_edited: self.name_edited,
        }
    }
}

impl SampleInfo {
    /// Makes a copy.
    pub fn duplicate(&self) -> (r: SampleInfo)
        ensures
            r@ == self@,
    {
        SampleInfo {
            slot: self.slot,
            name: self.name.clone(),
            length: self.length,
            speed: self.speed,
            has_sample: self.has_sample,
            name_edited: self.name_edited,
        }
    }
}

/// A playback that is under way: when it began, in nanoseconds of the
/// application's clock, how many samples it has and how many of them are played
/// per second.
#[derive(Clone, Copy, Debug, PartialEq, Eq, Structural)]
pub struct PlaybackInfo {
    pub started_ns: u64,
    pub sample_count: usize,
    pub rate: u32,
}

/// The state of the application.
pub struct AppState {
    pub samples: Vec<SampleInfo>,
    pub connected: bool,
    pub firmware_version: String,
    pub logs: Vec<String>,
    pub downloaded_samples: HashMap<u8, OriginalSample>,
    /// A playback was started that can still be told to stop.
    pub can_stop: bool,
    pub is_playing: bool,
    pub playback_info: Option<PlaybackInfo>,
}

/// The content of an [`AppState`].
#[verifier::ext_equal]
pub struct Content {
    pub rows: Seq<Row>,
    pub connected: bool,
    pub firmware_version: Seq<char>,
    pub logs: Seq<Seq<char>>,
    pub downloaded: Map<u8, OriginalContent>,
    pub can_stop: bool,
    pub is_playing: bool,
    pub playback_info: Option<PlaybackInfo>,
}

/// The contents of some slots.
pub open spec fn rows_of(samples: Seq<SampleInfo>) -> Seq<Row> {
    samples.map_values(|s: SampleInfo| s@)
}

/// The contents of the audio data by slot.
pub open spec fn contents_of(downloaded: Map<u8, OriginalSample>) -> Map<u8, OriginalContent> {
    downloaded.map_values(|s: OriginalSample| s@)
}

impl View for AppState {
    type V = Content;

    open spec fn view(&self) -> Content {
        Content {
            rows: rows_of(self.samples@),
            connected: self.connected,
            firmware_version: self.firmware_version@,
            logs: texts(self.logs@),
            downloaded: contents_of(self.downloaded_samples@),
            can_stop: self.can_stop,
            is_playing: self.is_playing,
            playback_info: self.playback_info,
        }
    }
}

/// A slot of which nothing is known.
pub open spec fn empty_row(slot: i32) -> Row {
    Row {
        slot,
        name: Seq::empty(),
        length: 0,
        speed: 0,
        has_sample: false,
        name_edited: false,
    }
}

/// The state at the start.
pub open spec fn initial() -> Content {
    Content {
        rows: Seq::new(TOTAL_SLOTS as nat, |i: int| empty_row(i as i32)),
        connected: false,
        firmware_version: Seq::empty(),
        logs: Seq::empty(),
        downloaded: Map::empty(),
        can_stop: false,
        is_playing: false,
        playback_info: None,
    }
}

impl Content {
    /// There is a row for every slot of the device.
    pub open spec fn wf(self) -> bool {
        self.rows.len() == TOTAL_SLOTS
    }

    /// `slot` is the number of a slot.
    pub open spec fn has_slot(self, slot: int) -> bool {
        0 <= slot < self.rows.len()
    }

    /// There is a sample in the slot.
    pub open spec fn has_sample(self, slot: int) -> bool {
        self.has_slot(slot) && self.rows[slot].has_sample
    }

    /// The state with one row replaced; the same if there is no such row.
    pub open spec fn with_row(self, slot: int, row: Row) -> Content {
        if self.has_slot(slot) {
            Content { rows: self.rows.update(slot, row), ..self }
        } else {
            self
        }
    }

    /// The state with audio data kept for a slot.
    pub open spec fn with_audio(self, slot: u8, audio: OriginalContent) -> Content {
        Content { downloaded: self.downloaded.insert(slot, audio), ..self }
    }

    /// The state with no audio data for a slot.
    pub open spec fn without_audio(self, slot: u8) -> Content {
        Content { downloaded: self.downloaded.remove(slot), ..self }
    }
}

/// The samples that stand in for those of a device: slot, name and length.
pub open spec fn mock_samples() -> Seq<(int, Seq<char>, i32)> {
    seq![
        (0, "Kick"@, 31250),
        (1, "Snare"@, 15625),
        (2, "HiHat"@, 7812),
        (4, "Clap"@, 12500),
        (6, "Perc"@, 10000),
        (7, "Bass"@, 62500),
        (10, "Synth"@, 93750),
        (12, "FX"@, 20000),
        (13, "Vox"@, 156250),
        (15, "Loop"@, 125000),
        (16, "Drum"@, 31250),
        (25, "Tom"@, 25000),
        (50, "Crash"@, 50000),
        (99, "Ambient"@, 200000),
        (100, "Lead"@, 80000),
        (150, "Pad"@, 180000),
        (199, "Noise"@, 15000),
    ]
}

/// The row of a mock sample.
pub open spec fn mock_row(sample: (int, Seq<char>, i32)) -> Row {
    Row {
        slot: sample.0 as i32,
        name: sample.1,
        length: sample.2,
        speed: UNITY_SPEED as i32,
        has_sample: true,
        name_edited: false,
    }
}

/// A state after the first `n` mock samples were put into their slots.
pub open spec fn with_mock_samples(state: Content, n: nat) -> Content
    decreases n,
{
    if n == 0 {
        state
    } else {
        let sample = mock_samples()[n - 1];
        with_mock_samples(state, (n - 1) as nat).with_row(sample.0, mock_row(sample))
    }
}

impl AppState {
    pub fn new() -> (r: AppState)
        ensures
            r@ == initial(),
            r@.wf(),
    {
        let mut samples: Vec<SampleInfo> = Vec::new();
        let mut i: usize = 0;
        while i < TOTAL_SLOTS
            invariant
                i <= TOTAL_SLOTS,
                rows_of(samples@) == initial().rows.take(i as int),
            decreases TOTAL_SLOTS - i,
        {
            let info = SampleInfo {
                slot: i as i32,
                name: String::new(),
                length: 0,
                speed: 0,
                has_sample: false,
                name_edited: false,
            };
            let ghost before = samples@;
            samples.push(info);
            assert(rows_of(samples@) =~= rows_of(before).push(empty_row(i as i32)));
            i = i + 1;
            assert(rows_of(samples@) =~= initial().rows.take(i as int));
        }
        let r = AppState {
            samples,
            connected: false,
            firmware_version: String::new(),
            logs: Vec::new(),
            downloaded_samples: HashMap::new(),
            can_stop: false,
            is_playing: false,
            playback_info: None,
        };
        proof {
            broadcast use vstd::std_specs::hash::group_hash_axioms;

            assert(initial().rows.take(TOTAL_SLOTS as int) =~= initial().rows);
            assert(r@.logs =~= Seq::<Seq<char>>::empty());
            assert(r@.downloaded =~= Map::<u8, OriginalContent>::empty());
        }
        r
    }

    /// Replaces the row of a slot; does nothing if there is no such row.
    pub fn set_row(&mut self, slot: usize, info: SampleInfo)
        ensures
            final(self)@ == old(self)@.with_row(slot as int, info@),
    {
        let ghost before = self@;
        if slot < self.samples.len() {
            self.samples.set(slot, info);
            assert(self@.rows =~= before.rows.update(slot as int, info@));
        }
        assert(self@ =~= before.with_row(slot as int, info@));
    }

    pub fn update_sample(&mut self, slot: i32, info: SampleInfo)
        requires
            old(self)@.wf(),
        ensures
            final(self)@ == old(self)@.with_row(slot as int, info@),
            final(self)@.wf(),
    {
        if slot >= 0 && (slot as usize) < TOTAL_SLOTS {
            self.set_row(slot as usize, info);
        }
    }

    pub fn get_sample(&self, slot: i32) -> (r: Option<SampleInfo>)
        ensures
            match r {
                Some(info) => self@.has_slot(slot as int) && info@ == self@.rows[slot as int],
                None => !self@.has_slot(slot as int),
            },
    {
        if slot >= 0 && (slot as usize) < self.samples.len() {
            Some(self.samples[slot as usize].duplicate())
        } else {
            None
        }
    }

    /// Appends a message to the log, with the time of day it came at. Returns
    /// the text of the whole log.
    pub fn log(&mut self, timestamp: &str, message: &str) -> (r: String)
        ensures
            final(self)@ == (Content {
                logs: old(self)@.logs.push("["@ + timestamp@ + "] "@ + message@),
                ..old(self)@
            }),
            r@ == joined(final(self)@.logs),
    {
        let ghost before = self@;
        let line: String = "[".to_owned().concat(timestamp).concat("] ").concat(message);
        self.logs.push(line);
        assert(self@.logs =~= before.logs.push(line@));
        join_lines(&self.logs)
    }

    /// Keeps audio data for a slot.
    pub fn keep_audio(&mut self, slot: u8, audio: OriginalSample)
        ensures
            final(self)@ == old(self)@.with_audio(slot, audio@),
    {
        let ghost before = self@;
        self.downloaded_samples.insert(slot, audio);
        proof {
            broadcast use vstd::std_specs::hash::group_hash_axioms;

            assert(self@.downloaded =~= before.downloaded.insert(slot, audio@));
        }
    }

    /// The audio data kept for a slot.
    pub fn audio_of(&self, slot: u8) -> (r: Option<&OriginalSample>)
        ensures
            match r {
                Some(audio) => self@.downloaded.dom().contains(slot) && audio@
                    == self@.downloaded[slot],
                None => !self@.downloaded.dom().contains(slot),
            },
    {
        broadcast use vstd::std_specs::hash::group_hash_axioms;

        self.downloaded_samples.get(&slot)
    }

    /// Forgets the audio data kept for a slot.
    pub fn forget_audio(&mut self, slot: u8)
        ensures
            final(self)@ == old(self)@.without_audio(slot),
    {
        let ghost before = self@;
        self.downloaded_samples.remove(&slot);
        proof {
            broadcast use vstd::std_specs::hash::group_hash_axioms;

            assert(self@.downloaded =~= before.downloaded.remove(slot));
        }
    }

    /// Puts mock sample `n` into its slot, after those before it.
    fn set_mock(
        &mut self,
        slot: i32,
        name: &str,
        length: i32,
        Ghost(n): Ghost<nat>,
        Ghost(base): Ghost<Content>,
    )
        requires
            0 <= n < mock_samples().len(),
            mock_samples()[n as int] == (slot as int, name@, length),
            old(self)@ == with_mock_samples(base, n),
            0 <= slot,
        ensures
            final(self)@ == with_mock_samples(base, n + 1),
    {
        let info = SampleInfo {
            slot,
            name: name.to_owned(),
            length,
            speed: UNITY_SPEED as i32,
            has_sample: true,
            name_edited: false,
        };
        self.set_row(slot as usize, info);
    }

    /// Load mock data for testing UI.
    pub fn load_mock_data(&mut self)
        ensures
            final(self)@ == with_mock_samples(old(self)@, mock_samples().len()),
    {
        let ghost base = self@;
        self.set_mock(0, "Kick", 31250, Ghost(0), Ghost(base));
        self.set_mock(1, "Snare", 15625, Ghost(1), Ghost(base));
        self.set_mock(2, "HiHat", 7812, Ghost(2), Ghost(base));
        self.set_mock(4, "Clap", 12500, Ghost(3), Ghost(base));
        self.set_mock(6, "Perc", 10000, Ghost(4), Ghost(base));
        self.set_mock(7, "Bass", 62500, Ghost(5), Ghost(base));
        self.set_mock(10, "Synth", 93750, Ghost(6), Ghost(base));
        self.set_mock(12, "FX", 20000, Ghost(7), Ghost(base));
        self.set_mock(13, "Vox", 156250, Ghost(8), Ghost(base));
        self.set_mock(15, "Loop", 125000, Ghost(9), Ghost(base));
        self.set_mock(16, "Drum", 31250, Ghost(10), Ghost(base));
        self.set_mock(25, "Tom", 25000, Ghost(11), Ghost(base));
        self.set_mock(50, "Crash", 50000, Ghost(12), Ghost(base));
        self.set_mock(99, "Ambient", 200000, Ghost(13), Ghost(base));
        self.set_mock(100, "Lead", 80000, Ghost(14), Ghost(base));
        self.set_mock(150, "Pad", 180000, Ghost(15), Ghost(base));
        self.set_mock(199, "Noise", 15000, Ghost(16), Ghost(base));
    }
}

/// A row that was set is the one that is found; no other row changes, nor
/// anything else, and a slot that the device does not have changes nothing.
pub proof fn law_set_then_get(state: Content, slot: int, row: Row)
    requires
        state.wf(),
    ensures
        state.with_row(slot, row).wf(),
        0 <= slot < TOTAL_SLOTS ==> state.with_row(slot, row).rows[slot] == row,
        !(0 <= slot < TOTAL_SLOTS) ==> state.with_row(slot, row) == state,
        forall|other: int|
            0 <= other < TOTAL_SLOTS && other != slot ==> state.with_row(slot, row).rows[other]
                == state.rows[other],
        state.with_row(slot, row) == (Content { rows: state.with_row(slot, row).rows, ..state }),
{
}

/// `slot` is one of the slots of the first `n` mock samples.
pub open spec fn is_mock_slot(slot: int, n: nat) -> bool {
    exists|k: int| 0 <= k < n && (#[trigger] mock_samples()[k]).0 == slot
}

proof fn lemma_mock_rows(state: Content, n: nat)
    requires
        state.wf(),
        n <= mock_samples().len(),
    ensures
        with_mock_samples(state, n).wf(),
        with_mock_samples(state, n) == (Content {
            rows: with_mock_samples(state, n).rows,
            ..state
        }),
        forall|k: int|
            0 <= k < n ==> with_mock_samples(state, n).rows[(#[trigger] mock_samples()[k]).0]
                == mock_row(mock_samples()[k]),
        forall|slot: int|
            0 <= slot < TOTAL_SLOTS && !is_mock_slot(slot, n) ==> #[trigger] with_mock_samples(
                state,
                n,
            ).rows[slot] == state.rows[slot],
    decreases n,
{
    if n > 0 {
        let m = (n - 1) as nat;
        lemma_mock_rows(state, m);
        assert(forall|i: int, j: int|
            0 <= i < j < 17 ==> (#[trigger] mock_samples()[i]).0 < (#[trigger] mock_samples()[j]).0);
        assert(0 <= mock_samples()[m as int].0 < TOTAL_SLOTS);
        assert forall|slot: int|
            0 <= slot < TOTAL_SLOTS && !is_mock_slot(slot, n) implies #[trigger] with_mock_samples(
            state,
            n,
        ).rows[slot] == state.rows[slot] by {
            assert(mock_samples()[m as int].0 != slot);
            assert(!is_mock_slot(slot, m));
            assert(with_mock_samples(state, m).rows[slot] == state.rows[slot]);
        }
    }
}

/// The mock data is in the slots it names, and in no others; everything else
/// stays.
pub proof fn law_mock_data(state: Content)
    requires
        state.wf(),
    ensures
        ({
            let n = mock_samples().len();
            let filled = with_mock_samples(state, n);
            &&& filled.wf()
            &&& filled == (Content { rows: filled.rows, ..state })
            &&& forall|k: int|
                0 <= k < n ==> filled.rows[(#[trigger] mock_samples()[k]).0] == mock_row(
                    mock_samples()[k],
                )
            &&& forall|slot: int|
                0 <= slot < TOTAL_SLOTS && !is_mock_slot(slot, n) ==> #[trigger] filled.rows[slot]
                    == state.rows[slot]
        }),
{
    lemma_mock_rows(state, mock_samples().len());
}

/// Loading the mock data once more changes nothing.
pub proof fn law_mock_data_again(state: Content)
    requires
        state.wf(),
    ensures
        ({
            let n = mock_samples().len();
            let filled = with_mock_samples(state, n);
            with_mock_samples(filled, n) == filled
        }),
{
    let n = mock_samples().len();
    let filled = with_mock_samples(state, n);
    let again = with_mock_samples(filled, n);
    law_mock_data(state);
    law_mock_data(filled);
    assert forall|slot: int| 0 <= slot < TOTAL_SLOTS implies again.rows[slot]
        == filled.rows[slot] by {
        if is_mock_slot(slot, n) {
            let k = choose|k: int| 0 <= k < n && (#[trigger] mock_samples()[k]).0 == slot;
            assert(filled.rows[mock_samples()[k].0] == mock_row(mock_samples()[k]));
            assert(again.rows[mock_samples()[k].0] == mock_row(mock_samples()[k]));
        }
    }
    assert(again.rows =~= filled.rows);
}

/// The content of a row has all that the row holds, and that of a state all that
/// the state holds, row by row, line by line and slot by slot.
pub proof fn law_content_of_state(info: SampleInfo, state: AppState, i: int, slot: u8)
    ensures
        info@.slot == info.slot,
        info@.name == info.name@,
        info@.length == info.length,
        info@.speed == info.speed,
        info@.has_sample == info.has_sample,
        info@.name_edited == info.name_edited,
        state@.rows.len() == state.samples@.len(),
        0 <= i < state.samples@.len() ==> state@.rows[i] == state.samples@[i]@,
        state@.logs.len() == state.logs@.len(),
        0 <= i < state.logs@.len() ==> state@.logs[i] == state.logs@[i]@,
        state@.downloaded.dom().contains(slot) == state.downloaded_samples@.dom().contains(slot),
        state.downloaded_samples@.dom().contains(slot) ==> state@.downloaded[slot]
            == state.downloaded_samples@[slot]@,
        state@.connected == state.connected,
        state@.firmware_version == state.firmware_version@,
        state@.can_stop == state.can_stop,
        state@.is_playing == state.is_playing,
        state@.playback_info == state.playback_info,
{
}

/// At the start there are two hundred slots, each under its own number and none
/// with a sample, and nothing is connected, kept, said or played.
pub proof fn law_starts_empty(slot: int)
    ensures
        initial().rows.len() == 200,
        0 <= slot < 200 ==> {
            let row = initial().rows[slot];
            &&& row.slot == slot
            &&& row.name.len() == 0
            &&& row.length == 0
            &&& row.speed == 0
            &&& !row.has_sample
            &&& !row.name_edited
        },
        forall|key: u8| !initial().downloaded.dom().contains(key),
        initial().logs.len() == 0,
        !initial().connected,
        !initial().is_playing,
        !initial().can_stop,
        initial().playback_info is None,
{
}

/// A slot has a sample exactly if it is one of the rows and its row says so.
pub proof fn law_sample_of_slot(state: Content, slot: int)
    ensures
        state.has_sample(slot) <==> 0 <= slot < state.rows.len() && state.rows[slot].has_sample,
        state.has_slot(slot) <==> 0 <= slot < state.rows.len(),
        state.wf() <==> state.rows.len() == 200,
{
}

/// Audio data that is kept for a slot is what is found there; that of other slots
/// stays, and so does everything else. Forgetting it takes it away and nothing
/// else.
pub proof fn law_keep_then_find(state: Content, slot: u8, audio: OriginalContent, other: u8)
    ensures
        ({
            let kept = state.with_audio(slot, audio);
            let forgotten = state.without_audio(slot);
            &&& kept.downloaded.dom().contains(slot)
            &&& kept.downloaded[slot] == audio
            &&& !forgotten.downloaded.dom().contains(slot)
            &&& other != slot ==> {
                &&& kept.downloaded.dom().contains(other) == state.downloaded.dom().contains(other)
                &&& kept.downloaded[other] == state.downloaded[other]
                &&& forgotten.downloaded.dom().contains(other) == state.downloaded.dom().contains(
                    other,
                )
                &&& state.downloaded.dom().contains(other) ==> forgotten.downloaded[other]
                    == state.downloaded[other]
            }
            &&& kept == (Content { downloaded: kept.downloaded, ..state })
            &&& forgotten == (Content { downloaded: forgotten.downloaded, ..state })
        }),
{
}

/// The mock samples stand in different slots of the device, have names and
/// lengths, play at unity speed and count as saved samples.
pub proof fn law_mock_samples_are_samples(i: int, j: int)
    requires
        0 <= i < j < mock_samples().len(),
    ensures
        0 <= mock_samples()[i].0 < mock_samples()[j].0 < 200,
        mock_row(mock_samples()[i]) == (Row {
            slot: mock_samples()[i].0 as i32,
            name: mock_samples()[i].1,
            length: mock_samples()[i].2,
            speed: 16384,
            has_sample: true,
            name_edited: false,
        }),
        mock_samples()[i].2 > 0,
        mock_samples()[j].2 > 0,
        mock_samples().len() == 17,
{
}

} // verus!
