//! Scanning all sample slots of the device.

use crate::effects::{acts, Act, Effect};
use crate::proto::{HeaderContent, SampleHeader};
use crate::state::{AppState, Content, Row, SampleInfo, TOTAL_SLOTS};
use crate::text::{decimal, decimal_text, law_occurs, occurs};
use vstd::prelude::*;
use vstd::string::*;

verus! {

/// So many slots are scanned between two messages.
pub const SLOTS_PER_MESSAGE: usize = 20;

/// A scan under way.
#[derive(Clone, Copy, Debug, PartialEq, Eq, Structural)]
pub struct Scan {
    /// The slot whose header is to be asked for next.
    pub next_slot: usize,
    /// The number of samples found in the slots before it.
    pub samples_found: usize,
}

impl Scan {
    /// No more samples were found than slots scanned.
    pub open spec fn wf(self) -> bool {
        self.samples_found <= self.next_slot <= TOTAL_SLOTS
    }

    /// All slots were scanned.
    pub fn is_complete(&self) -> (r: bool)
        ensures
            r == (self.next_slot >= TOTAL_SLOTS),
    {
        self.next_slot >= TOTAL_SLOTS
    }
}

/// What is said before a slot is scanned.
pub open spec fn progress_acts(slot: int) -> Seq<Act> {
    if slot % SLOTS_PER_MESSAGE as int == 0 {
        let last = if slot + 19 < TOTAL_SLOTS - 1 {
            slot + 19
        } else {
            TOTAL_SLOTS - 1
        };
        seq![
            Act::Log(
                "Scanning slots "@ + decimal(slot as nat) + "-"@ + decimal(last as nat) + "..."@,
            ),
        ]
    } else {
        Seq::empty()
    }
}

/// What is said when all slots were scanned.
pub open spec fn complete_acts(found: nat) -> Seq<Act> {
    seq![
        Act::Log(
            "Scan complete! Found "@ + decimal(found) + " samples in "@ + decimal(
                TOTAL_SLOTS as nat,
            ) + " slots."@,
        ),
        Act::SetScanning(false),
    ]
}

/// The row of a slot after it was scanned; `None` if the device failed to
/// answer.
pub open spec fn scanned_row(slot: int, reply: Option<HeaderContent>) -> Row {
    match reply {
        Some(header) => Row {
            slot: slot as i32,
            name: if header.length > 0 {
                header.name
            } else {
                "(empty)"@
            },
            length: header.length as i32,
            speed: header.speed as i32,
            has_sample: header.length > 0,
            name_edited: false,
        },
        None => Row {
            slot: slot as i32,
            name: "(error)"@,
            length: 0,
            speed: 0,
            has_sample: false,
            name_edited: false,
        },
    }
}

/// What is done after a slot was scanned: rows that were read are shown, and
/// either the next slot is announced or the scan ends.
pub open spec fn scanned_acts(slot: int, reply: Option<HeaderContent>, found: nat) -> Seq<Act> {
    (if reply is Some {
        seq![Act::ShowSamples]
    } else {
        Seq::empty()
    }) + (if slot + 1 < TOTAL_SLOTS {
        progress_acts(slot + 1)
    } else {
        complete_acts(found)
    })
}

/// One if a reply tells of a sample, else zero.
pub open spec fn counted(reply: Option<HeaderContent>) -> nat {
    match reply {
        Some(header) if header.length > 0 => 1,
        _ => 0,
    }
}

fn push_progress(fx: &mut Vec<Effect>, slot: usize)
    requires
        slot < TOTAL_SLOTS,
    ensures
        acts(final(fx)@) == acts(old(fx)@) + progress_acts(slot as int),
{
    let ghost done = fx@;
    if slot % SLOTS_PER_MESSAGE == 0 {
        let last: usize = if slot + 19 < TOTAL_SLOTS - 1 {
            slot + 19
        } else {
            TOTAL_SLOTS - 1
        };
        fx.push(
            Effect::Log(
                "Scanning slots ".to_owned().concat(decimal_text(slot as u64).as_str()).concat(
                    "-",
                ).concat(decimal_text(last as u64).as_str()).concat("..."),
            ),
        );
    }
    assert(acts(fx@) =~= acts(done) + progress_acts(slot as int));
}

impl AppState {
    /// Scan all sample slots from the device: begins the scan. Without a device
    /// there is none.
    pub fn scan_all_samples(&self, device_present: bool) -> (r: (Vec<Effect>, Option<Scan>))
        ensures
            device_present ==> r.1 == Some(Scan { next_slot: 0, samples_found: 0 }),
            !device_present ==> r.1 is None,
            acts(r.0@) == seq![
                Act::Log("Starting scan of all sample slots..."@),
                Act::SetScanning(true),
            ] + (if device_present {
                progress_acts(0)
            } else {
                seq![Act::Log("Error: No device connected"@), Act::SetScanning(false)]
            }),
    {
        let mut fx: Vec<Effect> = Vec::new();
        fx.push(Effect::Log("Starting scan of all sample slots...".to_owned()));
        fx.push(Effect::SetScanning(true));
        let ghost begun = seq![
            Act::Log("Starting scan of all sample slots..."@),
            Act::SetScanning(true),
        ];
        assert(acts(fx@) =~= begun);
        if device_present {
            push_progress(&mut fx, 0);
            (fx, Some(Scan { next_slot: 0, samples_found: 0 }))
        } else {
            fx.push(Effect::Log("Error: No device connected".to_owned()));
            fx.push(Effect::SetScanning(false));
            assert(acts(fx@) =~= begun + seq![
                Act::Log("Error: No device connected"@),
                Act::SetScanning(false),
            ]);
            (fx, None)
        }
    }

    /// The device has answered for the next slot of a scan, or failed to.
    pub fn slot_scanned(&mut self, scan: &mut Scan, reply: Result<SampleHeader, String>) -> (r: Vec<
        Effect,
    >)
        requires
            old(scan).wf(),
            old(scan).next_slot < TOTAL_SLOTS,
        ensures
            final(scan).wf(),
            final(scan).next_slot == old(scan).next_slot + 1,
            final(scan).samples_found == old(scan).samples_found + counted(reply_content(reply)),
            final(self)@ == old(self)@.with_row(
                old(scan).next_slot as int,
                scanned_row(old(scan).next_slot as int, reply_content(reply)),
            ),
            acts(r@) == scanned_acts(
                old(scan).next_slot as int,
                reply_content(reply),
                final(scan).samples_found as nat,
            ),
    {
        let ghost content = reply_content(reply);
        let mut fx: Vec<Effect> = Vec::new();
        let slot: usize = scan.next_slot;
        match reply {
            Ok(header) => {
                let has_sample = header.length > 0;
                if has_sample {
                    scan.samples_found = scan.samples_found + 1;
                }
                let info = SampleInfo {
                    slot: slot as i32,
                    name: if has_sample {
                        header.name
                    } else {
                        "(empty)".to_owned()
                    },
                    length: #[verifier::truncate] (header.length as i32),
                    speed: header.speed as i32,
                    has_sample,
                    name_edited: false,
                };
                assert(info@ =~= scanned_row(slot as int, content));
                self.set_row(slot, info);
                fx.push(Effect::ShowSamples);
                assert(acts(fx@) =~= seq![Act::ShowSamples]);
            },
            Err(_) => {
                let info = SampleInfo {
                    slot: slot as i32,
                    name: "(error)".to_owned(),
                    length: 0,
                    speed: 0,
                    has_sample: false,
                    name_edited: false,
                };
                assert(info@ =~= scanned_row(slot as int, content));
                self.set_row(slot, info);
                assert(acts(fx@) =~= Seq::<Act>::empty());
            },
        }
        scan.next_slot = slot + 1;
        let ghost shown = acts(fx@);
        if scan.next_slot < TOTAL_SLOTS {
            push_progress(&mut fx, slot + 1);
        } else {
            fx.push(
                Effect::Log(
                    "Scan complete! Found ".to_owned().concat(
                        decimal_text(scan.samples_found as u64).as_str(),
                    ).concat(" samples in ").concat(
                        decimal_text(TOTAL_SLOTS as u64).as_str(),
                    ).concat(" slots."),
                ),
            );
            fx.push(Effect::SetScanning(false));
            assert(acts(fx@) =~= shown + complete_acts(scan.samples_found as nat));
        }
        fx
    }
}

/// The header in a reply.
pub open spec fn reply_content(reply: Result<SampleHeader, String>) -> Option<HeaderContent> {
    match reply {
        Ok(header) => Some(header@),
        Err(_) => None,
    }
}

/// The state after the slots from the first on were scanned with these replies.
pub open spec fn after_scan(state: Content, replies: Seq<Option<HeaderContent>>) -> Content
    decreases replies.len(),
{
    if replies.len() == 0 {
        state
    } else {
        after_scan(state, replies.drop_last()).with_row(
            replies.len() - 1,
            scanned_row(replies.len() - 1, replies.last()),
        )
    }
}

/// How many of the replies tell of a sample.
pub open spec fn samples_in(replies: Seq<Option<HeaderContent>>) -> nat
    decreases replies.len(),
{
    if replies.len() == 0 {
        0
    } else {
        samples_in(replies.drop_last()) + counted(replies.last())
    }
}

/// A scan fills the row of each slot from the reply for that slot, and from no
/// other; what is not scanned yet, and everything but the rows, stays.
pub proof fn law_scan_fills_rows(state: Content, replies: Seq<Option<HeaderContent>>)
    requires
        state.wf(),
        replies.len() <= TOTAL_SLOTS,
    ensures
        after_scan(state, replies).wf(),
        forall|slot: int|
            0 <= slot < replies.len() ==> #[trigger] after_scan(state, replies).rows[slot]
                == scanned_row(slot, replies[slot]),
        forall|slot: int|
            replies.len() <= slot < TOTAL_SLOTS ==> #[trigger] after_scan(state, replies).rows[slot]
                == state.rows[slot],
        after_scan(state, replies) == (Content { rows: after_scan(state, replies).rows, ..state }),
    decreases replies.len(),
{
    if replies.len() > 0 {
        let front = replies.drop_last();
        law_scan_fills_rows(state, front);
        assert forall|slot: int| 0 <= slot < replies.len() implies #[trigger] after_scan(
            state,
            replies,
        ).rows[slot] == scanned_row(slot, replies[slot]) by {
            if slot < front.len() {
                assert(front[slot] == replies[slot]);
                assert(after_scan(state, front).rows[slot] == scanned_row(slot, front[slot]));
            }
        }
        assert forall|slot: int| replies.len() <= slot < TOTAL_SLOTS implies #[trigger] after_scan(
            state,
            replies,
        ).rows[slot] == state.rows[slot] by {
            assert(after_scan(state, front).rows[slot] == state.rows[slot]);
        }
    }
}

/// The number of samples that a scan reports is the number of slots that have a
/// sample after it.
pub proof fn law_scan_counts_samples(state: Content, replies: Seq<Option<HeaderContent>>)
    requires
        state.wf(),
        replies.len() <= TOTAL_SLOTS,
    ensures
        samples_in(replies) == Set::new(
            |slot: int| 0 <= slot < replies.len() && after_scan(state, replies).has_sample(slot),
        ).len(),
        samples_in(replies) <= replies.len(),
    decreases replies.len(),
{
    let after = after_scan(state, replies);
    let filled = Set::new(|slot: int| 0 <= slot < replies.len() && after.has_sample(slot));
    law_scan_fills_rows(state, replies);
    if replies.len() == 0 {
        assert(filled =~= Set::empty());
    } else {
        let front = replies.drop_last();
        let last = replies.len() - 1;
        let earlier = after_scan(state, front);
        let before = Set::new(|slot: int| 0 <= slot < front.len() && earlier.has_sample(slot));
        law_scan_counts_samples(state, front);
        law_scan_fills_rows(state, front);
        assert forall|slot: int| 0 <= slot < last implies after.has_sample(slot)
            == earlier.has_sample(slot) by {
            assert(front[slot] == replies[slot]);
            assert(after.rows[slot] == earlier.rows[slot]);
        }
        assert(after.rows[last] == scanned_row(last, replies[last]));
        lemma_bounded_is_finite(before, front.len());
        if after.has_sample(last) {
            assert(filled =~= before.insert(last));
        } else {
            assert(filled =~= before);
        }
    }
}

proof fn lemma_bounded_is_finite(s: Set<int>, n: nat)
    requires
        forall|i: int| s.contains(i) ==> 0 <= i < n,
    ensures
        s.finite(),
{
    vstd::set_lib::lemma_int_range(0, n as int);
    vstd::set_lib::lemma_set_subset_finite(vstd::set_lib::set_int_range(0, n as int), s);
}

/// A slot has a sample after a scan exactly if the device answered for it with a
/// length above zero; it then bears the name, the length and the speed that the
/// device gave, is not marked as edited, and is counted. A row always has the
/// number of its slot.
pub proof fn law_row_is_the_answer(slot: int, reply: Option<HeaderContent>)
    requires
        0 <= slot < TOTAL_SLOTS,
    ensures
        ({
            let row = scanned_row(slot, reply);
            let present = reply matches Some(h) && h.length > 0;
            &&& row.has_sample == present
            &&& counted(reply) == (if present {
                1nat
            } else {
                0nat
            })
            &&& row.slot == slot
            &&& !row.name_edited
            &&& reply matches Some(h) ==> {
                &&& h.length <= i32::MAX ==> row.length == h.length
                &&& row.speed == h.speed
                &&& h.length > 0 ==> row.name == h.name
                &&& h.length == 0 ==> row.name == "(empty)"@
            }
            &&& reply is None ==> row.length == 0 && row.speed == 0 && row.name == "(error)"@
        }),
{
}

/// A scan reports as many samples as slots were answered for with a length above
/// zero: one more for each such answer, none for any other.
pub proof fn law_each_sample_is_counted(
    replies: Seq<Option<HeaderContent>>,
    reply: Option<HeaderContent>,
)
    ensures
        samples_in(Seq::empty()) == 0,
        (reply matches Some(h) && h.length > 0) ==> samples_in(replies.push(reply)) == samples_in(
            replies,
        ) + 1,
        !(reply matches Some(h) && h.length > 0) ==> samples_in(replies.push(reply)) == samples_in(
            replies,
        ),
{
    assert(replies.push(reply).drop_last() =~= replies);
}

/// While slots are left a scan goes on; after the last one it ends. Rows are
/// shown after each answer. Every twentieth slot is announced.
pub proof fn law_scan_goes_on(slot: int, reply: Option<HeaderContent>, found: nat, on: bool)
    requires
        0 <= slot < 200,
    ensures
        scanned_acts(slot, reply, found).contains(Act::ShowSamples) <==> reply is Some,
        scanned_acts(slot, reply, found).contains(Act::SetScanning(on)) <==> slot == 199 && !on,
        progress_acts(slot).len() == (if slot % 20 == 0 {
            1nat
        } else {
            0nat
        }),
{
    let done = scanned_acts(slot, reply, found);
    if reply is Some {
        assert(done[0] == Act::ShowSamples);
    }
    if slot == 199 {
        assert(done.last() == Act::SetScanning(false));
    }
}

/// An answer that came is what is taken for one.
pub proof fn law_reply_is_the_answer(reply: Result<SampleHeader, String>)
    ensures
        reply matches Ok(h) ==> reply_content(reply) == Some(h@),
        reply is Err ==> reply_content(reply) is None,
{
}

/// At the end it is said how many samples were found; before every twentieth slot
/// it is said which slots come next: that one and up to nineteen after it.
pub proof fn law_scan_says_what_it_finds(slot: int, found: nat)
    requires
        0 <= slot < 200,
        slot % 20 == 0,
    ensures
        complete_acts(found)[0] matches Act::Log(text) && occurs(decimal(found), text),
        progress_acts(slot)[0] matches Act::Log(text) && occurs(
            decimal(slot as nat) + "-"@ + decimal((slot + 19) as nat),
            text,
        ),
{
    let a = "Scan complete! Found "@;
    let b = " samples in "@ + decimal(TOTAL_SLOTS as nat) + " slots."@;
    law_occurs(decimal(found), a, b, a);
    assert(a + decimal(found) + b =~= a + decimal(found) + " samples in "@ + decimal(
        TOTAL_SLOTS as nat,
    ) + " slots."@);
    let range = decimal(slot as nat) + "-"@ + decimal((slot + 19) as nat);
    let c = "Scanning slots "@;
    law_occurs(range, c, "..."@, c);
    assert(c + range + "..."@ =~= c + decimal(slot as nat) + "-"@ + decimal((slot + 19) as nat)
        + "..."@);
}

} // verus!
