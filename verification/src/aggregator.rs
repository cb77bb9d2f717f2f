//! The aggregator: the one owner of the remap table. It takes the messages of
//! the shared channel in the order of their arrival, turns each input event
//! into at most one event of the virtual pad, and applies the commands of the
//! control channel to the table.

use crate::codes::{axis_domain, domain_of, is_output_button, output_button, EV_ABS, EV_KEY};
use crate::domain::{clamp_i32, remap, remap_value, scale_button};
use crate::event::{EventKind, InputEvent, Output, Reaction, RinputerEvent};
use crate::identity::InputRemap;
use crate::table::{
    default_profile, is_snapshot_of, looked_up, upserted, well_filed, Entries, Entry, RemapTable,
};
use vstd::prelude::*;

verus! {

/// First line of the answer to a print request.
pub const PRINT_HEADER: &'static str = "Config:\n";

/// Whether an axis value has reached the threshold of the stored source: at
/// or above a positive threshold, at or below any other.
pub open spec fn reaches(threshold: i32, value: i32) -> bool {
    if threshold > 0 {
        value >= threshold
    } else {
        value <= threshold
    }
}

/// The threshold that a stored axis source carries.
pub open spec fn threshold_of(source: InputRemap) -> i32 {
    match source {
        InputRemap::Abs(_, trig) => trig,
        _ => 0i32,
    }
}

/// A button event as it leaves: on the virtual pad if the pad has the
/// button, nowhere otherwise.
pub open spec fn button_out(event_type: u16, code: u16, value: i32) -> Output {
    if is_output_button(code) {
        Output::Emit(InputEvent { event_type, code, value })
    } else {
        Output::Nothing
    }
}

/// What becomes of a button event with the entry that the table has for its
/// button.
pub open spec fn button_translated(found: Option<Entry>, ev: InputEvent) -> Output {
    match found {
        None => button_out(ev.event_type, ev.code, ev.value),
        Some((_, InputRemap::Key(new))) => button_out(ev.event_type, new, ev.value),
        Some((_, InputRemap::Abs(axis, scale))) => Output::Emit(
            InputEvent {
                event_type: EV_ABS,
                code: axis,
                value: clamp_i32(scale * ev.value) as i32,
            },
        ),
        Some((_, InputRemap::SteamQuickAccess)) => Output::SpecialAction,
    }
}

/// What becomes of an axis event with the entry that the table has for its
/// axis and the sign of its value.
pub open spec fn axis_translated(found: Option<Entry>, ev: InputEvent) -> Output {
    match found {
        None => Output::Emit(ev),
        Some((source, InputRemap::Key(button))) => Output::Emit(
            InputEvent {
                event_type: EV_KEY,
                code: button,
                value: if reaches(threshold_of(source), ev.value) {
                    1i32
                } else {
                    0i32
                },
            },
        ),
        Some((_, InputRemap::Abs(axis, scale))) => Output::Emit(
            InputEvent {
                event_type: EV_ABS,
                code: axis,
                value: remap_value(
                    ev.value,
                    axis_domain(ev.code).0,
                    axis_domain(ev.code).1,
                    0,
                    scale,
                ) as i32,
            },
        ),
        Some((_, InputRemap::SteamQuickAccess)) => Output::SpecialAction,
    }
}

/// What becomes of an input event under the table `m`.
pub open spec fn translated(m: Entries, ev: InputEvent) -> Output {
    match ev.spec_kind() {
        EventKind::Key(code) => button_translated(looked_up(m, InputRemap::Key(code)), ev),
        EventKind::AbsAxis(code) => axis_translated(
            looked_up(m, InputRemap::Abs(code, ev.value)),
            ev,
        ),
        EventKind::Other => Output::Nothing,
    }
}

/// The table after one message: a mapping request maps, a reset request
/// puts the built-in profile back, anything else leaves the table as it is.
pub open spec fn table_after(m: Entries, msg: RinputerEvent) -> Entries {
    match msg {
        RinputerEvent::ConfigUpdate(from, to) => upserted(m, from, to),
        RinputerEvent::ResetConfig => default_profile(),
        RinputerEvent::InputEvent(_) => m,
        RinputerEvent::PrintConfig => m,
    }
}

/// The table after a run of messages, taken in one after the other.
pub open spec fn table_after_all(m: Entries, msgs: Seq<RinputerEvent>) -> Entries
    decreases msgs.len(),
{
    if msgs.len() == 0 {
        m
    } else {
        table_after(table_after_all(m, msgs.drop_last()), msgs.last())
    }
}

/// Whether a message asks for a change of the table.
pub open spec fn is_mutation(msg: RinputerEvent) -> bool {
    msg is ConfigUpdate || msg is ResetConfig
}

/// Whether `r` is the answer owed to `msg` when it meets the table `m`.
pub open spec fn answers(r: Reaction, m: Entries, msg: RinputerEvent) -> bool {
    match msg {
        RinputerEvent::InputEvent(ev) => r == Reaction::Input(translated(m, ev)),
        RinputerEvent::ConfigUpdate(from, to) => r == Reaction::Updated(from, to),
        RinputerEvent::ResetConfig => r is Reset,
        RinputerEvent::PrintConfig => r matches Reaction::Print(entries) && is_snapshot_of(
            entries@,
            m,
        ),
    }
}

/// Turns a button event into its outcome, given the entry that the table
/// has for the button.
pub fn translate_button(found: Option<Entry>, ev: InputEvent) -> (r: Output)
    ensures
        r == button_translated(found, ev),
{
    let code: u16 = match found {
        None => ev.code,
        Some((_, InputRemap::Key(new))) => new,
        Some((_, InputRemap::Abs(axis, scale))) => {
            return Output::Emit(InputEvent::new(EV_ABS, axis, scale_button(scale, ev.value)));
        },
        Some((_, InputRemap::SteamQuickAccess)) => {
            return Output::SpecialAction;
        },
    };
    if output_button(code) {
        Output::Emit(InputEvent::new(ev.event_type, code, ev.value))
    } else {
        Output::Nothing
    }
}

/// Turns an axis event into its outcome, given the entry that the table has
/// for the axis and the sign of the value. Without an entry the event passes
/// unchanged.
pub fn translate_axis(found: Option<Entry>, ev: InputEvent) -> (r: Output)
    ensures
        r == axis_translated(found, ev),
        found is None ==> r == Output::Emit(ev),
{
    match found {
        None => Output::Emit(ev),
        Some((source, InputRemap::Key(button))) => {
            let threshold: i32 = match source {
                InputRemap::Abs(_, trig) => trig,
                _ => 0,
            };
            let pressed: bool = if ev.value == threshold {
                true
            } else if threshold > 0 {
                ev.value > threshold
            } else {
                ev.value < threshold
            };
            Output::Emit(
                InputEvent::new(
                    EV_KEY,
                    button,
                    if pressed {
                        1
                    } else {
                        0
                    },
                ),
            )
        },
        Some((_, InputRemap::Abs(axis, scale))) => {
            let range: (i32, i32) = domain_of(ev.code);
            Output::Emit(InputEvent::new(EV_ABS, axis, remap(ev.value, range.0, range.1, 0, scale)))
        },
        Some((_, InputRemap::SteamQuickAccess)) => Output::SpecialAction,
    }
}

/// Turns an input event into its outcome under `table`.
pub fn translate(table: &RemapTable, ev: InputEvent) -> (r: Output)
    ensures
        r == translated(table@, ev),
{
    match ev.kind() {
        EventKind::Key(code) => translate_button(table.get_key_value(&InputRemap::Key(code)), ev),
        EventKind::AbsAxis(code) => translate_axis(
            table.get_key_value(&InputRemap::Abs(code, ev.value)),
            ev,
        ),
        EventKind::Other => Output::Nothing,
    }
}

/// The aggregator and its table.
pub struct Aggregator {
    table: RemapTable,
}

impl View for Aggregator {
    type V = Entries;

    closed spec fn view(&self) -> Entries {
        self.table@
    }
}

impl Aggregator {
    /// An aggregator whose table holds the built-in profile.
    pub fn new() -> (r: Aggregator)
        ensures
            r@ == default_profile(),
    {
        Aggregator { table: RemapTable::new() }
    }

    /// The table, to read.
    pub fn table(&self) -> (r: &RemapTable)
        ensures
            r@ == self@,
    {
        &self.table
    }

    /// Takes a run of messages in, in their order, and returns the answers
    /// in the same order.
    pub fn dispatch_all(&mut self, msgs: &Vec<RinputerEvent>) -> (r: Vec<Reaction>)
        ensures
            final(self)@ == table_after_all(old(self)@, msgs@),
            r@.len() == msgs@.len(),
            forall|i: int|
                0 <= i < msgs@.len() ==> answers(
                    #[trigger] r@[i],
                    table_after_all(old(self)@, msgs@.take(i)),
                    msgs@[i],
                ),
    {
        let mut out: Vec<Reaction> = Vec::new();
        let mut n: usize = 0;
        assert(msgs@.take(0) =~= Seq::<RinputerEvent>::empty());
        while n < msgs.len()
            invariant
                n <= msgs@.len(),
                out@.len() == n,
                self@ == table_after_all(old(self)@, msgs@.take(n as int)),
                forall|i: int|
                    0 <= i < n ==> answers(
                        #[trigger] out@[i],
                        table_after_all(old(self)@, msgs@.take(i)),
                        msgs@[i],
                    ),
            decreases msgs@.len() - n,
        {
            let reaction = self.dispatch(msgs[n]);
            out.push(reaction);
            proof {
                let next = msgs@.take(n + 1);
                assert(next.drop_last() =~= msgs@.take(n as int));
                assert(next.last() == msgs@[n as int]);
            }
            n = n + 1;
        }
        assert(msgs@.take(n as int) =~= msgs@);
        out
    }

    /// Takes one message in: changes the table as the message asks and
    /// returns what is to be done outside.
    pub fn dispatch(&mut self, msg: RinputerEvent) -> (r: Reaction)
        ensures
            final(self)@ == table_after(old(self)@, msg),
            answers(r, old(self)@, msg),
    {
        match msg {
            RinputerEvent::InputEvent(ev) => Reaction::Input(translate(&self.table, ev)),
            RinputerEvent::ConfigUpdate(from, to) => {
                self.table.upsert(from, to);
                Reaction::Updated(from, to)
            },
            RinputerEvent::ResetConfig => {
                self.table.reset();
                Reaction::Reset
            },
            RinputerEvent::PrintConfig => Reaction::Print(self.table.snapshot()),
        }
    }
}

/// An axis event whose axis and sign have no entry in the table leaves as
/// it came.
pub proof fn lemma_unmapped_axis_passes(m: Entries, ev: InputEvent)
    requires
        ev.event_type == EV_ABS,
        looked_up(m, InputRemap::Abs(ev.code, ev.value)) is None,
    ensures
        translated(m, ev) == Output::Emit(ev),
{
}

/// Whatever the table held and whatever messages came before, a reset
/// leaves exactly the built-in profile.
pub proof fn lemma_reset_restores_defaults(m: Entries, msgs: Seq<RinputerEvent>)
    ensures
        table_after_all(m, msgs.push(RinputerEvent::ResetConfig)) == default_profile(),
{
    let all = msgs.push(RinputerEvent::ResetConfig);
    assert(all.last() == RinputerEvent::ResetConfig);
}

/// Input events and print requests between the mutations change nothing:
/// after any run of messages the table is what the mutations of that run
/// alone, in their order of arrival, make of it.
pub proof fn lemma_only_mutations_count(m: Entries, msgs: Seq<RinputerEvent>)
    ensures
        table_after_all(m, msgs) == table_after_all(
            m,
            msgs.filter(|msg: RinputerEvent| is_mutation(msg)),
        ),
    decreases msgs.len(),
{
    reveal(Seq::filter);
    let keep = |msg: RinputerEvent| is_mutation(msg);
    if msgs.len() > 0 {
        lemma_only_mutations_count(m, msgs.drop_last());
        if is_mutation(msgs.last()) {
            let kept = msgs.drop_last().filter(keep).push(msgs.last());
            assert(kept.drop_last() =~= msgs.drop_last().filter(keep));
            assert(kept.last() == msgs.last());
        }
    }
}

/// Every table that the messages can lead to from a well-filed one is
/// well filed: no two entries share a bucket, and each entry answers for
/// its own source.
pub proof fn lemma_messages_keep_filing(m: Entries, msgs: Seq<RinputerEvent>)
    requires
        well_filed(m),
    ensures
        well_filed(table_after_all(m, msgs)),
    decreases msgs.len(),
{
    if msgs.len() > 0 {
        lemma_messages_keep_filing(m, msgs.drop_last());
        crate::table::lemma_default_profile_entries();
    }
}

} // verus!
