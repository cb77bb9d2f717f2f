//! Start-up profiles: a configuration lists devices by the identity strings
//! of their firmware, each with the remaps to begin with, and the first
//! entry that fits the machine is applied.

use crate::event::RinputerEvent;
use crate::identity::InputRemap;
use crate::text::{contains, first_line, occurs_in, same_text, take_first_line};
use vstd::prelude::*;
use vstd::string::StringExecFns;

verus! {

/// What stands for an identity string that could not be read.
pub const UNREADABLE: &'static str = "<failed to read>";

/// Default of the switches of a profile.
pub fn bool_false() -> (r: bool)
    ensures
        !r,
{
    false
}

/// Default of the count of workaround combinations of a profile.
pub fn i32_0() -> (r: i32)
    ensures
        r == 0,
{
    0
}

/// A profile chosen by the identity strings of the firmware.
#[derive(Debug)]
pub struct DmiStrings {
    pub display_name: String,
    pub board_vendor: Option<String>,
    pub board_name: Option<String>,
    pub product_vendor: Option<String>,
    pub product_name: Option<String>,
    pub enable_i8042: bool,
    /// Compare the two names by containment, either way, not by equality.
    pub relaxed_name: bool,
    /// Compare the two vendors by containment, either way, not by equality.
    pub relaxed_vendor: bool,
    pub remap: Vec<(InputRemap, InputRemap)>,
    pub workaround_combinations: i32,
}

/// A profile chosen by a device tree compatible string.
#[derive(Debug)]
pub struct DtStrings {
    pub display_name: String,
    pub compatible: String,
    pub remap: Vec<(InputRemap, InputRemap)>,
}

/// A configuration: the remaps for every machine and the profiles.
#[derive(Debug)]
pub struct RinputerConfig {
    pub global_remap: Vec<(InputRemap, InputRemap)>,
    pub dmi_strings: Vec<DmiStrings>,
    pub dt_strings: Vec<DtStrings>,
}

/// The identity strings that the firmware of the machine reports.
#[derive(Debug)]
pub struct DmiIds {
    pub product_name: String,
    pub product_vendor: String,
    pub board_name: String,
    pub board_vendor: String,
}

/// Whether the string `x` of the machine fits what a profile asks for. A
/// profile that asks for nothing fits. Otherwise the two are equal or, when
/// `relaxed`, one holds the other.
pub open spec fn str_matches(inp: Option<String>, x: Seq<char>, relaxed: bool) -> bool {
    match inp {
        Some(template) => if relaxed {
            occurs_in(template@, x) || occurs_in(x, template@)
        } else {
            template@ == x
        },
        None => true,
    }
}

/// Whether a profile fits the machine: both names and both vendors fit.
pub open spec fn profile_matches(dev: DmiStrings, ids: DmiIds) -> bool {
    &&& str_matches(dev.product_name, ids.product_name@, dev.relaxed_name)
    &&& str_matches(dev.product_vendor, ids.product_vendor@, dev.relaxed_vendor)
    &&& str_matches(dev.board_name, ids.board_name@, dev.relaxed_name)
    &&& str_matches(dev.board_vendor, ids.board_vendor@, dev.relaxed_vendor)
}

/// Whether the profile at `i` is the first that fits the machine.
pub open spec fn first_match_at(profiles: Seq<DmiStrings>, ids: DmiIds, i: int) -> bool {
    &&& 0 <= i < profiles.len()
    &&& profile_matches(profiles[i], ids)
    &&& forall|j: int| 0 <= j < i ==> !profile_matches(#[trigger] profiles[j], ids)
}

/// The place of the first profile that fits the machine, if one fits.
pub open spec fn selected(profiles: Seq<DmiStrings>, ids: DmiIds) -> Option<int> {
    if exists|i: int| first_match_at(profiles, ids, i) {
        Some(choose|i: int| first_match_at(profiles, ids, i))
    } else {
        None
    }
}

/// The mapping requests that a list of remaps gives, one for each remap, in
/// their order.
pub open spec fn requests_of(remaps: Seq<(InputRemap, InputRemap)>) -> Seq<RinputerEvent> {
    Seq::new(remaps.len(), |i: int| RinputerEvent::ConfigUpdate(remaps[i].0, remaps[i].1))
}

/// The identity string in the content of a firmware file: its first line,
/// or the stand-in where the file could not be read or is empty.
pub open spec fn dmi_string(content: Option<String>) -> Seq<char> {
    match content {
        Some(text) => match first_line(text@) {
            Some(line) => line,
            None => UNREADABLE@,
        },
        None => UNREADABLE@,
    }
}

/// Takes the identity string out of the content of a firmware file, where
/// `None` stands for a file that could not be read.
pub fn get_dmi(content: &Option<String>) -> (r: String)
    ensures
        r@ == dmi_string(*content),
{
    match content {
        Some(text) => match take_first_line(text.as_str()) {
            Some(line) => String::from_str(line),
            None => String::from_str(UNREADABLE),
        },
        None => String::from_str(UNREADABLE),
    }
}

/// Tells whether the string `x` of the machine fits what a profile asks
/// for.
pub fn match_str(inp: &Option<String>, x: &str, relaxed: bool) -> (r: bool)
    ensures
        r == str_matches(*inp, x@, relaxed),
{
    match inp {
        Some(template) => {
            if relaxed {
                contains(template.as_str(), x) || contains(x, template.as_str())
            } else {
                same_text(template.as_str(), x)
            }
        },
        None => true,
    }
}

impl DmiStrings {
    /// Tells whether the profile fits the machine.
    pub fn matches(&self, ids: &DmiIds) -> (r: bool)
        ensures
            r == profile_matches(*self, *ids),
    {
        let pn_match: bool = match_str(
            &self.product_name,
            ids.product_name.as_str(),
            self.relaxed_name,
        );
        let pv_match: bool = match_str(
            &self.product_vendor,
            ids.product_vendor.as_str(),
            self.relaxed_vendor,
        );
        let bn_match: bool = match_str(
            &self.board_name,
            ids.board_name.as_str(),
            self.relaxed_name,
        );
        let bv_match: bool = match_str(
            &self.board_vendor,
            ids.board_vendor.as_str(),
            self.relaxed_vendor,
        );
        pn_match && pv_match && bn_match && bv_match
    }
}

impl RinputerConfig {
    /// Finds the first profile that fits the machine.
    pub fn select(&self, ids: &DmiIds) -> (r: Option<usize>)
        ensures
            match r {
                Some(i) => selected(self.dmi_strings@, *ids) == Some(i as int),
                None => selected(self.dmi_strings@, *ids) is None,
            },
            r matches Some(i) ==> first_match_at(self.dmi_strings@, *ids, i as int),
    {
        let mut i: usize = 0;
        while i < self.dmi_strings.len()
            invariant
                i <= self.dmi_strings@.len(),
                forall|j: int|
                    0 <= j < i ==> !profile_matches(#[trigger] self.dmi_strings@[j], *ids),
            decreases self.dmi_strings@.len() - i,
        {
            if self.dmi_strings[i].matches(ids) {
                assert(first_match_at(self.dmi_strings@, *ids, i as int));
                assert forall|k: int| first_match_at(self.dmi_strings@, *ids, k) implies k == i by {
                    if k > i {
                        assert(profile_matches(self.dmi_strings@[i as int], *ids));
                    }
                }
                return Some(i);
            }
            i = i + 1;
        }
        None
    }

    /// The mapping requests with which the machine starts: those of the
    /// first profile that fits it, in their order, and none if no profile
    /// fits.
    pub fn startup_requests(&self, ids: &DmiIds) -> (r: Vec<RinputerEvent>)
        ensures
            r@ == match selected(self.dmi_strings@, *ids) {
                Some(i) => requests_of(self.dmi_strings@[i].remap@),
                None => Seq::<RinputerEvent>::empty(),
            },
    {
        let mut out: Vec<RinputerEvent> = Vec::new();
        match self.select(ids) {
            Some(i) => {
                let remaps = &self.dmi_strings[i].remap;
                let mut k: usize = 0;
                while k < remaps.len()
                    invariant
                        k <= remaps@.len(),
                        out@.len() == k,
                        forall|j: int|
                            0 <= j < k ==> #[trigger] out@[j] == RinputerEvent::ConfigUpdate(
                                remaps@[j].0,
                                remaps@[j].1,
                            ),
                    decreases remaps@.len() - k,
                {
                    let pair: (InputRemap, InputRemap) = remaps[k];
                    out.push(RinputerEvent::ConfigUpdate(pair.0, pair.1));
                    k = k + 1;
                }
                assert(out@ =~= requests_of(remaps@));
            },
            None => {},
        }
        out
    }
}

} // verus!
