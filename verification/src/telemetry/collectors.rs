//! What the machine is made of: processor, graphics, board, and the peripherals
//! plugged into it.
//!
//! Only this machine is described. The caller reads the sources; the functions
//! here pick the descriptive strings out of them.
use vstd::prelude::*;

use crate::text::{
    chars_of, contains_text, find_text, nth_piece, slice_of, split_lines, string_of, text_at, trim,
};
#[allow(unused_imports)]
use crate::text::{
    collected, first_at, has_text, lines_of, optional_text, piece, stands_at, texts, trimmed,
};

verus! {

/// What a command printed, if it could be run.
#[derive(Debug)]
pub struct CommandOutput {
    pub success: bool,
    pub stdout: Vec<u8>,
}

/// The raw sources of an inventory. A source that could not be read, or a
/// command that could not be started, is `None`.
#[derive(Debug)]
pub struct HostSources {
    /// The processor table.
    pub cpuinfo: Option<String>,
    /// The PCI listing, in its machine-readable form.
    pub lspci: Option<CommandOutput>,
    pub board_vendor: Option<String>,
    pub board_name: Option<String>,
    /// The USB listing.
    pub lsusb: Option<CommandOutput>,
}

/// The inventory of a host.
#[derive(Debug)]
pub struct DeviceInventory {
    pub cpu_model: Option<String>,
    pub gpu_models: Vec<String>,
    pub board_vendor: Option<String>,
    pub board_model: Option<String>,
    /// Vendor and product of the USB peripherals: no bus numbers, no addresses,
    /// no serial numbers.
    pub usb_peripherals: Vec<String>,
}

/// What a [`DeviceInventory`] says.
#[verifier::ext_equal]
pub struct Inventory {
    pub cpu_model: Option<Seq<char>>,
    pub gpu_models: Seq<Seq<char>>,
    pub board_vendor: Option<Seq<char>>,
    pub board_model: Option<Seq<char>>,
    pub usb_peripherals: Seq<Seq<char>>,
}

impl View for DeviceInventory {
    type V = Inventory;

    open spec fn view(&self) -> Inventory {
        Inventory {
            cpu_model: optional_text(self.cpu_model),
            gpu_models: texts(self.gpu_models@),
            board_vendor: optional_text(self.board_vendor),
            board_model: optional_text(self.board_model),
            usb_peripherals: texts(self.usb_peripherals@),
        }
    }
}

impl Clone for DeviceInventory {
    fn clone(&self) -> (inventory: DeviceInventory)
        ensures
            inventory@ == self@,
    {
        let inventory = DeviceInventory {
            cpu_model: self.cpu_model.clone(),
            gpu_models: self.gpu_models.clone(),
            board_vendor: self.board_vendor.clone(),
            board_model: self.board_model.clone(),
            usb_peripherals: self.usb_peripherals.clone(),
        };
        proof {
            assert(inventory@.gpu_models =~= self@.gpu_models);
            assert(inventory@.usb_peripherals =~= self@.usb_peripherals);
        }
        inventory
    }
}

impl Default for DeviceInventory {
    fn default() -> (inventory: DeviceInventory)
        ensures
            inventory@ == (Inventory {
                cpu_model: None,
                gpu_models: Seq::empty(),
                board_vendor: None,
                board_model: None,
                usb_peripherals: Seq::empty(),
            }),
    {
        let inventory = DeviceInventory {
            cpu_model: None,
            gpu_models: Vec::new(),
            board_vendor: None,
            board_model: None,
            usb_peripherals: Vec::new(),
        };
        proof {
            assert(inventory@.gpu_models =~= Seq::empty());
            assert(inventory@.usb_peripherals =~= Seq::empty());
        }
        inventory
    }
}

/// The text that `String::from_utf8_lossy` makes of a byte sequence.
pub uninterp spec fn lossy_text(bytes: Seq<u8>) -> Seq<char>;

/// `String::from_utf8_lossy`: well-formed UTF-8 is decoded as it is; what stands
/// for ill-formed bytes is left to the name [`lossy_text`].
#[verifier::external_body]
fn decode_lossy(bytes: &[u8]) -> (text: String)
    ensures
        text@ == lossy_text(bytes@),
        vstd::utf8::valid_utf8(bytes@) ==> text@ == vstd::utf8::decode_utf8(bytes@),
{
    String::from_utf8_lossy(bytes).into_owned()
}

/// The first of the lines that begin with `prefix`.
pub open spec fn first_with_prefix(lines: Seq<Seq<char>>, prefix: Seq<char>) -> Option<Seq<char>>
    decreases lines.len(),
{
    if lines.len() == 0 {
        None
    } else if stands_at(lines[0], prefix, 0) {
        Some(lines[0])
    } else {
        first_with_prefix(lines.drop_first(), prefix)
    }
}

/// The processor's name: what follows the colon of the first "model name" line.
pub open spec fn cpu_model_in(text: Seq<char>) -> Option<Seq<char>> {
    match first_with_prefix(lines_of(text), "model name"@) {
        Some(line) => match piece(line, ':', 1) {
            Some(value) => Some(trimmed(value)),
            None => None,
        },
        None => None,
    }
}

/// The model in a line of the PCI listing that describes a display adapter: the
/// text between its fifth and sixth quotation mark.
pub open spec fn gpu_in_line(line: Seq<char>) -> Option<Seq<char>> {
    if has_text(line, "\"VGA compatible controller\""@) || has_text(line, "\"3D controller\""@)
        || has_text(line, "\"Display controller\""@) {
        piece(line, '"', 5)
    } else {
        None
    }
}

/// The letters that make up words: those of the alphabet, in either case, and
/// everything beyond ASCII.
pub open spec fn letter(c: char) -> bool {
    'a' <= c <= 'z' || 'A' <= c <= 'Z' || c as u32 >= 0x80
}

/// The word "hub" stands at position `i`, in whatever case, with no letter next
/// to it on either side.
pub open spec fn hub_at(description: Seq<char>, i: int) -> bool {
    &&& 0 <= i
    &&& i + 3 <= description.len()
    &&& description[i] == 'h' || description[i] == 'H'
    &&& description[i + 1] == 'u' || description[i + 1] == 'U'
    &&& description[i + 2] == 'b' || description[i + 2] == 'B'
    &&& i > 0 ==> !letter(description[i - 1])
    &&& i + 3 < description.len() ==> !letter(description[i + 3])
}

/// The description names a hub.
pub open spec fn names_hub(description: Seq<char>) -> bool {
    exists|i: int| #[trigger] hub_at(description, i)
}

/// The peripheral in a line of the USB listing: what follows the first "ID ",
/// unless it describes a hub, or a device of the host itself.
pub open spec fn peripheral_in_line(line: Seq<char>) -> Option<Seq<char>> {
    if has_text(line, "ID "@) {
        let at = choose|i: int| first_at(line, "ID "@, i);
        let rest = trimmed(line.skip(at + 3));
        if has_text(rest, "Linux Foundation"@) || has_text(rest, "root hub"@) || names_hub(rest) {
            None
        } else {
            Some(rest)
        }
    } else {
        None
    }
}

pub open spec fn gpus_in(text: Seq<char>) -> Seq<Seq<char>> {
    collected(lines_of(text), |line: Seq<char>| gpu_in_line(line))
}

pub open spec fn peripherals_in(text: Seq<char>) -> Seq<Seq<char>> {
    collected(lines_of(text), |line: Seq<char>| peripheral_in_line(line))
}

/// A board field, unless it is empty or the vendor's placeholder.
pub open spec fn board_field_in(text: Seq<char>) -> Option<Seq<char>> {
    let value = trimmed(text);
    if value.len() == 0 || value == "To Be Filled By O.E.M."@ {
        None
    } else {
        Some(value)
    }
}

/// The text that a successful command printed.
pub open spec fn printed(output: Option<CommandOutput>) -> Option<Seq<char>> {
    match output {
        Some(done) => if done.success {
            Some(lossy_text(done.stdout@))
        } else {
            None
        },
        None => None,
    }
}

/// The text that a successful command printed in well-formed UTF-8: the
/// characters that the bytes encode.
pub open spec fn plainly_printed(output: Option<CommandOutput>) -> Option<Seq<char>> {
    match output {
        Some(done) => if done.success && vstd::utf8::valid_utf8(done.stdout@) {
            Some(vstd::utf8::decode_utf8(done.stdout@))
        } else {
            None
        },
        None => None,
    }
}

/// The inventory that the sources describe.
pub open spec fn inventory_of(sources: HostSources) -> Inventory {
    Inventory {
        cpu_model: match sources.cpuinfo {
            Some(text) => cpu_model_in(text@),
            None => None,
        },
        gpu_models: match printed(sources.lspci) {
            Some(text) => gpus_in(text),
            None => Seq::empty(),
        },
        board_vendor: match sources.board_vendor {
            Some(text) => board_field_in(text@),
            None => None,
        },
        board_model: match sources.board_name {
            Some(text) => board_field_in(text@),
            None => None,
        },
        usb_peripherals: match printed(sources.lsusb) {
            Some(text) => peripherals_in(text),
            None => Seq::empty(),
        },
    }
}

/// The processor's name in the processor table.
pub fn read_cpu_model(cpuinfo: &str) -> (model: Option<String>)
    ensures
        optional_text(model) == cpu_model_in(cpuinfo@),
{
    let lines: Vec<Vec<char>> = split_lines(&chars_of(cpuinfo));
    let ghost all = lines_of(cpuinfo@);
    let mut i: usize = 0;
    proof {
        assert(all.skip(0) =~= all);
    }
    while i < lines.len()
        invariant
            i <= lines.len(),
            all == lines_of(cpuinfo@),
            all == lines@.map_values(|line: Vec<char>| line@),
            first_with_prefix(all.skip(i as int), "model name"@) == first_with_prefix(
                all,
                "model name"@,
            ),
        decreases lines.len() - i,
    {
        proof {
            assert(all.skip(i as int).drop_first() =~= all.skip(i + 1));
            assert(all.skip(i as int)[0] == lines@[i as int]@);
        }
        if text_at(&lines[i], "model name", 0) {
            return match nth_piece(&lines[i], ':', 1) {
                Some(value) => Some(string_of(&trim(&value))),
                None => None,
            };
        }
        i = i + 1;
    }
    None
}

/// The model of a display adapter described by one line.
fn gpu_of_line(line: &Vec<char>) -> (model: Option<String>)
    ensures
        optional_text(model) == gpu_in_line(line@),
{
    if contains_text(line, "\"VGA compatible controller\"") || contains_text(
        line,
        "\"3D controller\"",
    ) || contains_text(line, "\"Display controller\"") {
        match nth_piece(line, '"', 5) {
            Some(model) => Some(string_of(&model)),
            None => None,
        }
    } else {
        None
    }
}

/// The display adapters in the text of the PCI listing.
pub fn parse_gpu_models(listing: &str) -> (models: Vec<String>)
    ensures
        texts(models@) == gpus_in(listing@),
{
    let lines: Vec<Vec<char>> = split_lines(&chars_of(listing));
    let ghost all = lines_of(listing@);
    let ghost read = |line: Seq<char>| gpu_in_line(line);
    let mut models: Vec<String> = Vec::new();
    let mut i: usize = 0;
    proof {
        assert(texts(models@) =~= collected(all.take(0), read));
    }
    while i < lines.len()
        invariant
            i <= lines.len(),
            all == lines@.map_values(|line: Vec<char>| line@),
            read == (|line: Seq<char>| gpu_in_line(line)),
            texts(models@) == collected(all.take(i as int), read),
        decreases lines.len() - i,
    {
        let ghost earlier = models@;
        proof {
            assert(all.take(i + 1).drop_last() =~= all.take(i as int));
            assert(all.take(i + 1).last() == lines@[i as int]@);
        }
        if let Some(model) = gpu_of_line(&lines[i]) {
            models.push(model);
            proof {
                assert(texts(models@) =~= texts(earlier).push(model@));
            }
        }
        i = i + 1;
    }
    proof {
        assert(all.take(i as int) =~= all);
    }
    models
}

fn is_letter(c: char) -> (yes: bool)
    ensures
        yes == letter(c),
{
    ('a' <= c && c <= 'z') || ('A' <= c && c <= 'Z') || c as u32 >= 0x80
}

/// Whether a description names a hub.
fn is_hub(description: &Vec<char>) -> (hub: bool)
    ensures
        hub == names_hub(description@),
{
    let len: usize = description.len();
    let mut i: usize = 0;
    while i < len && len - i >= 3
        invariant
            i <= len,
            len == description.len(),
            forall|k: int| k < i ==> !#[trigger] hub_at(description@, k),
        decreases len - i,
    {
        let (h, u, b): (char, char, char) = (description[i], description[i + 1], description[i + 2]);
        if (h == 'h' || h == 'H') && (u == 'u' || u == 'U') && (b == 'b' || b == 'B') && (i == 0
            || !is_letter(description[i - 1])) && (len - i == 3 || !is_letter(description[i + 3])) {
            assert(hub_at(description@, i as int));
            return true;
        }
        i = i + 1;
    }
    false
}

/// The peripheral described by one line.
fn peripheral_of_line(line: &Vec<char>) -> (peripheral: Option<String>)
    ensures
        optional_text(peripheral) == peripheral_in_line(line@),
{
    match find_text(line, "ID ") {
        None => None,
        Some(at) => {
            proof {
                reveal_strlit("ID ");
                assert("ID "@.len() == 3);
                assert(stands_at(line@, "ID "@, at as int));
                assert(at + 3 <= line.len());
                let chosen = choose|i: int| first_at(line@, "ID "@, i);
                assert(first_at(line@, "ID "@, chosen));
                if chosen < at {
                    assert(stands_at(line@, "ID "@, chosen));
                }
                assert(chosen == at);
                assert(line@.skip(at + 3) =~= line@.subrange(at + 3, line@.len() as int));
            }
            let rest: Vec<char> = trim(&slice_of(line, at + 3, line.len()));
            if contains_text(&rest, "Linux Foundation") || contains_text(&rest, "root hub")
                || is_hub(&rest) {
                None
            } else {
                Some(string_of(&rest))
            }
        },
    }
}

/// The peripherals in the text of the USB listing.
pub fn parse_usb_peripherals(listing: &str) -> (peripherals: Vec<String>)
    ensures
        texts(peripherals@) == peripherals_in(listing@),
{
    let lines: Vec<Vec<char>> = split_lines(&chars_of(listing));
    let ghost all = lines_of(listing@);
    let ghost read = |line: Seq<char>| peripheral_in_line(line);
    let mut peripherals: Vec<String> = Vec::new();
    let mut i: usize = 0;
    proof {
        assert(texts(peripherals@) =~= collected(all.take(0), read));
    }
    while i < lines.len()
        invariant
            i <= lines.len(),
            all == lines@.map_values(|line: Vec<char>| line@),
            read == (|line: Seq<char>| peripheral_in_line(line)),
            texts(peripherals@) == collected(all.take(i as int), read),
        decreases lines.len() - i,
    {
        let ghost earlier = peripherals@;
        proof {
            assert(all.take(i + 1).drop_last() =~= all.take(i as int));
            assert(all.take(i + 1).last() == lines@[i as int]@);
        }
        if let Some(peripheral) = peripheral_of_line(&lines[i]) {
            peripherals.push(peripheral);
            proof {
                assert(texts(peripherals@) =~= texts(earlier).push(peripheral@));
            }
        }
        i = i + 1;
    }
    proof {
        assert(all.take(i as int) =~= all);
    }
    peripherals
}

/// What a successful command printed, as text.
fn output_text(output: &Option<CommandOutput>) -> (text: Option<String>)
    ensures
        optional_text(text) == printed(*output),
        plainly_printed(*output) is Some ==> printed(*output) == plainly_printed(*output),
{
    match output {
        Some(done) => if done.success {
            Some(decode_lossy(done.stdout.as_slice()))
        } else {
            None
        },
        None => None,
    }
}

/// The display adapters that the PCI listing names; none if the listing could
/// not be made.
pub fn read_gpu_models(output: &Option<CommandOutput>) -> (models: Vec<String>)
    ensures
        texts(models@) == (match printed(*output) {
            Some(text) => gpus_in(text),
            None => Seq::empty(),
        }),
        plainly_printed(*output) matches Some(text) ==> texts(models@) == gpus_in(text),
{
    match output_text(output) {
        Some(text) => parse_gpu_models(text.as_str()),
        None => {
            let models: Vec<String> = Vec::new();
            assert(texts(models@) =~= Seq::empty());
            models
        },
    }
}

/// The peripherals that the USB listing names; none if the listing could not be
/// made.
pub fn read_usb_peripherals(output: &Option<CommandOutput>) -> (peripherals: Vec<String>)
    ensures
        texts(peripherals@) == (match printed(*output) {
            Some(text) => peripherals_in(text),
            None => Seq::empty(),
        }),
        plainly_printed(*output) matches Some(text) ==> texts(peripherals@) == peripherals_in(text),
{
    match output_text(output) {
        Some(text) => parse_usb_peripherals(text.as_str()),
        None => {
            let peripherals: Vec<String> = Vec::new();
            assert(texts(peripherals@) =~= Seq::empty());
            peripherals
        },
    }
}

/// A board field, from the contents of its file.
pub fn read_dmi(contents: &Option<String>) -> (field: Option<String>)
    ensures
        optional_text(field) == (match *contents {
            Some(text) => board_field_in(text@),
            None => None,
        }),
{
    match contents {
        None => None,
        Some(text) => {
            let value: String = string_of(&trim(&chars_of(text.as_str())));
            if value.as_str().is_empty() || value == "To Be Filled By O.E.M.".to_string() {
                None
            } else {
                Some(value)
            }
        },
    }
}

/// The inventory that the sources describe.
pub fn collect_device_inventory(sources: &HostSources) -> (inventory: DeviceInventory)
    ensures
        inventory@ == inventory_of(*sources),
        plainly_printed(sources.lspci) matches Some(text) ==> inventory@.gpu_models == gpus_in(
            text,
        ),
        plainly_printed(sources.lsusb) matches Some(text) ==> inventory@.usb_peripherals
            == peripherals_in(text),
{
    let cpu_model: Option<String> = match &sources.cpuinfo {
        Some(text) => read_cpu_model(text.as_str()),
        None => None,
    };
    DeviceInventory {
        cpu_model,
        gpu_models: read_gpu_models(&sources.lspci),
        board_vendor: read_dmi(&sources.board_vendor),
        board_model: read_dmi(&sources.board_name),
        usb_peripherals: read_usb_peripherals(&sources.lsusb),
    }
}

/// Hubs are never reported as peripherals, neither root hubs nor plain ones.
pub proof fn law_hubs_are_not_reported(lines: Seq<Seq<char>>, i: int)
    requires
        0 <= i < collected(lines, |line: Seq<char>| peripheral_in_line(line)).len(),
    ensures
        ({
            let reported = collected(lines, |line: Seq<char>| peripheral_in_line(line))[i];
            &&& !has_text(reported, "Linux Foundation"@)
            &&& !has_text(reported, "root hub"@)
            &&& !names_hub(reported)
        }),
    decreases lines.len(),
{
    let read = |line: Seq<char>| peripheral_in_line(line);
    if lines.len() > 0 {
        let rest = collected(lines.drop_last(), read);
        if i < rest.len() {
            law_hubs_are_not_reported(lines.drop_last(), i);
        }
    }
}

/// When no source can be read the inventory is empty.
pub proof fn law_unreadable_host_is_empty(sources: HostSources)
    requires
        sources.cpuinfo is None,
        printed(sources.lspci) is None,
        sources.board_vendor is None,
        sources.board_name is None,
        printed(sources.lsusb) is None,
    ensures
        inventory_of(sources) == (Inventory {
            cpu_model: None,
            gpu_models: Seq::empty(),
            board_vendor: None,
            board_model: None,
            usb_peripherals: Seq::empty(),
        }),
{
}

/// A listing's display adapter is reported by its model: the third of the quoted
/// fields, behind the class and the vendor.
pub proof fn law_display_adapter_is_reported_by_model(
    slot: Seq<char>,
    class: Seq<char>,
    vendor: Seq<char>,
    model: Seq<char>,
    rest: Seq<char>,
)
    requires
        class == "VGA compatible controller"@ || class == "3D controller"@ || class
            == "Display controller"@,
        !slot.contains('"'),
        !vendor.contains('"'),
        !model.contains('"'),
    ensures
        gpu_in_line(
            slot.push('"') + (class.push('"') + (seq![' '].push('"') + (vendor.push('"') + (
            seq![' '].push('"') + (model.push('"') + rest))))),
        ) == Some(model),
{
    let l5 = model.push('"') + rest;
    let l4 = seq![' '].push('"') + l5;
    let l3 = vendor.push('"') + l4;
    let l2 = seq![' '].push('"') + l3;
    let l1 = class.push('"') + l2;
    let line = slot.push('"') + l1;
    reveal_strlit("VGA compatible controller");
    reveal_strlit("3D controller");
    reveal_strlit("Display controller");
    reveal_strlit("\"VGA compatible controller\"");
    reveal_strlit("\"3D controller\"");
    reveal_strlit("\"Display controller\"");
    assert(!class.contains('"'));
    assert(!seq![' '].contains('"'));
    crate::text::law_separator_ends_a_piece(slot, l1, '"', 4);
    crate::text::law_separator_ends_a_piece(class, l2, '"', 3);
    crate::text::law_separator_ends_a_piece(seq![' '], l3, '"', 2);
    crate::text::law_separator_ends_a_piece(vendor, l4, '"', 1);
    crate::text::law_separator_ends_a_piece(seq![' '], l5, '"', 0);
    crate::text::law_separator_ends_a_piece(model, rest, '"', 0);
    let quoted = seq!['"'] + class.push('"');
    crate::text::law_pattern_is_found_where_it_stands(slot, quoted, l2, 0);
    assert(slot + quoted + l2 =~= line);
    assert(class == "VGA compatible controller"@ ==> quoted
        =~= "\"VGA compatible controller\""@);
    assert(class == "3D controller"@ ==> quoted =~= "\"3D controller\""@);
    assert(class == "Display controller"@ ==> quoted =~= "\"Display controller\""@);
}

/// Only display adapters are reported: a line is passed over unless it names one
/// of their three classes in quotation marks.
pub proof fn law_other_cards_are_not_reported(line: Seq<char>)
    requires
        gpu_in_line(line) is Some,
    ensures
        has_text(line, "\"VGA compatible controller\""@) || has_text(line, "\"3D controller\""@)
            || has_text(line, "\"Display controller\""@),
{
}

/// A peripheral is reported by what follows the first "ID " of its line, without
/// outer white space, unless that describes a hub; a line without "ID " is
/// passed over.
pub proof fn law_peripheral_is_what_follows_id(head: Seq<char>, tail: Seq<char>, line: Seq<char>)
    requires
        forall|j: int| j < head.len() ==> !#[trigger] stands_at(head + "ID "@ + tail, "ID "@, j),
    ensures
        has_text(trimmed(tail), "Linux Foundation"@) || has_text(trimmed(tail), "root hub"@)
            || names_hub(trimmed(tail)) ==> peripheral_in_line(head + "ID "@ + tail) is None,
        !(has_text(trimmed(tail), "Linux Foundation"@) || has_text(trimmed(tail), "root hub"@)
            || names_hub(trimmed(tail))) ==> peripheral_in_line(head + "ID "@ + tail) == Some(
            trimmed(tail),
        ),
        !has_text(line, "ID "@) ==> peripheral_in_line(line) is None,
{
    let whole = head + "ID "@ + tail;
    reveal_strlit("ID ");
    assert("ID "@.len() == 3);
    crate::text::law_pattern_is_found_where_it_stands(head, "ID "@, tail, 0);
    assert(first_at(whole, "ID "@, head.len() as int));
    let at = choose|i: int| first_at(whole, "ID "@, i);
    if at < head.len() {
        assert(!stands_at(whole, "ID "@, at));
    }
    if at > head.len() {
        assert(!stands_at(whole, "ID "@, head.len() as int));
    }
    assert(whole.skip(head.len() as int + 3) =~= tail);
}

/// The word "hub" is recognised in any case, next to anything but a letter, and
/// not inside a longer word.
pub proof fn law_hub_is_recognised_as_a_word(
    a: Seq<char>,
    word: Seq<char>,
    b: Seq<char>,
    description: Seq<char>,
)
    requires
        word.len() == 3,
        word[0] == 'h' || word[0] == 'H',
        word[1] == 'u' || word[1] == 'U',
        word[2] == 'b' || word[2] == 'B',
        a.len() == 0 || a.last() == ' ' || a.last() == '-' || '0' <= a.last() <= '9',
        b.len() == 0 || b[0] == ' ' || b[0] == ',' || '0' <= b[0] <= '9',
    ensures
        names_hub(a + word + b),
        names_hub(description) ==> exists|i: int|
            0 <= i && i + 3 <= description.len() && ((#[trigger] description[i]) == 'h'
                || description[i] == 'H') && (description[i + 1] == 'u' || description[i + 1]
                == 'U') && (description[i + 2] == 'b' || description[i + 2] == 'B') && (i > 0
                ==> !('a' <= description[i - 1] <= 'z' || 'A' <= description[i - 1] <= 'Z')) && (i
                + 3 < description.len() ==> !('a' <= description[i + 3] <= 'z' || 'A'
                <= description[i + 3] <= 'Z')),
{
    let s = a + word + b;
    let at = a.len() as int;
    assert(s[at] == word[0] && s[at + 1] == word[1] && s[at + 2] == word[2]);
    if at > 0 {
        assert(s[at - 1] == a.last());
    }
    if at + 3 < s.len() {
        assert(s[at + 3] == b[0]);
    }
    assert(hub_at(s, at));
    if names_hub(description) {
        let i = choose|i: int| #[trigger] hub_at(description, i);
        assert(description[i] == 'h' || description[i] == 'H');
    }
}

/// The first of the lines with a prefix is the one that is found.
pub proof fn law_first_line_with_prefix(lines: Seq<Seq<char>>, prefix: Seq<char>, i: int)
    requires
        0 <= i <= lines.len(),
        forall|j: int| 0 <= j < i ==> !stands_at(#[trigger] lines[j], prefix, 0),
        i < lines.len() ==> stands_at(lines[i], prefix, 0),
    ensures
        i < lines.len() ==> first_with_prefix(lines, prefix) == Some(lines[i]),
        i == lines.len() ==> first_with_prefix(lines, prefix) is None,
    decreases i,
{
    if i > 0 {
        let rest = lines.drop_first();
        assert(!stands_at(lines[0], prefix, 0));
        assert forall|j: int| 0 <= j < i - 1 implies !stands_at(#[trigger] rest[j], prefix, 0) by {
            assert(rest[j] == lines[j + 1]);
        }
        law_first_line_with_prefix(rest, prefix, i - 1);
    }
}

/// The processor's name stands behind the colon of the first line that begins
/// with "model name", up to the next colon or the end of the line; lines in front
/// of that one do not matter.
pub proof fn law_cpu_model_stands_behind_colon(
    pad: Seq<char>,
    value: Seq<char>,
    other: Seq<char>,
    rest: Seq<char>,
)
    requires
        !pad.contains(':') && !pad.contains('\n'),
        !value.contains(':') && !value.contains('\n') && !value.contains('\r'),
        !other.contains('\n') && !other.contains('\r'),
        !stands_at(other, "model name"@, 0),
    ensures
        cpu_model_in((("model name"@ + pad).push(':') + value).push('\n') + rest) == Some(
            trimmed(value),
        ),
        cpu_model_in(other.push('\n') + rest) == cpu_model_in(rest),
{
    reveal_strlit("model name");
    let name = "model name"@ + pad;
    let line = name.push(':') + value;
    assert(!name.contains(':')) by {
        if name.contains(':') {
            let k = choose|k: int| 0 <= k < name.len() && name[k] == ':';
            if k >= 10 {
                assert(pad[k - 10] == ':');
            }
        }
    }
    assert(!line.contains('\n')) by {
        if line.contains('\n') {
            let k = choose|k: int| 0 <= k < line.len() && line[k] == '\n';
            if k >= 10 && k < 10 + pad.len() {
                assert(pad[k - 10] == '\n');
            } else if k > 10 + pad.len() {
                assert(value[k - 11 - pad.len()] == '\n');
            }
        }
    }
    assert(line.last() != '\r') by {
        if value.len() > 0 {
            assert(line.last() == value.last());
            assert(value.contains(value.last()));
        }
    }
    crate::text::law_line_feed_ends_a_line(line, rest);
    let lines = lines_of(line.push('\n') + rest);
    assert(lines[0] == line);
    assert(line.subrange(0, 10) =~= "model name"@);
    law_first_line_with_prefix(lines, "model name"@, 0);
    crate::text::law_separator_ends_a_piece(name, value, ':', 0);
    crate::text::law_separator_ends_a_piece(value, Seq::empty(), ':', 0);
    if other.len() > 0 {
        assert(other.contains(other.last()));
    }
    crate::text::law_line_feed_ends_a_line(other, rest);
    let more = lines_of(other.push('\n') + rest);
    assert(more[0] == other);
    assert(more.drop_first() =~= lines_of(rest));
}

/// A board field is the trimmed contents of its file; one that is blank or the
/// vendor's placeholder counts as missing, and no other does.
pub proof fn law_board_field_is_kept_unless_blank(text: Seq<char>)
    ensures
        board_field_in(text) is None <==> trimmed(text).len() == 0 || trimmed(text)
            == "To Be Filled By O.E.M."@,
        board_field_in(text) matches Some(value) ==> value == trimmed(text),
{
}

/// A command counts exactly if it ran and succeeded, and then by what it printed.
pub proof fn law_only_success_is_read(output: Option<CommandOutput>)
    ensures
        printed(output) is Some <==> output is Some && output->0.success,
        printed(output) is Some ==> printed(output)->0 == lossy_text(output->0.stdout@),
{
}

/// Each field of an inventory has its own source: as long as that source stays,
/// so does the field, whatever becomes of the others.
pub proof fn law_fields_have_their_own_sources(a: HostSources, b: HostSources)
    ensures
        a.cpuinfo == b.cpuinfo ==> inventory_of(a).cpu_model == inventory_of(b).cpu_model,
        a.lspci == b.lspci ==> inventory_of(a).gpu_models == inventory_of(b).gpu_models,
        a.board_vendor == b.board_vendor ==> inventory_of(a).board_vendor
            == inventory_of(b).board_vendor,
        a.board_name == b.board_name ==> inventory_of(a).board_model
            == inventory_of(b).board_model,
        a.lsusb == b.lsusb ==> inventory_of(a).usb_peripherals
            == inventory_of(b).usb_peripherals,
{
}

/// What the sources say arrives in the inventory, field by field.
pub proof fn law_sources_arrive_in_inventory(sources: HostSources)
    ensures
        sources.cpuinfo matches Some(text) ==> inventory_of(sources).cpu_model == cpu_model_in(
            text@,
        ),
        sources.board_vendor matches Some(text) ==> inventory_of(sources).board_vendor
            == board_field_in(text@),
        sources.board_name matches Some(text) ==> inventory_of(sources).board_model
            == board_field_in(text@),
        printed(sources.lspci) matches Some(text) ==> inventory_of(sources).gpu_models
            == collected(lines_of(text), |line: Seq<char>| gpu_in_line(line)),
        printed(sources.lsusb) matches Some(text) ==> inventory_of(sources).usb_peripherals
            == collected(lines_of(text), |line: Seq<char>| peripheral_in_line(line)),
{
}

} // verus!
