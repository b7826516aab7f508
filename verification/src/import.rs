//! Reading the Caseta integration report into configuration rows.
//!
//! The Lutron app sends the report as JSON. It is the only machine-readable
//! inventory that Caseta offers. Trimmed to what matters:
//!
//! ```json
//! { "LIPIdList": {
//!     "Zones":   [ { "ID": 2, "Name": "...", "Area": { "Name": "..." } } ],
//!     "Devices": [ { "ID": 6, "Name": "Pico", "Buttons": [ { "Number": 2 } ] } ] } }
//! ```
//!
//! Zones are controllable loads. Devices are things with buttons. The Smart
//! Bridge is itself a device, whose buttons are the phantom buttons behind
//! scenes.

use crate::json::{
    array_under, items_under, json_from_str, json_view, str_under, text_under, u64_under,
    unsigned_under, views, Json, JsonNumber, JsonView,
};
use crate::text::{decimal, numeral, same, trim, trimmed};
use vstd::prelude::*;

verus! {

broadcast use {
    vstd::string::group_string_axioms,
    Seq::lemma_filter_map_take_succ,
    Seq::lemma_flat_map_take_append,
};

/// The integration ID of the Smart Bridge itself.
pub const SMART_BRIDGE_ID: u64 = 1;

/// Rows to append to the configuration, and notes on what was left out.
#[derive(Debug)]
pub struct Import {
    pub devices: Vec<Json>,
    pub scenes: Vec<Json>,
    pub skipped: Vec<String>,
}

/// The content of an [`Import`].
#[verifier::ext_equal]
pub struct ImportView {
    pub devices: Seq<JsonView>,
    pub scenes: Seq<JsonView>,
    pub skipped: Seq<Seq<char>>,
}

impl View for Import {
    type V = ImportView;

    open spec fn view(&self) -> ImportView {
        ImportView {
            devices: self.devices@.map_values(|row: Json| row@),
            scenes: self.scenes@.map_values(|row: Json| row@),
            skipped: self.skipped@.map_values(|note: String| note@),
        }
    }
}

impl Default for Import {
    /// Nothing at all.
    fn default() -> (import: Import)
        ensures
            import.devices@.len() == 0,
            import.scenes@.len() == 0,
            import.skipped@.len() == 0,
    {
        Import { devices: Vec::new(), scenes: Vec::new(), skipped: Vec::new() }
    }
}

/// Why a report was not imported.
#[derive(Debug, PartialEq, Eq)]
pub enum ImportError {
    /// There is no text but white space.
    NoText,
    /// The text is no JSON; the parser's message.
    NotJson(String),
    /// The report has no list of integration IDs.
    NoList,
    /// The report lists nothing that could be imported.
    NothingListed,
}

/// The content of an [`ImportError`].
pub enum ImportErrorView {
    NoText,
    NotJson(Seq<char>),
    NoList,
    NothingListed,
}

impl View for ImportError {
    type V = ImportErrorView;

    open spec fn view(&self) -> ImportErrorView {
        match self {
            ImportError::NoText => ImportErrorView::NoText,
            ImportError::NotJson(message) => ImportErrorView::NotJson(message@),
            ImportError::NoList => ImportErrorView::NoList,
            ImportError::NothingListed => ImportErrorView::NothingListed,
        }
    }
}

impl ImportErrorView {
    /// What the operator is told.
    pub open spec fn explanation(self) -> Seq<char> {
        match self {
            ImportErrorView::NoText => "Paste the integration report first."@,
            ImportErrorView::NotJson(message) => "That does not parse as JSON ("@ + message
                + "). Paste the whole report."@,
            ImportErrorView::NoList =>
                "No `LIPIdList` — is this a Caséta integration report?"@,
            ImportErrorView::NothingListed =>
                "The report contained no zones, devices or scenes."@,
        }
    }
}

impl ImportError {
    /// What the operator is told.
    pub fn to_string(&self) -> (text: String)
        ensures
            text@ == self@.explanation(),
    {
        match self {
            ImportError::NoText => "Paste the integration report first.".to_owned(),
            ImportError::NotJson(message) => {
                let mut text = "That does not parse as JSON (".to_owned();
                text.append(message.as_str());
                text.append("). Paste the whole report.");
                text
            },
            ImportError::NoList => {
                "No `LIPIdList` — is this a Caséta integration report?".to_owned()
            },
            ImportError::NothingListed => {
                "The report contained no zones, devices or scenes.".to_owned()
            },
        }
    }
}

// ---------------------------------------------------------------------------
// Texts
// ---------------------------------------------------------------------------

/// The ending of a noun that is counted `n` times.
pub open spec fn plural_ending(n: nat) -> Seq<char> {
    if n == 1 {
        ""@
    } else {
        "s"@
    }
}

/// The ending of a noun that is counted `n` times.
pub fn plural(n: usize) -> (ending: &'static str)
    ensures
        ending@ == plural_ending(n as nat),
{
    if n == 1 {
        ""
    } else {
        "s"
    }
}

/// The notes, each behind a space.
pub open spec fn spaced(notes: Seq<Seq<char>>) -> Seq<char>
    decreases notes.len(),
{
    if notes.len() == 0 {
        Seq::empty()
    } else {
        spaced(notes.drop_last()) + " "@ + notes.last()
    }
}

impl ImportView {
    /// One line for the operator: what landed, and what did not.
    pub open spec fn summary(self) -> Seq<char> {
        "Imported "@ + numeral(self.devices.len()) + " device"@ + plural_ending(self.devices.len())
            + ", "@ + numeral(self.scenes.len()) + " scene"@ + plural_ending(self.scenes.len())
            + "."@ + spaced(self.skipped)
    }
}

impl Import {
    /// One line for the operator: what landed, and what did not.
    pub fn summary(&self) -> (text: String)
        ensures
            text@ == self@.summary(),
    {
        let mut text = "Imported ".to_owned();
        text.append(decimal(self.devices.len() as u64).as_str());
        text.append(" device");
        text.append(plural(self.devices.len()));
        text.append(", ");
        text.append(decimal(self.scenes.len() as u64).as_str());
        text.append(" scene");
        text.append(plural(self.scenes.len()));
        text.append(".");
        let ghost head = text@;
        let ghost notes = self@.skipped;
        assert(text@ =~= head + spaced(notes.take(0)));
        for i in 0..self.skipped.len()
            invariant
                notes == self@.skipped,
                text@ == head + spaced(notes.take(i as int)),
        {
            text.append(" ");
            text.append(self.skipped[i].as_str());
            assert(notes.take(i + 1).drop_last() =~= notes.take(i as int));
            assert(text@ =~= head + spaced(notes.take(i + 1)));
        }
        assert(notes.take(self.skipped.len() as int) =~= notes);
        text
    }
}

/// Whether `name` is what the app calls a phantom button that nobody has
/// programmed: `Button` and a number.
pub open spec fn placeholder(name: Seq<char>) -> bool {
    let stem = "Button "@;
    &&& name.len() > stem.len()
    &&& name.take(stem.len() as int) == stem
    &&& forall|i: int| stem.len() <= i < name.len() ==> '0' <= #[trigger] name[i] <= '9'
}

/// Whether `name` is what the app calls a phantom button that nobody has
/// programmed. Those are placeholders, not scenes that anyone made.
pub fn is_placeholder_button(name: &str) -> (yes: bool)
    ensures
        yes == placeholder(name@),
{
    let stem = "Button ";
    let stem_len = stem.unicode_len();
    let len = name.unicode_len();
    if len <= stem_len {
        return false;
    }
    if !same(name.substring_char(0, stem_len), stem) {
        return false;
    }
    assert(name@.take(stem_len as int) =~= name@.subrange(0, stem_len as int));
    for i in stem_len..len
        invariant
            stem_len == "Button "@.len(),
            len == name@.len(),
            forall|k: int| stem_len <= k < i ==> '0' <= #[trigger] name@[k] <= '9',
    {
        let c = name.get_char(i);
        if c < '0' || '9' < c {
            return false;
        }
    }
    true
}

// ---------------------------------------------------------------------------
// What the report says
// ---------------------------------------------------------------------------

/// The trimmed name of the area of a zone or device; `None` where it has no
/// area or nothing is left of the name.
pub open spec fn area(node: JsonView) -> Option<Seq<char>> {
    match node.member("Area"@) {
        Some(area) => match text_under(area, "Name"@) {
            Some(name) => if trimmed(name).len() > 0 {
                Some(trimmed(name))
            } else {
                None
            },
            None => None,
        },
        None => None,
    }
}

/// The entry of an object for a text that may be absent.
pub open spec fn entry_if_present(key: Seq<char>, text: Option<Seq<char>>) -> Seq<
    (Seq<char>, JsonView),
> {
    match text {
        Some(text) => seq![(key, JsonView::String(text))],
        None => Seq::empty(),
    }
}

/// A row of the configuration's devices.
pub open spec fn device_row(
    id: u64,
    name: Seq<char>,
    kind: Option<Seq<char>>,
    area: Option<Seq<char>>,
) -> JsonView {
    JsonView::Object(
        seq![
            ("integration_id"@, JsonView::Number(JsonNumber::Unsigned(id))),
            ("name"@, JsonView::String(name)),
        ] + entry_if_present("kind"@, kind) + entry_if_present("area"@, area),
    )
}

/// The device row of a zone: one for each zone that has an ID and a name.
///
/// The row has no kind. The report carries no load type, and to drive a switch
/// as a dimmer would send levels that it may not honour.
pub open spec fn zone_row(zone: JsonView) -> Option<JsonView> {
    match (unsigned_under(zone, "ID"@), text_under(zone, "Name"@)) {
        (Some(id), Some(name)) => Some(device_row(id, name, None, area(zone))),
        _ => None,
    }
}

/// Whether a device of the report is the Smart Bridge.
pub open spec fn is_bridge(device: JsonView) -> bool {
    unsigned_under(device, "ID"@) == Some(SMART_BRIDGE_ID)
}

/// The buttons of a device of the report.
pub open spec fn buttons(device: JsonView) -> Seq<JsonView> {
    items_under(device, "Buttons"@)
}

/// The device row of a Pico: one for each device that has an ID and buttons,
/// but for the Smart Bridge.
pub open spec fn pico_row(device: JsonView) -> Option<JsonView> {
    match unsigned_under(device, "ID"@) {
        Some(id) => if id != SMART_BRIDGE_ID && buttons(device).len() > 0 {
            Some(
                device_row(
                    id,
                    match text_under(device, "Name"@) {
                        Some(name) => name,
                        None => ""@,
                    },
                    Some("pico"@),
                    area(device),
                ),
            )
        } else {
            None
        },
        None => None,
    }
}

/// The scene row of a phantom button: one for each button that has a number and
/// a name that somebody gave it.
pub open spec fn scene_row(button: JsonView) -> Option<JsonView> {
    match (unsigned_under(button, "Number"@), text_under(button, "Name"@)) {
        (Some(number), Some(label)) => if placeholder(label) {
            None
        } else {
            Some(
                JsonView::Object(
                    seq![
                        ("name"@, JsonView::String(label)),
                        ("button_component"@, JsonView::Number(JsonNumber::Unsigned(number))),
                        ("bridge_id"@, JsonView::Number(JsonNumber::Unsigned(SMART_BRIDGE_ID))),
                    ],
                ),
            )
        },
        _ => None,
    }
}

/// The scene rows of a device: those of its buttons if it is the Smart Bridge,
/// and none otherwise.
pub open spec fn scenes_of(device: JsonView) -> Seq<JsonView> {
    if is_bridge(device) {
        buttons(device).filter_map(|button: JsonView| scene_row(button))
    } else {
        Seq::empty()
    }
}

/// The scene rows of all devices.
pub open spec fn all_scenes(devices: Seq<JsonView>) -> Seq<JsonView> {
    devices.flat_map(|device: JsonView| scenes_of(device))
}

/// What the operator is told of `n` buttons that were left out.
pub open spec fn ignored_note(n: nat) -> Seq<char> {
    "Ignored "@ + numeral(n) + " unprogrammed phantom button"@ + plural_ending(n)
        + " on the bridge."@
}

/// The note on a device when `found` scenes have been found in it and in the
/// devices before it.
pub open spec fn note_on(device: JsonView, found: nat) -> Seq<Seq<char>> {
    if is_bridge(device) && buttons(device).len() > found {
        seq![ignored_note((buttons(device).len() - found) as nat)]
    } else {
        Seq::empty()
    }
}

/// The notes on all devices.
pub open spec fn all_notes(devices: Seq<JsonView>) -> Seq<Seq<char>>
    decreases devices.len(),
{
    if devices.len() == 0 {
        Seq::empty()
    } else {
        all_notes(devices.drop_last()) + note_on(devices.last(), all_scenes(devices).len())
    }
}

/// Whether the buttons that were left out can be counted: at each occurrence of
/// the Smart Bridge, its buttons are at least as many as the scenes found so
/// far. A report that lists the bridge once always meets this.
pub open spec fn countable(devices: Seq<JsonView>) -> bool {
    forall|k: int|
        0 <= k < devices.len() && is_bridge(#[trigger] devices[k]) ==> all_scenes(
            devices.take(k + 1),
        ).len() <= buttons(devices[k]).len()
}

/// The zones of a list of integration IDs.
pub open spec fn zones(list: JsonView) -> Seq<JsonView> {
    items_under(list, "Zones"@)
}

/// The devices of a list of integration IDs.
pub open spec fn devices(list: JsonView) -> Seq<JsonView> {
    items_under(list, "Devices"@)
}

/// The device rows of the zones.
pub open spec fn zone_rows(list: JsonView) -> Seq<JsonView> {
    zones(list).filter_map(|zone: JsonView| zone_row(zone))
}

/// The device rows of the Picos.
pub open spec fn pico_rows(list: JsonView) -> Seq<JsonView> {
    devices(list).filter_map(|device: JsonView| pico_row(device))
}

/// What the import of a list of integration IDs holds.
pub open spec fn import_of(list: JsonView) -> ImportView {
    ImportView {
        devices: zone_rows(list) + pico_rows(list),
        scenes: all_scenes(devices(list)),
        skipped: all_notes(devices(list)),
    }
}

/// What comes of a parsed report.
pub open spec fn imported(root: JsonView) -> Result<ImportView, ImportErrorView> {
    match root.member("LIPIdList"@) {
        Some(list) => if import_of(list).devices.len() == 0 && import_of(list).scenes.len() == 0 {
            Err(ImportErrorView::NothingListed)
        } else {
            Ok(import_of(list))
        },
        None => Err(ImportErrorView::NoList),
    }
}

/// Whether the buttons that a parsed report leaves out can be counted.
pub open spec fn countable_report(root: JsonView) -> bool {
    match root.member("LIPIdList"@) {
        Some(list) => countable(devices(list)),
        None => true,
    }
}

// ---------------------------------------------------------------------------
// Reading it
// ---------------------------------------------------------------------------

spec fn notes(texts: Seq<String>) -> Seq<Seq<char>> {
    texts.map_values(|note: String| note@)
}

/// The trimmed name of the area of a zone or device, if anything is left of it.
pub fn area_of(node: &Json) -> (name: Option<String>)
    ensures
        match name {
            Some(name) => area(node@) == Some(name@),
            None => area(node@) is None,
        },
{
    match node.get("Area") {
        Some(place) => match str_under(place, "Name") {
            Some(name) => {
                let name = trim(name);
                if name.is_empty() {
                    None
                } else {
                    Some(name.to_owned())
                }
            },
            None => None,
        },
        None => None,
    }
}

fn make_device_row(id: u64, name: &str, kind: Option<&str>, place: Option<String>) -> (row: Json)
    ensures
        row@ == device_row(
            id,
            name@,
            match kind {
                Some(kind) => Some(kind@),
                None => None,
            },
            match place {
                Some(place) => Some(place@),
                None => None,
            },
        ),
{
    let mut entries: Vec<(String, Json)> = Vec::new();
    entries.push(("integration_id".to_owned(), Json::Number(JsonNumber::Unsigned(id))));
    entries.push(("name".to_owned(), Json::String(name.to_owned())));
    if let Some(kind) = kind {
        entries.push(("kind".to_owned(), Json::String(kind.to_owned())));
    }
    if let Some(place) = place {
        entries.push(("area".to_owned(), Json::String(place)));
    }
    let row = Json::Object(entries);
    proof {
        reveal_with_fuel(json_view, 2);
    }
    assert(row@->Object_0 =~= device_row(
        id,
        name@,
        match kind {
            Some(kind) => Some(kind@),
            None => None,
        },
        match place {
            Some(place) => Some(place@),
            None => None,
        },
    )->Object_0);
    row
}

fn read_zone_rows(list: &Json) -> (rows: Vec<Json>)
    ensures
        views(rows@) == zone_rows(list@),
{
    let mut rows: Vec<Json> = Vec::new();
    match array_under(list, "Zones") {
        Some(found) => {
            let ghost content = zones(list@);
            let ghost row = |zone: JsonView| zone_row(zone);
            assert(content.take(0).filter_map(row) =~= Seq::empty());
            for i in 0..found.len()
                invariant
                    content == views(found@),
                    row == (|zone: JsonView| zone_row(zone)),
                    views(rows@) == content.take(i as int).filter_map(row),
            {
                let zone = &found[i];
                assert(zone@ == content[i as int]);
                let ghost before = rows@;
                match (u64_under(zone, "ID"), str_under(zone, "Name")) {
                    (Some(id), Some(name)) => {
                        rows.push(make_device_row(id, name, None, area_of(zone)));
                        assert(views(rows@) =~= views(before).push(zone_row(zone@)->0));
                    },
                    _ => {},
                }
                assert(views(rows@) =~= content.take(i + 1).filter_map(row));
            }
            assert(content.take(found.len() as int) =~= content);
        },
        None => {
            assert(views(rows@) =~= zone_rows(list@));
        },
    }
    rows
}

fn read_pico_row(device: &Json) -> (row: Option<Json>)
    ensures
        match row {
            Some(row) => pico_row(device@) == Some(row@),
            None => pico_row(device@) is None,
        },
{
    match u64_under(device, "ID") {
        Some(id) => {
            if id == SMART_BRIDGE_ID {
                return None;
            }
            let has_buttons = match array_under(device, "Buttons") {
                Some(found) => found.len() > 0,
                None => false,
            };
            if has_buttons {
                let name = match str_under(device, "Name") {
                    Some(name) => name,
                    None => "",
                };
                Some(make_device_row(id, name, Some("pico"), area_of(device)))
            } else {
                None
            }
        },
        None => None,
    }
}

fn read_scene_row(button: &Json) -> (row: Option<Json>)
    ensures
        match row {
            Some(row) => scene_row(button@) == Some(row@),
            None => scene_row(button@) is None,
        },
{
    match (u64_under(button, "Number"), str_under(button, "Name")) {
        (Some(number), Some(label)) => {
            if is_placeholder_button(label) {
                None
            } else {
                let mut entries: Vec<(String, Json)> = Vec::new();
                entries.push(("name".to_owned(), Json::String(label.to_owned())));
                entries.push(
                    ("button_component".to_owned(), Json::Number(JsonNumber::Unsigned(number))),
                );
                entries.push(
                    ("bridge_id".to_owned(), Json::Number(JsonNumber::Unsigned(SMART_BRIDGE_ID))),
                );
                let row = Json::Object(entries);
                proof {
                    reveal_with_fuel(json_view, 2);
                }
                assert(row@->Object_0 =~= scene_row(button@)->0->Object_0);
                Some(row)
            }
        },
        _ => None,
    }
}

/// The scene rows of a device, and the number of its buttons if it is the Smart
/// Bridge.
fn read_scenes(device: &Json) -> (read: Option<(Vec<Json>, usize)>)
    ensures
        match read {
            Some((rows, all)) => {
                &&& is_bridge(device@)
                &&& views(rows@) == scenes_of(device@)
                &&& all == buttons(device@).len()
                &&& rows@.len() <= all
            },
            None => !is_bridge(device@),
        },
{
    match u64_under(device, "ID") {
        Some(id) => {
            if id != SMART_BRIDGE_ID {
                return None;
            }
            let mut rows: Vec<Json> = Vec::new();
            match array_under(device, "Buttons") {
                Some(found) => {
                    let ghost content = buttons(device@);
                    let ghost row = |button: JsonView| scene_row(button);
                    assert(content.take(0).filter_map(row) =~= Seq::empty());
                    for i in 0..found.len()
                        invariant
                            content == views(found@),
                            row == (|button: JsonView| scene_row(button)),
                            views(rows@) == content.take(i as int).filter_map(row),
                            rows@.len() <= i,
                    {
                        let button = &found[i];
                        assert(button@ == content[i as int]);
                        let ghost before = rows@;
                        if let Some(scene) = read_scene_row(button) {
                            rows.push(scene);
                            assert(views(rows@) =~= views(before).push(scene_row(button@)->0));
                        }
                        assert(views(rows@) =~= content.take(i + 1).filter_map(row));
                    }
                    assert(content.take(found.len() as int) =~= content);
                    Some((rows, found.len()))
                },
                None => {
                    assert(views(rows@) =~= scenes_of(device@));
                    Some((rows, 0))
                },
            }
        },
        None => None,
    }
}

fn make_ignored_note(n: usize) -> (note: String)
    ensures
        note@ == ignored_note(n as nat),
{
    let mut note = "Ignored ".to_owned();
    note.append(decimal(n as u64).as_str());
    note.append(" unprogrammed phantom button");
    note.append(plural(n));
    note.append(" on the bridge.");
    note
}

/// Whether the buttons that a parsed report leaves out can be counted.
pub fn is_countable_report(root: &Json) -> (yes: bool)
    ensures
        yes == countable_report(root@),
{
    let list = match root.get("LIPIdList") {
        Some(list) => list,
        None => {
            return true;
        },
    };
    let found = match array_under(list, "Devices") {
        Some(found) => found,
        None => {
            return true;
        },
    };
    let ghost content = devices(list@);
    let ghost scenes = |device: JsonView| scenes_of(device);
    let mut named: usize = 0;
    assert(content.take(0).flat_map(scenes) =~= Seq::empty());
    for i in 0..found.len()
        invariant
            content == views(found@),
            content == devices(list@),
            root@.member("LIPIdList"@) == Some(list@),
            scenes == (|device: JsonView| scenes_of(device)),
            named == all_scenes(content.take(i as int)).len(),
            forall|k: int|
                0 <= k < i && is_bridge(#[trigger] content[k]) ==> all_scenes(
                    content.take(k + 1),
                ).len() <= buttons(content[k]).len(),
    {
        let device = &found[i];
        assert(device@ == content[i as int]);
        assert(all_scenes(content.take(i + 1)) == all_scenes(content.take(i as int)) + scenes_of(
            content[i as int],
        ));
        if let Some((rows, all)) = read_scenes(device) {
            assert(rows@.len() == scenes_of(device@).len());
            if named > all || rows.len() > all - named {
                return false;
            }
            named = named + rows.len();
        }
    }
    true
}

/// Makes the rows of a parsed report.
///
/// It does not guess the kind of a zone: the operator picks it.
pub fn import_report(root: &Json) -> (made: Result<Import, ImportError>)
    requires
        countable_report(root@),
    ensures
        match made {
            Ok(import) => imported(root@) == Ok::<ImportView, ImportErrorView>(import@),
            Err(error) => imported(root@) == Err::<ImportView, ImportErrorView>(error@),
        },
{
    let list = match root.get("LIPIdList") {
        Some(list) => list,
        None => {
            return Err(ImportError::NoList);
        },
    };
    let mut rows = read_zone_rows(list);
    let mut scenes: Vec<Json> = Vec::new();
    let mut skipped: Vec<String> = Vec::new();
    let ghost content = devices(list@);
    if let Some(found) = array_under(list, "Devices") {
        let ghost pico = |device: JsonView| pico_row(device);
        let ghost scene = |device: JsonView| scenes_of(device);
        assert(content.take(0).filter_map(pico) =~= Seq::empty());
        assert(content.take(0).flat_map(scene) =~= Seq::empty());
        assert(views(rows@) =~= zone_rows(list@) + content.take(0).filter_map(pico));
        assert(notes(skipped@) =~= all_notes(content.take(0)));
        for i in 0..found.len()
            invariant
                content == views(found@),
                countable(content),
                pico == (|device: JsonView| pico_row(device)),
                scene == (|device: JsonView| scenes_of(device)),
                views(rows@) == zone_rows(list@) + content.take(i as int).filter_map(pico),
                views(scenes@) == content.take(i as int).flat_map(scene),
                notes(skipped@) == all_notes(content.take(i as int)),
        {
            let device = &found[i];
            assert(device@ == content[i as int]);
            assert(content.take(i + 1).drop_last() =~= content.take(i as int));
            let ghost rows_before = rows@;
            let ghost scenes_before = scenes@;
            let ghost skipped_before = skipped@;
            if let Some((mut named, all)) = read_scenes(device) {
                let ghost added = named@;
                scenes.append(&mut named);
                assert(views(scenes@) =~= views(scenes_before) + views(added));
                assert(views(scenes@) =~= all_scenes(content.take(i + 1)));
                assert(scenes@.len() == views(scenes@).len());
                let unnamed: usize = all - scenes.len();
                if unnamed > 0 {
                    skipped.push(make_ignored_note(unnamed));
                    assert(notes(skipped@) =~= notes(skipped_before).push(ignored_note(unnamed as nat)));
                }
            } else {
                assert(views(scenes@) =~= all_scenes(content.take(i + 1)));
                if let Some(row) = read_pico_row(device) {
                    rows.push(row);
                    assert(views(rows@) =~= views(rows_before).push(row@));
                }
            }
            assert(views(rows@) =~= zone_rows(list@) + content.take(i + 1).filter_map(pico));
            assert(notes(skipped@) =~= all_notes(content.take(i + 1)));
        }
        assert(content.take(found.len() as int) =~= content);
    }
    let import = Import { devices: rows, scenes, skipped };
    assert(import@ =~= import_of(list@));
    if import.devices.len() == 0 && import.scenes.len() == 0 {
        return Err(ImportError::NothingListed);
    }
    Ok(import)
}

/// What comes of the text of a report.
pub open spec fn imported_text(text: Seq<char>) -> Result<ImportView, ImportErrorView> {
    if trimmed(text).len() == 0 {
        Err(ImportErrorView::NoText)
    } else {
        match json_from_str(trimmed(text)) {
            Ok(root) => imported(root),
            Err(message) => Err(ImportErrorView::NotJson(message)),
        }
    }
}

/// Whether the buttons that the text of a report leaves out can be counted.
pub open spec fn countable_text(text: Seq<char>) -> bool {
    trimmed(text).len() > 0 ==> match json_from_str(trimmed(text)) {
        Ok(root) => countable_report(root),
        Err(_) => true,
    }
}

/// What comes of any text: nothing where the buttons that it leaves out cannot be
/// counted.
pub open spec fn tried_text(text: Seq<char>) -> Option<Result<ImportView, ImportErrorView>> {
    if countable_text(text) {
        Some(imported_text(text))
    } else {
        None
    }
}

/// Parses an integration report into rows for the configuration's devices and
/// scenes.
///
/// The text must be one whose left-out buttons can be counted;
/// [`try_parse_integration_report`] takes any text.
pub fn parse_integration_report(text: &str) -> (made: Result<Import, ImportError>)
    requires
        countable_text(text@),
    ensures
        match made {
            Ok(import) => imported_text(text@) == Ok::<ImportView, ImportErrorView>(import@),
            Err(error) => imported_text(text@) == Err::<ImportView, ImportErrorView>(error@),
        },
{
    let text = trim(text);
    if text.is_empty() {
        return Err(ImportError::NoText);
    }
    match Json::parse(text) {
        Ok(root) => import_report(&root),
        Err(message) => Err(ImportError::NotJson(message)),
    }
}

/// Parses an integration report like [`parse_integration_report`]; `None` where
/// its left-out buttons cannot be counted.
pub fn try_parse_integration_report(text: &str) -> (made: Option<Result<Import, ImportError>>)
    ensures
        match made {
            Some(Ok(import)) => {
                &&& countable_text(text@)
                &&& imported_text(text@) == Ok::<ImportView, ImportErrorView>(import@)
            },
            Some(Err(error)) => {
                &&& countable_text(text@)
                &&& imported_text(text@) == Err::<ImportView, ImportErrorView>(error@)
            },
            None => !countable_text(text@),
        },
        match made {
            Some(Ok(import)) => tried_text(text@) == Some(
                Ok::<ImportView, ImportErrorView>(import@),
            ),
            Some(Err(error)) => tried_text(text@) == Some(
                Err::<ImportView, ImportErrorView>(error@),
            ),
            None => tried_text(text@) is None,
        },
{
    let report = trim(text);
    if !report.is_empty() {
        if let Ok(root) = Json::parse(report) {
            if !is_countable_report(&root) {
                return None;
            }
        }
    }
    Some(parse_integration_report(text))
}

} // verus!
