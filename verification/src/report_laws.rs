//! What becomes of a report, told by what the report says.

use crate::import::{
    all_notes, all_scenes, area, buttons, countable_report, countable_text, device_row,
    devices as listed_devices, import_of, imported, imported_text, is_bridge, note_on, pico_row,
    pico_rows, placeholder, plural_ending, scene_row, scenes_of, spaced, tried_text, zone_row,
    zone_rows, zones as listed_zones, Import, ImportError, ImportErrorView, ImportView,
};
use crate::import_laws::{
    law_device_row_members, law_every_button_is_accounted_for,
    law_only_programmed_buttons_become_scenes, law_scene_row_members,
};
use crate::json::{json_from_str, text_under, unsigned_under, JsonNumber, JsonView};
use crate::json_laws::law_members_are_found_under_their_first_key;
use crate::text::{numeral, trimmed};
use vstd::prelude::*;

verus! {

broadcast use vstd::string::group_string_axioms;

/// A name is that of an unprogrammed button exactly if it is `Button`, a space and
/// one or more decimal digits.
pub proof fn law_placeholders_are_button_and_digits(name: Seq<char>)
    ensures
        placeholder(name) <==> exists|digits: Seq<char>|
            {
                &&& name == #[trigger] ("Button "@ + digits)
                &&& digits.len() > 0
                &&& forall|i: int| 0 <= i < digits.len() ==> '0' <= #[trigger] digits[i] <= '9'
            },
{
    let stem = "Button "@;
    if placeholder(name) {
        let digits = name.skip(stem.len() as int);
        assert(name =~= stem + digits);
        assert forall|i: int| 0 <= i < digits.len() implies '0' <= #[trigger] digits[i] <= '9' by {
            assert(digits[i] == name[stem.len() + i]);
        }
    }
    if exists|digits: Seq<char>|
        {
            &&& name == #[trigger] ("Button "@ + digits)
            &&& digits.len() > 0
            &&& forall|i: int| 0 <= i < digits.len() ==> '0' <= #[trigger] digits[i] <= '9'
        } {
        let digits = choose|digits: Seq<char>|
            {
                &&& name == #[trigger] ("Button "@ + digits)
                &&& digits.len() > 0
                &&& forall|i: int| 0 <= i < digits.len() ==> '0' <= #[trigger] digits[i] <= '9'
            };
        assert(name.take(stem.len() as int) =~= stem);
        assert forall|i: int| stem.len() <= i < name.len() implies '0' <= #[trigger] name[i]
            <= '9' by {
            assert(name[i] == digits[i - stem.len()]);
        }
    }
}

/// The area of a zone or device is the trimmed string under `Name` of its member
/// `Area`. It has none where there is no such string, or nothing is left of it.
pub proof fn law_areas_are_trimmed_names(node: JsonView)
    ensures
        area(node) == match node.member("Area"@) {
            Some(place) => match place.member("Name"@) {
                Some(JsonView::String(name)) => if trimmed(name).len() > 0 {
                    Some(trimmed(name))
                } else {
                    None
                },
                _ => None,
            },
            None => None,
        },
{
}

/// The devices of an import are first the zones and then the remotes of the report,
/// each in the order of the report and each once.
///
/// A zone lands if it has an unsigned ID and a name: with that ID and name, and
/// without a kind. A device lands if it has an unsigned ID other than 1 and at least
/// one button: with that ID, with its name or an empty one, and as a `pico`. Either
/// has the area of the report, if it names one, and no other member.
pub proof fn law_zones_and_remotes_become_devices_in_order(
    root: JsonView,
    list: JsonView,
    zones: Seq<JsonView>,
    devices: Seq<JsonView>,
    named: Seq<JsonView>,
    remotes: Seq<JsonView>,
    import: Import,
)
    requires
        root.member("LIPIdList"@) == Some(list),
        zones == match list.member("Zones"@) {
            Some(JsonView::Array(items)) => items,
            _ => Seq::empty(),
        },
        devices == match list.member("Devices"@) {
            Some(JsonView::Array(items)) => items,
            _ => Seq::empty(),
        },
        named == zones.filter(
            |zone: JsonView|
                {
                    &&& zone.member("ID"@) matches Some(JsonView::Number(JsonNumber::Unsigned(_)))
                    &&& zone.member("Name"@) matches Some(JsonView::String(_))
                },
        ),
        remotes == devices.filter(
            |device: JsonView|
                {
                    &&& device.member("ID"@) matches Some(
                        JsonView::Number(JsonNumber::Unsigned(id)),
                    ) && id != 1
                    &&& device.member("Buttons"@) matches Some(JsonView::Array(found))
                        && found.len() > 0
                },
        ),
        imported(root) == Ok::<ImportView, ImportErrorView>(import@),
    ensures
        import.devices@.len() == named.len() + remotes.len(),
        forall|i: int|
            0 <= i < named.len() ==> {
                let row = #[trigger] import.devices@[i]@;
                &&& row.member("integration_id"@) == named[i].member("ID"@)
                &&& row.member("name"@) == named[i].member("Name"@)
                &&& row.member("kind"@) is None
                &&& row.member("area"@) == match area(named[i]) {
                    Some(name) => Some(JsonView::String(name)),
                    None => None,
                }
                &&& forall|key: Seq<char>|
                    key != "integration_id"@ && key != "name"@ && key != "area"@
                        ==> #[trigger] row.member(key) is None
            },
        forall|i: int|
            named.len() <= i < import.devices@.len() ==> {
                let row = #[trigger] import.devices@[i]@;
                let device = remotes[i - named.len()];
                &&& row.member("integration_id"@) == device.member("ID"@)
                &&& row.member("name"@) == match device.member("Name"@) {
                    Some(JsonView::String(name)) => Some(JsonView::String(name)),
                    _ => Some(JsonView::String(""@)),
                }
                &&& row.member("kind"@) == Some(JsonView::String("pico"@))
                &&& row.member("area"@) == match area(device) {
                    Some(name) => Some(JsonView::String(name)),
                    None => None,
                }
                &&& forall|key: Seq<char>|
                    key != "integration_id"@ && key != "name"@ && key != "kind"@ && key != "area"@
                        ==> #[trigger] row.member(key) is None
            },
{
    let of_zone = |zone: JsonView| zone_row(zone);
    let of_device = |device: JsonView| pico_row(device);
    let is_named = |zone: JsonView|
        {
            &&& zone.member("ID"@) matches Some(JsonView::Number(JsonNumber::Unsigned(_)))
            &&& zone.member("Name"@) matches Some(JsonView::String(_))
        };
    let is_remote = |device: JsonView|
        {
            &&& device.member("ID"@) matches Some(JsonView::Number(JsonNumber::Unsigned(id))) && id
                != 1
            &&& device.member("Buttons"@) matches Some(JsonView::Array(found)) && found.len() > 0
        };
    assert(zones == listed_zones(list));
    assert(devices == listed_devices(list));
    lemma_filter_map_is_filter(zones, of_zone, is_named);
    lemma_filter_map_is_filter(devices, of_device, is_remote);
    assert(import@ == import_of(list));
    let rows = import@.devices;
    assert(rows == zone_rows(list) + pico_rows(list));
    assert(rows.len() == import.devices@.len());
    assert forall|i: int| 0 <= i < named.len() implies {
        let row = #[trigger] import.devices@[i]@;
        &&& row.member("integration_id"@) == named[i].member("ID"@)
        &&& row.member("name"@) == named[i].member("Name"@)
        &&& row.member("kind"@) is None
        &&& row.member("area"@) == match area(named[i]) {
            Some(name) => Some(JsonView::String(name)),
            None => None,
        }
        &&& forall|key: Seq<char>|
            key != "integration_id"@ && key != "name"@ && key != "area"@ ==> #[trigger] row.member(
                key,
            ) is None
    } by {
        assert(rows[i] == import.devices@[i]@);
        assert(zone_rows(list)[i] == zone_row(named[i])->0);
        assert(is_named(named[i]));
        let id = unsigned_under(named[i], "ID"@)->0;
        let name = text_under(named[i], "Name"@)->0;
        lemma_device_row(id, name, None, area(named[i]));
    }
    assert forall|i: int| named.len() <= i < import.devices@.len() implies {
        let row = #[trigger] import.devices@[i]@;
        let device = remotes[i - named.len()];
        &&& row.member("integration_id"@) == device.member("ID"@)
        &&& row.member("name"@) == match device.member("Name"@) {
            Some(JsonView::String(name)) => Some(JsonView::String(name)),
            _ => Some(JsonView::String(""@)),
        }
        &&& row.member("kind"@) == Some(JsonView::String("pico"@))
        &&& row.member("area"@) == match area(device) {
            Some(name) => Some(JsonView::String(name)),
            None => None,
        }
        &&& forall|key: Seq<char>|
            key != "integration_id"@ && key != "name"@ && key != "kind"@ && key != "area"@
                ==> #[trigger] row.member(key) is None
    } by {
        let device = remotes[i - named.len()];
        assert(rows[i] == import.devices@[i]@);
        assert(rows[i] == pico_rows(list)[i - named.len()]);
        assert(pico_rows(list)[i - named.len()] == pico_row(device)->0);
        assert(is_remote(device));
        let name = match text_under(device, "Name"@) {
            Some(name) => name,
            None => ""@,
        };
        lemma_device_row(unsigned_under(device, "ID"@)->0, name, Some("pico"@), area(device));
    }
}

/// The scenes of an import are the programmed buttons of the Smart Bridge, the
/// device with ID 1, in the order of the report and each once: those with an
/// unsigned number, whatever it is, and a name that is not `Button`, a space and
/// digits. A scene has that name, that number and the ID of the bridge, and no other
/// member.
pub proof fn law_programmed_buttons_become_scenes_in_order(
    root: JsonView,
    list: JsonView,
    devices: Seq<JsonView>,
    all: Seq<JsonView>,
    programmed: Seq<JsonView>,
    import: Import,
)
    requires
        root.member("LIPIdList"@) == Some(list),
        devices == match list.member("Devices"@) {
            Some(JsonView::Array(items)) => items,
            _ => Seq::empty(),
        },
        all == devices.flat_map(
            |device: JsonView|
                match (device.member("ID"@), device.member("Buttons"@)) {
                    (
                        Some(JsonView::Number(JsonNumber::Unsigned(id))),
                        Some(JsonView::Array(found)),
                    ) => if id == 1 {
                        found
                    } else {
                        Seq::empty()
                    },
                    _ => Seq::empty(),
                },
        ),
        programmed == all.filter(
            |button: JsonView|
                {
                    &&& button.member("Number"@) matches Some(
                        JsonView::Number(JsonNumber::Unsigned(_)),
                    )
                    &&& button.member("Name"@) matches Some(JsonView::String(label)) && !exists|
                        digits: Seq<char>,
                    |
                        {
                            &&& label == #[trigger] ("Button "@ + digits)
                            &&& digits.len() > 0
                            &&& forall|i: int|
                                0 <= i < digits.len() ==> '0' <= #[trigger] digits[i] <= '9'
                        }
                },
        ),
        imported(root) == Ok::<ImportView, ImportErrorView>(import@),
    ensures
        import.scenes@.len() == programmed.len(),
        forall|i: int|
            0 <= i < programmed.len() ==> {
                let row = #[trigger] import.scenes@[i]@;
                &&& row.member("name"@) == programmed[i].member("Name"@)
                &&& row.member("button_component"@) == programmed[i].member("Number"@)
                &&& row.member("bridge_id"@) == Some(JsonView::Number(JsonNumber::Unsigned(1)))
                &&& forall|key: Seq<char>|
                    key != "name"@ && key != "button_component"@ && key != "bridge_id"@
                        ==> #[trigger] row.member(key) is None
            },
{
    let press = |device: JsonView|
                match (device.member("ID"@), device.member("Buttons"@)) {
                    (
                        Some(JsonView::Number(JsonNumber::Unsigned(id))),
                        Some(JsonView::Array(found)),
                    ) => if id == 1 {
                        found
                    } else {
                        Seq::empty()
                    },
                    _ => Seq::empty(),
                };
    let is_programmed = |button: JsonView|
                {
                    &&& button.member("Number"@) matches Some(
                        JsonView::Number(JsonNumber::Unsigned(_)),
                    )
                    &&& button.member("Name"@) matches Some(JsonView::String(label)) && !exists|
                        digits: Seq<char>,
                    |
                        {
                            &&& label == #[trigger] ("Button "@ + digits)
                            &&& digits.len() > 0
                            &&& forall|i: int|
                                0 <= i < digits.len() ==> '0' <= #[trigger] digits[i] <= '9'
                        }
                };
    let row = |button: JsonView| scene_row(button);
    lemma_programmed(is_programmed);
    lemma_scenes_are_flat(devices, press);
    lemma_filter_map_is_filter(all, row, is_programmed);
    assert(import@ == import_of(list));
    assert(devices == listed_devices(list));
    let rows = import@.scenes;
    assert(rows.len() == import.scenes@.len());
    assert forall|i: int| 0 <= i < programmed.len() implies {
        let row = #[trigger] import.scenes@[i]@;
        &&& row.member("name"@) == programmed[i].member("Name"@)
        &&& row.member("button_component"@) == programmed[i].member("Number"@)
        &&& row.member("bridge_id"@) == Some(JsonView::Number(JsonNumber::Unsigned(1)))
        &&& forall|key: Seq<char>|
            key != "name"@ && key != "button_component"@ && key != "bridge_id"@
                ==> #[trigger] row.member(key) is None
    } by {
        assert(rows[i] == import.scenes@[i]@);
        assert(rows[i] == scene_row(programmed[i])->0);
        assert(is_programmed(programmed[i]));
        lemma_scene_row(programmed[i]);
    }
}

/// Every programmed button of the Smart Bridge becomes a scene: for each button of a
/// device with ID 1 that has an unsigned number, whatever it is, and a name that is
/// not `Button`, a space and digits, the import holds a scene with that name and that
/// number on that bridge.
pub proof fn law_every_programmed_button_becomes_a_scene(
    root: JsonView,
    list: JsonView,
    devices: Seq<JsonView>,
    k: int,
    found: Seq<JsonView>,
    b: int,
    number: u64,
    label: Seq<char>,
    import: Import,
)
    requires
        root.member("LIPIdList"@) == Some(list),
        list.member("Devices"@) == Some(JsonView::Array(devices)),
        0 <= k < devices.len(),
        devices[k].member("ID"@) == Some(JsonView::Number(JsonNumber::Unsigned(1))),
        devices[k].member("Buttons"@) == Some(JsonView::Array(found)),
        0 <= b < found.len(),
        found[b].member("Number"@) == Some(JsonView::Number(JsonNumber::Unsigned(number))),
        found[b].member("Name"@) == Some(JsonView::String(label)),
        !exists|digits: Seq<char>|
            {
                &&& label == #[trigger] ("Button "@ + digits)
                &&& digits.len() > 0
                &&& forall|i: int| 0 <= i < digits.len() ==> '0' <= #[trigger] digits[i] <= '9'
            },
        imported(root) == Ok::<ImportView, ImportErrorView>(import@),
    ensures
        exists|i: int|
            {
                let row = #[trigger] import.scenes@[i]@;
                &&& 0 <= i < import.scenes@.len()
                &&& row.member("name"@) == Some(JsonView::String(label))
                &&& row.member("button_component"@) == Some(
                    JsonView::Number(JsonNumber::Unsigned(number)),
                )
                &&& row.member("bridge_id"@) == Some(JsonView::Number(JsonNumber::Unsigned(1)))
            },
{
    law_placeholders_are_button_and_digits(label);
    law_only_programmed_buttons_become_scenes(list);
    assert(devices == listed_devices(list));
    assert(found == buttons(devices[k]));
    assert(is_bridge(devices[k]));
    let row = scene_row(found[b])->0;
    assert(scene_row(buttons(listed_devices(list)[k])[b]) is Some);
    assert(import@ == import_of(list));
    assert(import@.scenes.contains(row));
    let i = choose|i: int| 0 <= i < import@.scenes.len() && import@.scenes[i] == row;
    assert(import.scenes@[i]@ == row);
    lemma_scene_row(found[b]);
}

/// A report is imported exactly if it has a list of integration IDs and at least one
/// zone, remote or programmed button in it. Without a list it is refused for that,
/// and otherwise for listing nothing.
pub proof fn law_a_report_is_imported_if_it_lists_anything(
    root: JsonView,
    list: JsonView,
    zones: Seq<JsonView>,
    devices: Seq<JsonView>,
    named: Seq<JsonView>,
    remotes: Seq<JsonView>,
    all: Seq<JsonView>,
    programmed: Seq<JsonView>,
    made: Result<Import, ImportError>,
)
    requires
        root.member("LIPIdList"@) is Some ==> root.member("LIPIdList"@) == Some(list),
        zones == match list.member("Zones"@) {
            Some(JsonView::Array(items)) => items,
            _ => Seq::empty(),
        },
        devices == match list.member("Devices"@) {
            Some(JsonView::Array(items)) => items,
            _ => Seq::empty(),
        },
        named == zones.filter(
            |zone: JsonView|
                {
                    &&& zone.member("ID"@) matches Some(JsonView::Number(JsonNumber::Unsigned(_)))
                    &&& zone.member("Name"@) matches Some(JsonView::String(_))
                },
        ),
        remotes == devices.filter(
            |device: JsonView|
                {
                    &&& device.member("ID"@) matches Some(
                        JsonView::Number(JsonNumber::Unsigned(id)),
                    ) && id != 1
                    &&& device.member("Buttons"@) matches Some(JsonView::Array(found))
                        && found.len() > 0
                },
        ),
        all == devices.flat_map(
            |device: JsonView|
                match (device.member("ID"@), device.member("Buttons"@)) {
                    (
                        Some(JsonView::Number(JsonNumber::Unsigned(id))),
                        Some(JsonView::Array(found)),
                    ) => if id == 1 {
                        found
                    } else {
                        Seq::empty()
                    },
                    _ => Seq::empty(),
                },
        ),
        programmed == all.filter(
            |button: JsonView|
                {
                    &&& button.member("Number"@) matches Some(
                        JsonView::Number(JsonNumber::Unsigned(_)),
                    )
                    &&& button.member("Name"@) matches Some(JsonView::String(label)) && !exists|
                        digits: Seq<char>,
                    |
                        {
                            &&& label == #[trigger] ("Button "@ + digits)
                            &&& digits.len() > 0
                            &&& forall|i: int|
                                0 <= i < digits.len() ==> '0' <= #[trigger] digits[i] <= '9'
                        }
                },
        ),
        match made {
            Ok(import) => imported(root) == Ok::<ImportView, ImportErrorView>(import@),
            Err(error) => imported(root) == Err::<ImportView, ImportErrorView>(error@),
        },
    ensures
        made is Ok <==> root.member("LIPIdList"@) is Some && named.len() + remotes.len()
            + programmed.len() > 0,
        made matches Err(error) ==> {
            &&& error is NoList <==> root.member("LIPIdList"@) is None
            &&& error is NothingListed <==> root.member("LIPIdList"@) is Some
        },
{
    let of_zone = |zone: JsonView| zone_row(zone);
    let of_device = |device: JsonView| pico_row(device);
    let is_named = |zone: JsonView|
        {
            &&& zone.member("ID"@) matches Some(JsonView::Number(JsonNumber::Unsigned(_)))
            &&& zone.member("Name"@) matches Some(JsonView::String(_))
        };
    let is_remote = |device: JsonView|
        {
            &&& device.member("ID"@) matches Some(JsonView::Number(JsonNumber::Unsigned(id))) && id
                != 1
            &&& device.member("Buttons"@) matches Some(JsonView::Array(found)) && found.len() > 0
        };
    let press = |device: JsonView|
                match (device.member("ID"@), device.member("Buttons"@)) {
                    (
                        Some(JsonView::Number(JsonNumber::Unsigned(id))),
                        Some(JsonView::Array(found)),
                    ) => if id == 1 {
                        found
                    } else {
                        Seq::empty()
                    },
                    _ => Seq::empty(),
                };
    let is_programmed = |button: JsonView|
                {
                    &&& button.member("Number"@) matches Some(
                        JsonView::Number(JsonNumber::Unsigned(_)),
                    )
                    &&& button.member("Name"@) matches Some(JsonView::String(label)) && !exists|
                        digits: Seq<char>,
                    |
                        {
                            &&& label == #[trigger] ("Button "@ + digits)
                            &&& digits.len() > 0
                            &&& forall|i: int|
                                0 <= i < digits.len() ==> '0' <= #[trigger] digits[i] <= '9'
                        }
                };
    let row = |button: JsonView| scene_row(button);
    assert(zones == listed_zones(list));
    assert(devices == listed_devices(list));
    lemma_filter_map_is_filter(zones, of_zone, is_named);
    lemma_filter_map_is_filter(devices, of_device, is_remote);
    lemma_programmed(is_programmed);
    lemma_scenes_are_flat(devices, press);
    lemma_filter_map_is_filter(all, row, is_programmed);
}

/// Of each bridge in the report, in order, a note says how many of its buttons are
/// no scenes, counting the scenes found so far, and no note is made where all are.
/// The note spells the number out in decimal, and has `buttons` but for one.
pub proof fn law_buttons_that_are_no_scenes_are_noted(
    root: JsonView,
    list: JsonView,
    devices: Seq<JsonView>,
    press: spec_fn(JsonView) -> Seq<JsonView>,
    is_programmed: spec_fn(JsonView) -> bool,
    notes: Seq<Seq<Seq<char>>>,
    import: Import,
)
    requires
        root.member("LIPIdList"@) == Some(list),
        devices == match list.member("Devices"@) {
            Some(JsonView::Array(items)) => items,
            _ => Seq::empty(),
        },
        press == (|device: JsonView|
                match (device.member("ID"@), device.member("Buttons"@)) {
                    (
                        Some(JsonView::Number(JsonNumber::Unsigned(id))),
                        Some(JsonView::Array(found)),
                    ) => if id == 1 {
                        found
                    } else {
                        Seq::empty()
                    },
                    _ => Seq::empty(),
                }),
        is_programmed == (|button: JsonView|
                {
                    &&& button.member("Number"@) matches Some(
                        JsonView::Number(JsonNumber::Unsigned(_)),
                    )
                    &&& button.member("Name"@) matches Some(JsonView::String(label)) && !exists|
                        digits: Seq<char>,
                    |
                        {
                            &&& label == #[trigger] ("Button "@ + digits)
                            &&& digits.len() > 0
                            &&& forall|i: int|
                                0 <= i < digits.len() ==> '0' <= #[trigger] digits[i] <= '9'
                        }
                }),
        notes.len() == devices.len(),
        forall|k: int|
            0 <= k < devices.len() ==> #[trigger] notes[k] == ({
                let own = press(devices[k]).len();
                let scenes = devices.take(k + 1).flat_map(press).filter(is_programmed).len();
                if own > scenes {
                    seq![
                        "Ignored "@ + numeral((own - scenes) as nat)
                            + " unprogrammed phantom button"@ + (if own - scenes == 1 {
                            ""@
                        } else {
                            "s"@
                        }) + " on the bridge."@,
                    ]
                } else {
                    Seq::<Seq<char>>::empty()
                }
            }),
        imported(root) == Ok::<ImportView, ImportErrorView>(import@),
    ensures
        import.skipped@.len() == notes.flatten().len(),
        forall|i: int|
            0 <= i < import.skipped@.len() ==> (#[trigger] import.skipped@[i])@
                == notes.flatten()[i],
{
    assert(devices == listed_devices(list));
    lemma_notes(devices, press, is_programmed, notes, devices.len() as int);
    assert(devices.take(devices.len() as int) =~= devices);
    assert(notes.take(notes.len() as int) =~= notes);
    notes.lemma_flatten_and_flatten_alt_are_equivalent();
    assert(import@ == import_of(list));
    let told = import@.skipped;
    assert(told.len() == import.skipped@.len());
    assert forall|i: int| 0 <= i < import.skipped@.len() implies (#[trigger] import.skipped@[i])@
        == notes.flatten()[i] by {
        assert(told[i] == import.skipped@[i]@);
    }
}

/// The buttons that are no scenes can be counted exactly if no bridge of the report
/// has fewer buttons than scenes were found up to it. A report without a list has
/// nothing to count.
pub proof fn law_buttons_can_be_counted_if_they_cover_the_scenes(
    root: JsonView,
    list: JsonView,
    devices: Seq<JsonView>,
    press: spec_fn(JsonView) -> Seq<JsonView>,
    is_programmed: spec_fn(JsonView) -> bool,
)
    requires
        root.member("LIPIdList"@) == Some(list),
        devices == match list.member("Devices"@) {
            Some(JsonView::Array(items)) => items,
            _ => Seq::empty(),
        },
        press == (|device: JsonView|
                match (device.member("ID"@), device.member("Buttons"@)) {
                    (
                        Some(JsonView::Number(JsonNumber::Unsigned(id))),
                        Some(JsonView::Array(found)),
                    ) => if id == 1 {
                        found
                    } else {
                        Seq::empty()
                    },
                    _ => Seq::empty(),
                }),
        is_programmed == (|button: JsonView|
                {
                    &&& button.member("Number"@) matches Some(
                        JsonView::Number(JsonNumber::Unsigned(_)),
                    )
                    &&& button.member("Name"@) matches Some(JsonView::String(label)) && !exists|
                        digits: Seq<char>,
                    |
                        {
                            &&& label == #[trigger] ("Button "@ + digits)
                            &&& digits.len() > 0
                            &&& forall|i: int|
                                0 <= i < digits.len() ==> '0' <= #[trigger] digits[i] <= '9'
                        }
                }),
    ensures
        countable_report(root) <==> forall|k: int|
            0 <= k < devices.len() && (#[trigger] devices[k]).member("ID"@) == Some(
                JsonView::Number(JsonNumber::Unsigned(1)),
            ) ==> devices.take(k + 1).flat_map(press).filter(is_programmed).len() <= press(
                devices[k],
            ).len(),
{
    assert(devices == listed_devices(list));
    assert forall|k: int| 0 <= k < devices.len() implies {
        &&& is_bridge(#[trigger] devices[k]) <==> devices[k].member("ID"@) == Some(
            JsonView::Number(JsonNumber::Unsigned(1)),
        )
        &&& is_bridge(devices[k]) ==> buttons(devices[k]) == press(devices[k])
        &&& all_scenes(devices.take(k + 1)).len() == devices.take(k + 1).flat_map(press).filter(
            is_programmed,
        ).len()
    } by {
        lemma_scene_count(devices.take(k + 1), press, is_programmed);
    }
}

/// Where there is no list there is nothing to count, and where there is no bridge,
/// or only one, the buttons can be counted.
pub proof fn law_the_buttons_of_one_bridge_can_be_counted(root: JsonView)
    ensures
        root.member("LIPIdList"@) is None ==> countable_report(root),
        root.member("LIPIdList"@) matches Some(list) ==> (match list.member("Devices"@) {
            Some(JsonView::Array(devices)) => forall|i: int, j: int|
                0 <= i < j < devices.len() ==> {
                    ||| (#[trigger] devices[i]).member("ID"@) != Some(
                        JsonView::Number(JsonNumber::Unsigned(1)),
                    )
                    ||| (#[trigger] devices[j]).member("ID"@) != Some(
                        JsonView::Number(JsonNumber::Unsigned(1)),
                    )
                },
            _ => true,
        }) ==> countable_report(root),
{
    if let Some(list) = root.member("LIPIdList"@) {
        let devices = listed_devices(list);
        if let Some(JsonView::Array(items)) = list.member("Devices"@) {
            assert(devices == items);
            if forall|i: int, j: int|
                0 <= i < j < items.len() ==> {
                    ||| (#[trigger] items[i]).member("ID"@) != Some(
                        JsonView::Number(JsonNumber::Unsigned(1)),
                    )
                    ||| (#[trigger] items[j]).member("ID"@) != Some(
                        JsonView::Number(JsonNumber::Unsigned(1)),
                    )
                } {
                assert forall|i: int, j: int| 0 <= i < j < devices.len() implies !is_bridge(
                    #[trigger] devices[i],
                ) || !is_bridge(#[trigger] devices[j]) by {
                }
                if exists|b: int| 0 <= b < devices.len() && is_bridge(#[trigger] devices[b]) {
                    let b = choose|b: int|
                        0 <= b < devices.len() && is_bridge(#[trigger] devices[b]);
                    assert forall|k: int| 0 <= k < devices.len() && k != b implies !is_bridge(
                        #[trigger] devices[k],
                    ) by {
                        if k < b {
                            assert(!is_bridge(devices[k]) || !is_bridge(devices[b]));
                        } else {
                            assert(!is_bridge(devices[b]) || !is_bridge(devices[k]));
                        }
                    }
                    law_every_button_is_accounted_for(list, b);
                }
            }
        }
    }
}

/// Text that is nothing but white space is refused as missing, and text that is no
/// JSON with the whole message of the parser. Anything else gives what the parsed
/// report gives.
pub proof fn law_texts_give_what_their_report_gives(text: Seq<char>, made: Result<
    Import,
    ImportError,
>)
    requires
        match made {
            Ok(import) => imported_text(text) == Ok::<ImportView, ImportErrorView>(import@),
            Err(error) => imported_text(text) == Err::<ImportView, ImportErrorView>(error@),
        },
    ensures
        trimmed(text).len() == 0 ==> (made matches Err(error) && error is NoText),
        trimmed(text).len() > 0 ==> match json_from_str(trimmed(text)) {
            Ok(root) => match made {
                Ok(import) => imported(root) == Ok::<ImportView, ImportErrorView>(import@),
                Err(error) => imported(root) == Err::<ImportView, ImportErrorView>(error@),
            },
            Err(message) => made matches Err(ImportError::NotJson(told)) && told@ == message,
        },
{
}

/// Whether the buttons of a text can be counted is a question only where it holds a
/// report.
pub proof fn law_texts_can_be_counted_as_their_report(text: Seq<char>)
    ensures
        trimmed(text).len() == 0 ==> countable_text(text),
        trimmed(text).len() > 0 ==> countable_text(text) == match json_from_str(trimmed(text)) {
            Ok(root) => countable_report(root),
            Err(_) => true,
        },
{
}

/// To try any text gives what to parse it gives, and nothing exactly where the
/// buttons that it leaves out cannot be counted.
pub proof fn law_trying_is_parsing_where_buttons_can_be_counted(text: Seq<char>)
    ensures
        countable_text(text) ==> tried_text(text) == Some(imported_text(text)),
        !countable_text(text) ==> tried_text(text) is None,
{
}

/// What the operator is told of each error.
pub proof fn law_errors_are_worded(error: ImportError)
    ensures
        error is NoText ==> error@.explanation() == "Paste the integration report first."@,
        error matches ImportError::NotJson(message) ==> error@.explanation()
            == "That does not parse as JSON ("@ + message@ + "). Paste the whole report."@,
        error is NoList ==> error@.explanation()
            == "No `LIPIdList` — is this a Caséta integration report?"@,
        error is NothingListed ==> error@.explanation()
            == "The report contained no zones, devices or scenes."@,
{
}

/// A noun takes an `s` unless it is counted once.
pub proof fn law_only_one_is_singular(n: nat)
    ensures
        n == 1 ==> plural_ending(n) == ""@,
        n != 1 ==> plural_ending(n) == "s"@,
{
}

/// The summary of an import without notes counts its devices and its scenes. Every
/// note is told behind a space: an import with one more note has the same summary
/// with that note behind it.
pub proof fn law_summaries_count_and_tell_every_note(import: Import, longer: Import, note: String)
    requires
        longer.devices@.len() == import.devices@.len(),
        longer.scenes@.len() == import.scenes@.len(),
        longer.skipped@ == import.skipped@.push(note),
    ensures
        import.skipped@.len() == 0 ==> import@.summary() == "Imported "@ + numeral(
            import.devices@.len(),
        ) + " device"@ + (if import.devices@.len() == 1 {
            ""@
        } else {
            "s"@
        }) + ", "@ + numeral(import.scenes@.len()) + " scene"@ + (if import.scenes@.len() == 1 {
            ""@
        } else {
            "s"@
        }) + "."@,
        longer@.summary() == import@.summary() + " "@ + note@,
{
    assert(longer@.skipped.drop_last() =~= import@.skipped);
    assert(longer@.skipped.last() == note@);
    assert(longer@.devices.len() == import@.devices.len());
    assert(longer@.scenes.len() == import@.scenes.len());
    assert(spaced(longer@.skipped) == spaced(import@.skipped) + " "@ + note@);
    assert(longer@.summary() =~= import@.summary() + " "@ + note@);
    if import.skipped@.len() == 0 {
        assert(spaced(import@.skipped) =~= Seq::empty());
        assert(import@.summary() =~= "Imported "@ + numeral(import.devices@.len()) + " device"@ + (
        if import.devices@.len() == 1 {
            ""@
        } else {
            "s"@
        }) + ", "@ + numeral(import.scenes@.len()) + " scene"@ + (if import.scenes@.len() == 1 {
            ""@
        } else {
            "s"@
        }) + "."@);
    }
}

// ---------------------------------------------------------------------------
// Lemmas
// ---------------------------------------------------------------------------

proof fn lemma_filter_map_is_filter<A, B>(
    s: Seq<A>,
    f: spec_fn(A) -> Option<B>,
    p: spec_fn(A) -> bool,
)
    requires
        forall|x: A| #[trigger] p(x) <==> f(x) is Some,
    ensures
        s.filter_map(f).len() == s.filter(p).len(),
        forall|i: int|
            0 <= i < s.filter(p).len() ==> {
                &&& p(#[trigger] s.filter(p)[i])
                &&& s.filter_map(f)[i] == f(s.filter(p)[i])->0
            },
    decreases s.len(),
{
    reveal(Seq::filter);
    if s.len() > 0 {
        lemma_filter_map_is_filter(s.drop_last(), f, p);
        assert(p(s.last()) <==> f(s.last()) is Some);
    }
}

proof fn lemma_device_row(
    id: u64,
    name: Seq<char>,
    kind: Option<Seq<char>>,
    place: Option<Seq<char>>,
)
    ensures
        ({
            let row = device_row(id, name, kind, place);
            &&& row.member("integration_id"@) == Some(JsonView::Number(JsonNumber::Unsigned(id)))
            &&& row.member("name"@) == Some(JsonView::String(name))
            &&& row.member("kind"@) == match kind {
                Some(text) => Some(JsonView::String(text)),
                None => None,
            }
            &&& row.member("area"@) == match place {
                Some(text) => Some(JsonView::String(text)),
                None => None,
            }
            &&& forall|key: Seq<char>|
                key != "integration_id"@ && key != "name"@ && key != "kind"@ && key != "area"@
                    ==> #[trigger] row.member(key) is None
        }),
{
    law_device_row_members(id, name, kind, place);
    let row = device_row(id, name, kind, place);
    let entries = row->Object_0;
    assert forall|key: Seq<char>|
        key != "integration_id"@ && key != "name"@ && key != "kind"@ && key
            != "area"@ implies #[trigger] row.member(key) is None by {
        law_members_are_found_under_their_first_key(row, key);
        assert forall|j: int| 0 <= j < entries.len() implies (#[trigger] entries[j]).0 != key by {
        }
    }
}

proof fn lemma_programmed(is_programmed: spec_fn(JsonView) -> bool)
    requires
        is_programmed == (|button: JsonView|
                {
                    &&& button.member("Number"@) matches Some(
                        JsonView::Number(JsonNumber::Unsigned(_)),
                    )
                    &&& button.member("Name"@) matches Some(JsonView::String(label)) && !exists|
                        digits: Seq<char>,
                    |
                        {
                            &&& label == #[trigger] ("Button "@ + digits)
                            &&& digits.len() > 0
                            &&& forall|i: int|
                                0 <= i < digits.len() ==> '0' <= #[trigger] digits[i] <= '9'
                        }
                }),
    ensures
        forall|button: JsonView| #[trigger] is_programmed(button) <==> scene_row(button) is Some,
{
    assert forall|button: JsonView| #[trigger] is_programmed(button) <==> scene_row(
        button,
    ) is Some by {
        if let Some(JsonView::String(label)) = button.member("Name"@) {
            law_placeholders_are_button_and_digits(label);
        }
    }
}

proof fn lemma_filter_map_adds<A, B>(s: Seq<A>, t: Seq<A>, f: spec_fn(A) -> Option<B>)
    ensures
        (s + t).filter_map(f) == s.filter_map(f) + t.filter_map(f),
    decreases t.len(),
{
    if t.len() == 0 {
        assert(s + t =~= s);
        assert(s.filter_map(f) + t.filter_map(f) =~= s.filter_map(f));
    } else {
        lemma_filter_map_adds(s, t.drop_last(), f);
        assert((s + t).drop_last() =~= s + t.drop_last());
        assert((s + t).filter_map(f) =~= s.filter_map(f) + t.filter_map(f));
    }
}

/// The scenes of the devices are the scenes of all buttons of the Smart Bridge.
proof fn lemma_scenes_are_flat(devices: Seq<JsonView>, press: spec_fn(JsonView) -> Seq<JsonView>)
    requires
        press == (|device: JsonView|
                match (device.member("ID"@), device.member("Buttons"@)) {
                    (
                        Some(JsonView::Number(JsonNumber::Unsigned(id))),
                        Some(JsonView::Array(found)),
                    ) => if id == 1 {
                        found
                    } else {
                        Seq::empty()
                    },
                    _ => Seq::empty(),
                }),
    ensures
        all_scenes(devices) == devices.flat_map(press).filter_map(
            |button: JsonView| scene_row(button),
        ),
    decreases devices.len(),
{
    let row = |button: JsonView| scene_row(button);
    let scenes = |device: JsonView| scenes_of(device);
    if devices.len() == 0 {
        assert(devices.flat_map(scenes) =~= Seq::empty());
        assert(devices.flat_map(press) =~= Seq::empty());
    } else {
        let n = devices.len() - 1;
        let rest = devices.drop_last();
        let last = devices.last();
        lemma_scenes_are_flat(rest, press);
        assert(devices.take(n) =~= rest);
        assert(devices.take(n + 1) =~= devices);
        devices.lemma_flat_map_take_append(scenes, n);
        devices.lemma_flat_map_take_append(press, n);
        lemma_filter_map_adds(rest.flat_map(press), press(last), row);
        assert(scenes_of(last) =~= press(last).filter_map(row));
        assert(all_scenes(devices) == all_scenes(rest) + scenes_of(last));
    }
}

proof fn lemma_scene_row(button: JsonView)
    requires
        scene_row(button) is Some,
    ensures
        ({
            let row = scene_row(button)->0;
            &&& row.member("name"@) == button.member("Name"@)
            &&& row.member("button_component"@) == button.member("Number"@)
            &&& row.member("bridge_id"@) == Some(JsonView::Number(JsonNumber::Unsigned(1)))
            &&& forall|key: Seq<char>|
                key != "name"@ && key != "button_component"@ && key != "bridge_id"@
                    ==> #[trigger] row.member(key) is None
        }),
{
    law_scene_row_members(button);
    let row = scene_row(button)->0;
    let entries = row->Object_0;
    assert forall|key: Seq<char>|
        key != "name"@ && key != "button_component"@ && key
            != "bridge_id"@ implies #[trigger] row.member(key) is None by {
        law_members_are_found_under_their_first_key(row, key);
        assert forall|j: int| 0 <= j < entries.len() implies (#[trigger] entries[j]).0 != key by {
        }
    }
}

proof fn lemma_scene_count(
    devices: Seq<JsonView>,
    press: spec_fn(JsonView) -> Seq<JsonView>,
    is_programmed: spec_fn(JsonView) -> bool,
)
    requires
        press == (|device: JsonView|
                match (device.member("ID"@), device.member("Buttons"@)) {
                    (
                        Some(JsonView::Number(JsonNumber::Unsigned(id))),
                        Some(JsonView::Array(found)),
                    ) => if id == 1 {
                        found
                    } else {
                        Seq::empty()
                    },
                    _ => Seq::empty(),
                }),
        is_programmed == (|button: JsonView|
                {
                    &&& button.member("Number"@) matches Some(
                        JsonView::Number(JsonNumber::Unsigned(_)),
                    )
                    &&& button.member("Name"@) matches Some(JsonView::String(label)) && !exists|
                        digits: Seq<char>,
                    |
                        {
                            &&& label == #[trigger] ("Button "@ + digits)
                            &&& digits.len() > 0
                            &&& forall|i: int|
                                0 <= i < digits.len() ==> '0' <= #[trigger] digits[i] <= '9'
                        }
                }),
    ensures
        all_scenes(devices).len() == devices.flat_map(press).filter(is_programmed).len(),
{
    lemma_programmed(is_programmed);
    lemma_scenes_are_flat(devices, press);
    lemma_filter_map_is_filter(
        devices.flat_map(press),
        |button: JsonView| scene_row(button),
        is_programmed,
    );
}

proof fn lemma_notes(
    devices: Seq<JsonView>,
    press: spec_fn(JsonView) -> Seq<JsonView>,
    is_programmed: spec_fn(JsonView) -> bool,
    notes: Seq<Seq<Seq<char>>>,
    n: int,
)
    requires
        press == (|device: JsonView|
                match (device.member("ID"@), device.member("Buttons"@)) {
                    (
                        Some(JsonView::Number(JsonNumber::Unsigned(id))),
                        Some(JsonView::Array(found)),
                    ) => if id == 1 {
                        found
                    } else {
                        Seq::empty()
                    },
                    _ => Seq::empty(),
                }),
        is_programmed == (|button: JsonView|
                {
                    &&& button.member("Number"@) matches Some(
                        JsonView::Number(JsonNumber::Unsigned(_)),
                    )
                    &&& button.member("Name"@) matches Some(JsonView::String(label)) && !exists|
                        digits: Seq<char>,
                    |
                        {
                            &&& label == #[trigger] ("Button "@ + digits)
                            &&& digits.len() > 0
                            &&& forall|i: int|
                                0 <= i < digits.len() ==> '0' <= #[trigger] digits[i] <= '9'
                        }
                }),
        notes.len() == devices.len(),
        0 <= n <= devices.len(),
        forall|k: int|
            0 <= k < devices.len() ==> #[trigger] notes[k] == ({
                let own = press(devices[k]).len();
                let scenes = devices.take(k + 1).flat_map(press).filter(is_programmed).len();
                if own > scenes {
                    seq![
                        "Ignored "@ + numeral((own - scenes) as nat)
                            + " unprogrammed phantom button"@ + (if own - scenes == 1 {
                            ""@
                        } else {
                            "s"@
                        }) + " on the bridge."@,
                    ]
                } else {
                    Seq::<Seq<char>>::empty()
                }
            }),
    ensures
        all_notes(devices.take(n)) == notes.take(n).flatten_alt(),
    decreases n,
{
    if n > 0 {
        lemma_notes(devices, press, is_programmed, notes, n - 1);
        lemma_scene_count(devices.take(n), press, is_programmed);
        assert(devices.take(n).drop_last() =~= devices.take(n - 1));
        assert(notes.take(n).drop_last() =~= notes.take(n - 1));
        assert(notes.take(n).last() == notes[n - 1]);
        let device = devices[n - 1];
        assert(devices.take(n).last() == device);
        assert(is_bridge(device) ==> buttons(device) == press(device));
        assert(!is_bridge(device) ==> press(device).len() == 0);
        assert(note_on(device, all_scenes(devices.take(n)).len()) =~= notes[n - 1]);
    } else {
        assert(all_notes(devices.take(0)) =~= notes.take(0).flatten_alt());
    }
}

} // verus!
