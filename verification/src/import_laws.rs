//! What holds of every import.

use crate::import::{
    all_notes, all_scenes, area, buttons, countable, countable_text, device_row, devices,
    ignored_note, import_of, imported, imported_text, is_bridge, note_on, pico_row, pico_rows,
    placeholder, plural_ending, scene_row, scenes_of, spaced, zone_row, zone_rows, zones,
    ImportErrorView, ImportView, SMART_BRIDGE_ID,
};
use crate::json::{first_under, text_under, unsigned_under, JsonNumber, JsonView};
use crate::text::{
    blank, law_numerals_are_digits, law_trim_drops_outer_white_space, law_trim_is_idempotent,
    numeral, one_line, trimmed,
};
use vstd::prelude::*;

verus! {

broadcast use vstd::string::group_string_axioms;

/// A device row has its ID and its name, and has a kind or an area exactly if
/// one was given: what is absent has no key at all.
pub proof fn law_device_row_members(
    id: u64,
    name: Seq<char>,
    kind: Option<Seq<char>>,
    place: Option<Seq<char>>,
)
    ensures
        unsigned_under(device_row(id, name, kind, place), "integration_id"@) == Some(id),
        text_under(device_row(id, name, kind, place), "name"@) == Some(name),
        device_row(id, name, kind, place).member("kind"@) == match kind {
            Some(text) => Some(JsonView::String(text)),
            None => None,
        },
        device_row(id, name, kind, place).member("area"@) == match place {
            Some(text) => Some(JsonView::String(text)),
            None => None,
        },
{
    reveal_strlit("integration_id");
    reveal_strlit("name");
    reveal_strlit("kind");
    reveal_strlit("area");
    reveal_with_fuel(first_under, 5);
    let entries = device_row(id, name, kind, place)->Object_0;
    let rest = entries.drop_first().drop_first();
    assert("integration_id"@.len() == 14);
    assert("name"@[0] == 'n');
    assert("kind"@[0] == 'k');
    assert("area"@[0] == 'a');
    assert(entries[0] == ("integration_id"@, JsonView::Number(JsonNumber::Unsigned(id))));
    assert(entries[1] == ("name"@, JsonView::String(name)));
    match (kind, place) {
        (Some(k), Some(a)) => {
            assert(rest =~= seq![("kind"@, JsonView::String(k)), ("area"@, JsonView::String(a))]);
            assert(rest.drop_first() =~= seq![("area"@, JsonView::String(a))]);
        },
        (Some(k), None) => {
            assert(rest =~= seq![("kind"@, JsonView::String(k))]);
            assert(rest.drop_first() =~= Seq::empty());
        },
        (None, Some(a)) => {
            assert(rest =~= seq![("area"@, JsonView::String(a))]);
            assert(rest.drop_first() =~= Seq::empty());
        },
        (None, None) => {
            assert(rest =~= Seq::empty());
        },
    }
}

/// Every zone that has an ID and a name lands as a device row with that ID and
/// that name. Every row of a zone comes from such a zone, and has no kind: none
/// is guessed.
pub proof fn law_zones_become_devices_without_a_kind(list: JsonView)
    ensures
        forall|k: int|
            0 <= k < zones(list).len() && zone_row(#[trigger] zones(list)[k]) is Some
                ==> zone_rows(list).contains(zone_row(zones(list)[k])->0),
        forall|i: int|
            0 <= i < zone_rows(list).len() ==> {
                let row = #[trigger] zone_rows(list)[i];
                &&& row.member("kind"@) is None
                &&& exists|zone: JsonView|
                    {
                        &&& #[trigger] zones(list).contains(zone)
                        &&& unsigned_under(row, "integration_id"@) == unsigned_under(zone, "ID"@)
                        &&& text_under(row, "name"@) == text_under(zone, "Name"@)
                        &&& unsigned_under(row, "integration_id"@) is Some
                        &&& text_under(row, "name"@) is Some
                    }
            },
{
    let f = |zone: JsonView| zone_row(zone);
    assert forall|k: int|
        0 <= k < zones(list).len() && zone_row(#[trigger] zones(list)[k]) is Some implies zone_rows(
        list,
    ).contains(zone_row(zones(list)[k])->0) by {
        lemma_filter_map_keeps(zones(list), f, k);
    }
    assert forall|i: int| 0 <= i < zone_rows(list).len() implies {
        let row = #[trigger] zone_rows(list)[i];
        &&& row.member("kind"@) is None
        &&& exists|zone: JsonView|
            {
                &&& #[trigger] zones(list).contains(zone)
                &&& unsigned_under(row, "integration_id"@) == unsigned_under(zone, "ID"@)
                &&& text_under(row, "name"@) == text_under(zone, "Name"@)
                &&& unsigned_under(row, "integration_id"@) is Some
                &&& text_under(row, "name"@) is Some
            }
    } by {
        let row = zone_rows(list)[i];
        assert(zones(list).filter_map(f).contains(row));
        zones(list).lemma_filter_map_contains(f, row);
        let zone = choose|zone: JsonView| #[trigger]
            zones(list).contains(zone) && f(zone) == Some(row);
        law_device_row_members(
            unsigned_under(zone, "ID"@)->0,
            text_under(zone, "Name"@)->0,
            None,
            area(zone),
        );
    }
}

/// Every device that has an ID and buttons, but for the Smart Bridge, lands as a
/// device row of the kind `pico`. Every such row comes from such a device.
pub proof fn law_button_devices_become_picos(list: JsonView)
    ensures
        forall|k: int|
            0 <= k < devices(list).len() && {
                let device = #[trigger] devices(list)[k];
                &&& unsigned_under(device, "ID"@) is Some
                &&& !is_bridge(device)
                &&& buttons(device).len() > 0
            } ==> pico_rows(list).contains(pico_row(devices(list)[k])->0),
        forall|i: int|
            0 <= i < pico_rows(list).len() ==> {
                let row = #[trigger] pico_rows(list)[i];
                &&& row.member("kind"@) == Some(JsonView::String("pico"@))
                &&& exists|device: JsonView|
                    {
                        &&& #[trigger] devices(list).contains(device)
                        &&& unsigned_under(row, "integration_id"@) == unsigned_under(device, "ID"@)
                        &&& unsigned_under(row, "integration_id"@) is Some
                        &&& !is_bridge(device)
                        &&& buttons(device).len() > 0
                    }
            },
{
    let f = |device: JsonView| pico_row(device);
    assert forall|k: int|
        0 <= k < devices(list).len() && {
            let device = #[trigger] devices(list)[k];
            &&& unsigned_under(device, "ID"@) is Some
            &&& !is_bridge(device)
            &&& buttons(device).len() > 0
        } implies pico_rows(list).contains(pico_row(devices(list)[k])->0) by {
        lemma_filter_map_keeps(devices(list), f, k);
    }
    assert forall|i: int| 0 <= i < pico_rows(list).len() implies {
        let row = #[trigger] pico_rows(list)[i];
        &&& row.member("kind"@) == Some(JsonView::String("pico"@))
        &&& exists|device: JsonView|
            {
                &&& #[trigger] devices(list).contains(device)
                &&& unsigned_under(row, "integration_id"@) == unsigned_under(device, "ID"@)
                &&& unsigned_under(row, "integration_id"@) is Some
                &&& !is_bridge(device)
                &&& buttons(device).len() > 0
            }
    } by {
        let row = pico_rows(list)[i];
        assert(devices(list).filter_map(f).contains(row));
        devices(list).lemma_filter_map_contains(f, row);
        let device = choose|device: JsonView| #[trigger]
            devices(list).contains(device) && f(device) == Some(row);
        law_device_row_members(
            unsigned_under(device, "ID"@)->0,
            match text_under(device, "Name"@) {
                Some(name) => name,
                None => ""@,
            },
            Some("pico"@),
            area(device),
        );
    }
}

/// The Smart Bridge never lands as a device: no device row has its ID, unless a
/// zone of the report claims that ID.
pub proof fn law_the_bridge_is_no_device(list: JsonView)
    requires
        forall|k: int|
            0 <= k < zones(list).len() ==> unsigned_under(#[trigger] zones(list)[k], "ID"@) != Some(
                SMART_BRIDGE_ID,
            ),
    ensures
        forall|i: int|
            0 <= i < import_of(list).devices.len() ==> unsigned_under(
                #[trigger] import_of(list).devices[i],
                "integration_id"@,
            ) != Some(SMART_BRIDGE_ID),
{
    law_zones_become_devices_without_a_kind(list);
    law_button_devices_become_picos(list);
    assert forall|i: int| 0 <= i < import_of(list).devices.len() implies unsigned_under(
        #[trigger] import_of(list).devices[i],
        "integration_id"@,
    ) != Some(SMART_BRIDGE_ID) by {
        let n = zone_rows(list).len();
        if i < n {
            let row = zone_rows(list)[i];
            assert(import_of(list).devices[i] == row);
        } else {
            let row = pico_rows(list)[i - n];
            assert(import_of(list).devices[i] == row);
        }
    }
}

/// The area of a row is the trimmed name of the area in the report. It is never
/// empty, and where the report names none, the row has no area at all.
pub proof fn law_rows_have_the_area_of_the_report(node: JsonView)
    ensures
        area(node) matches Some(name) ==> name.len() > 0 && trimmed(name) == name,
        zone_row(node) matches Some(row) ==> row.member("area"@) == match area(node) {
            Some(name) => Some(JsonView::String(name)),
            None => None,
        },
        pico_row(node) matches Some(row) ==> row.member("area"@) == match area(node) {
            Some(name) => Some(JsonView::String(name)),
            None => None,
        },
{
    if let Some(place) = node.member("Area"@) {
        if let Some(name) = text_under(place, "Name"@) {
            law_trim_is_idempotent(name);
        }
    }
    if zone_row(node) is Some {
        law_device_row_members(
            unsigned_under(node, "ID"@)->0,
            text_under(node, "Name"@)->0,
            None,
            area(node),
        );
    }
    if pico_row(node) is Some {
        law_device_row_members(
            unsigned_under(node, "ID"@)->0,
            match text_under(node, "Name"@) {
                Some(name) => name,
                None => ""@,
            },
            Some("pico"@),
            area(node),
        );
    }
}

/// A scene row has the name and the number of its button, and the bridge's ID.
pub proof fn law_scene_row_members(button: JsonView)
    requires
        scene_row(button) is Some,
    ensures
        text_under(scene_row(button)->0, "name"@) == text_under(button, "Name"@),
        unsigned_under(scene_row(button)->0, "button_component"@) == unsigned_under(
            button,
            "Number"@,
        ),
        unsigned_under(scene_row(button)->0, "bridge_id"@) == Some(SMART_BRIDGE_ID),
{
    reveal_strlit("name");
    reveal_strlit("button_component");
    reveal_strlit("bridge_id");
    reveal_with_fuel(first_under, 4);
    let entries = scene_row(button)->0->Object_0;
    assert("name"@.len() == 4);
    assert("button_component"@.len() == 16);
    assert("bridge_id"@.len() == 9);
    assert(entries.drop_first()[0] == entries[1]);
    assert(entries.drop_first().drop_first()[0] == entries[2]);
}

/// A button of the Smart Bridge becomes a scene exactly if it has a number and a
/// name that is no placeholder.
pub proof fn law_only_programmed_buttons_become_scenes(list: JsonView)
    ensures
        forall|k: int, b: int|
            #![trigger buttons(devices(list)[k])[b]]
            0 <= k < devices(list).len() && is_bridge(devices(list)[k]) && 0 <= b < buttons(
                devices(list)[k],
            ).len() && scene_row(buttons(devices(list)[k])[b]) is Some
                ==> import_of(list).scenes.contains(scene_row(buttons(devices(list)[k])[b])->0),
        forall|i: int|
            0 <= i < import_of(list).scenes.len() ==> {
                let row = #[trigger] import_of(list).scenes[i];
                &&& text_under(row, "name"@) is Some
                &&& !placeholder(text_under(row, "name"@)->0)
                &&& unsigned_under(row, "button_component"@) is Some
                &&& unsigned_under(row, "bridge_id"@) == Some(SMART_BRIDGE_ID)
            },
{
    let f = |button: JsonView| scene_row(button);
    assert forall|k: int, b: int|
        #![trigger buttons(devices(list)[k])[b]]
        0 <= k < devices(list).len() && is_bridge(devices(list)[k]) && 0 <= b < buttons(
            devices(list)[k],
        ).len() && scene_row(buttons(devices(list)[k])[b]) is Some implies import_of(
        list,
    ).scenes.contains(scene_row(buttons(devices(list)[k])[b])->0) by {
        lemma_filter_map_keeps(buttons(devices(list)[k]), f, b);
        lemma_scenes_keep(devices(list), k, scene_row(buttons(devices(list)[k])[b])->0);
    }
    assert forall|i: int| 0 <= i < import_of(list).scenes.len() implies {
        let row = #[trigger] import_of(list).scenes[i];
        &&& text_under(row, "name"@) is Some
        &&& !placeholder(text_under(row, "name"@)->0)
        &&& unsigned_under(row, "button_component"@) is Some
        &&& unsigned_under(row, "bridge_id"@) == Some(SMART_BRIDGE_ID)
    } by {
        let row = import_of(list).scenes[i];
        lemma_scenes_come_from_devices(devices(list), i);
        let k = choose|k: int|
            0 <= k < devices(list).len() && #[trigger] scenes_of(devices(list)[k]).contains(row);
        let found = buttons(devices(list)[k]);
        found.lemma_filter_map_contains(f, row);
        let button = choose|button: JsonView| #[trigger]
            found.contains(button) && f(button) == Some(row);
        law_scene_row_members(button);
    }
}

/// Where the report lists the Smart Bridge once, every button of it is accounted
/// for: those that are no scenes are counted in the one note, and there is no
/// note if there are none.
pub proof fn law_every_button_is_accounted_for(list: JsonView, b: int)
    requires
        0 <= b < devices(list).len(),
        is_bridge(devices(list)[b]),
        forall|k: int|
            0 <= k < devices(list).len() && k != b ==> !is_bridge(#[trigger] devices(list)[k]),
    ensures
        countable(devices(list)),
        import_of(list).scenes.len() <= buttons(devices(list)[b]).len(),
        import_of(list).skipped == if import_of(list).scenes.len() < buttons(
            devices(list)[b],
        ).len() {
            seq![
                ignored_note(
                    (buttons(devices(list)[b]).len() - import_of(list).scenes.len()) as nat,
                ),
            ]
        } else {
            Seq::<Seq<char>>::empty()
        },
{
    let all = devices(list);
    lemma_one_bridge(all, b, all.len() as int);
    assert(all.take(all.len() as int) =~= all);
    lemma_filter_map_len(buttons(all[b]), |button: JsonView| scene_row(button));
    assert forall|k: int| 0 <= k < all.len() && is_bridge(#[trigger] all[k]) implies all_scenes(
        all.take(k + 1),
    ).len() <= buttons(all[k]).len() by {
        lemma_one_bridge(all, b, k + 1);
    }
}

/// A report without the Smart Bridge has no scenes and nothing to note.
pub proof fn law_without_the_bridge_there_are_no_scenes(list: JsonView)
    requires
        forall|k: int| 0 <= k < devices(list).len() ==> !is_bridge(#[trigger] devices(list)[k]),
    ensures
        countable(devices(list)),
        import_of(list).scenes.len() == 0,
        import_of(list).skipped.len() == 0,
{
    let all = devices(list);
    lemma_no_bridge(all, all.len() as int);
    assert(all.take(all.len() as int) =~= all);
}

/// An import that is made is never empty.
pub proof fn law_an_import_holds_something(root: JsonView)
    ensures
        imported(root) matches Ok(import) ==> import.devices.len() > 0 || import.scenes.len() > 0,
{
}

/// White space around the report does not matter.
pub proof fn law_outer_white_space_does_not_matter(
    before: Seq<char>,
    text: Seq<char>,
    after: Seq<char>,
)
    requires
        blank(before),
        blank(after),
    ensures
        imported_text(before + text + after) == imported_text(text),
        countable_text(before + text + after) == countable_text(text),
{
    law_trim_drops_outer_white_space(before, text, after);
}

/// What the app calls the button of any number is a placeholder.
pub proof fn law_numbered_buttons_are_placeholders(n: nat)
    ensures
        placeholder("Button "@ + numeral(n)),
{
    let stem = "Button "@;
    law_numerals_are_digits(n);
    assert((stem + numeral(n)).take(stem.len() as int) =~= stem);
    assert forall|i: int| stem.len() <= i < (stem + numeral(n)).len() implies '0' <= #[trigger] (
    stem + numeral(n))[i] <= '9' by {
        assert((stem + numeral(n))[i] == numeral(n)[i - stem.len()]);
    }
}

/// The summary of every import made from a report is one line.
pub proof fn law_summaries_are_one_line(root: JsonView, import: ImportView)
    requires
        imported(root) == Ok::<ImportView, ImportErrorView>(import),
    ensures
        one_line(import.summary()),
{
    reveal_strlit("Imported ");
    reveal_strlit(" device");
    reveal_strlit(", ");
    reveal_strlit(" scene");
    reveal_strlit(".");
    lemma_endings_are_one_line(import.devices.len());
    lemma_endings_are_one_line(import.scenes.len());
    law_numerals_are_digits(import.devices.len());
    law_numerals_are_digits(import.scenes.len());
    lemma_notes_are_one_line(devices(root.member("LIPIdList"@)->0));
    lemma_spaced_notes_are_one_line(import.skipped);
}

// ---------------------------------------------------------------------------
// Lemmas
// ---------------------------------------------------------------------------

proof fn lemma_endings_are_one_line(n: nat)
    ensures
        one_line(plural_ending(n)),
{
    reveal_strlit("");
    reveal_strlit("s");
}

proof fn lemma_notes_are_one_line(all: Seq<JsonView>)
    ensures
        forall|i: int| 0 <= i < all_notes(all).len() ==> one_line(#[trigger] all_notes(all)[i]),
    decreases all.len(),
{
    if all.len() > 0 {
        lemma_notes_are_one_line(all.drop_last());
        let left_out = (buttons(all.last()).len() - all_scenes(all).len()) as nat;
        reveal_strlit("Ignored ");
        reveal_strlit(" unprogrammed phantom button");
        reveal_strlit(" on the bridge.");
        lemma_endings_are_one_line(left_out);
        law_numerals_are_digits(left_out);
        assert(one_line(ignored_note(left_out)));
        let before = all_notes(all.drop_last());
        assert forall|i: int| 0 <= i < all_notes(all).len() implies one_line(
            #[trigger] all_notes(all)[i],
        ) by {
            if i < before.len() {
                assert(all_notes(all)[i] == before[i]);
            } else {
                assert(all_notes(all)[i] == ignored_note(left_out));
            }
        }
    }
}

proof fn lemma_spaced_notes_are_one_line(notes: Seq<Seq<char>>)
    requires
        forall|i: int| 0 <= i < notes.len() ==> one_line(#[trigger] notes[i]),
    ensures
        one_line(spaced(notes)),
    decreases notes.len(),
{
    if notes.len() > 0 {
        reveal_strlit(" ");
        lemma_spaced_notes_are_one_line(notes.drop_last());
        assert(one_line(notes[notes.len() - 1]));
    }
}

proof fn lemma_filter_map_keeps<A, B>(s: Seq<A>, f: spec_fn(A) -> Option<B>, k: int)
    requires
        0 <= k < s.len(),
        f(s[k]) is Some,
    ensures
        s.filter_map(f).contains(f(s[k])->0),
    decreases s.len(),
{
    let rest = s.drop_last().filter_map(f);
    if k == s.len() - 1 {
        assert(s.filter_map(f)[rest.len() as int] == f(s[k])->0);
    } else {
        lemma_filter_map_keeps(s.drop_last(), f, k);
        let i = choose|i: int| 0 <= i < rest.len() && rest[i] == f(s[k])->0;
        assert(s.filter_map(f)[i] == f(s[k])->0);
    }
}

proof fn lemma_filter_map_len<A, B>(s: Seq<A>, f: spec_fn(A) -> Option<B>)
    ensures
        s.filter_map(f).len() <= s.len(),
    decreases s.len(),
{
    if s.len() > 0 {
        lemma_filter_map_len(s.drop_last(), f);
    }
}

/// The scenes of the first `n + 1` devices.
proof fn lemma_scenes_step(all: Seq<JsonView>, n: int)
    requires
        0 <= n < all.len(),
    ensures
        all_scenes(all.take(n + 1)) == all_scenes(all.take(n)) + scenes_of(all[n]),
        all_notes(all.take(n + 1)) == all_notes(all.take(n)) + note_on(
            all[n],
            all_scenes(all.take(n + 1)).len(),
        ),
{
    all.lemma_flat_map_take_append(|device: JsonView| scenes_of(device), n);
    assert(all.take(n + 1).drop_last() =~= all.take(n));
}

proof fn lemma_no_bridge(all: Seq<JsonView>, n: int)
    requires
        0 <= n <= all.len(),
        forall|k: int| 0 <= k < n ==> !is_bridge(#[trigger] all[k]),
    ensures
        all_scenes(all.take(n)) == Seq::<JsonView>::empty(),
        all_notes(all.take(n)) == Seq::<Seq<char>>::empty(),
    decreases n,
{
    if n > 0 {
        lemma_no_bridge(all, n - 1);
        lemma_scenes_step(all, n - 1);
    } else {
        assert(all_scenes(all.take(0)) =~= Seq::empty());
    }
}

proof fn lemma_one_bridge(all: Seq<JsonView>, b: int, n: int)
    requires
        0 <= b < n <= all.len(),
        is_bridge(all[b]),
        forall|k: int| 0 <= k < all.len() && k != b ==> !is_bridge(#[trigger] all[k]),
    ensures
        all_scenes(all.take(n)) == scenes_of(all[b]),
        all_notes(all.take(n)) == note_on(all[b], scenes_of(all[b]).len()),
        scenes_of(all[b]).len() <= buttons(all[b]).len(),
    decreases n,
{
    lemma_scenes_step(all, n - 1);
    if n - 1 == b {
        lemma_no_bridge(all, b);
        lemma_filter_map_len(buttons(all[b]), |button: JsonView| scene_row(button));
    } else {
        lemma_one_bridge(all, b, n - 1);
    }
    assert(all_scenes(all.take(n)) =~= scenes_of(all[b]));
    assert(all_notes(all.take(n)) =~= note_on(all[b], scenes_of(all[b]).len()));
}

proof fn lemma_scenes_keep(all: Seq<JsonView>, k: int, row: JsonView)
    requires
        0 <= k < all.len(),
        scenes_of(all[k]).contains(row),
    ensures
        all_scenes(all).contains(row),
    decreases all.len(),
{
    let n = all.len() - 1;
    lemma_scenes_step(all, n);
    assert(all.take(all.len() as int) =~= all);
    let before = all_scenes(all.take(n));
    if k == n {
        let j = choose|j: int| 0 <= j < scenes_of(all[k]).len() && scenes_of(all[k])[j] == row;
        assert(all_scenes(all)[before.len() + j] == row);
    } else {
        lemma_scenes_keep(all.take(n), k, row);
        let j = choose|j: int| 0 <= j < before.len() && before[j] == row;
        assert(all_scenes(all)[j] == row);
    }
}

proof fn lemma_scenes_come_from_devices(all: Seq<JsonView>, i: int)
    requires
        0 <= i < all_scenes(all).len(),
    ensures
        exists|k: int|
            0 <= k < all.len() && #[trigger] scenes_of(all[k]).contains(all_scenes(all)[i]),
    decreases all.len(),
{
    if all.len() == 0 {
        assert(all_scenes(all) =~= Seq::empty());
    } else {
        let n = all.len() - 1;
        lemma_scenes_step(all, n);
        assert(all.take(all.len() as int) =~= all);
        let before = all_scenes(all.take(n));
        if i < before.len() {
            lemma_scenes_come_from_devices(all.take(n), i);
            let k = choose|k: int|
                0 <= k < all.take(n).len() && #[trigger] scenes_of(all.take(n)[k]).contains(
                    before[i],
                );
            assert(scenes_of(all[k]).contains(all_scenes(all)[i]));
        } else {
            assert(scenes_of(all[n])[i - before.len()] == all_scenes(all)[i]);
            assert(scenes_of(all[n]).contains(all_scenes(all)[i]));
        }
    }
}

} // verus!
