//! Places in the project and places in the list that is shown.
//!
//! In the project the oldest fragment comes first; the list shows the newest first.
use vstd::prelude::*;

verus! {

/// The place in the list of the fragment in a place of the project.
pub open spec fn ui_place(orig: int, total: int) -> int {
    total - 1 - orig
}

/// Where a fragment of the project stands in the list, or -1.
pub fn orig_to_ui_index(orig: usize, total_files: usize) -> (r: i32)
    ensures
        r == (if orig >= total_files {
            -1i32
        } else {
            (total_files - 1 - orig) as i32
        }),
{
    if total_files == 0 || orig >= total_files {
        -1
    } else {
        (total_files - 1 - orig) as i32
    }
}

/// Which fragment of the project stands in a place of the list.
pub fn ui_to_orig_index(ui_index: i32, total_files: usize) -> (r: Option<usize>)
    ensures
        r == (if 0 <= ui_index < total_files {
            Some((total_files - 1 - ui_index) as usize)
        } else {
            None
        }),
{
    if total_files == 0 || ui_index < 0 {
        return None;
    }
    let u: usize = ui_index as usize;
    if u >= total_files {
        return None;
    }
    Some(total_files - 1 - u)
}

/// Whether a place of the list shows a fragment that was said to start a section.
pub open spec fn section_shown<F: Fn(usize) -> bool>(
    has_section: &F,
    total: int,
    ui: int,
    said: bool,
) -> bool {
    0 <= ui < total && call_ensures(has_section, ((total - 1 - ui) as usize,), said)
}

/// The nearest place of the list that shows a section: above the current one
/// when `next` (newer), below it otherwise (older).
pub fn find_section_ui_index<F: Fn(usize) -> bool>(
    total_files: usize,
    current_ui: i32,
    next: bool,
    has_section: &F,
) -> (r: Option<i32>)
    requires
        total_files <= i32::MAX,
        current_ui < i32::MAX,
        forall|k: usize| k < total_files ==> call_requires(has_section, (k,)),
    ensures
        match r {
            Some(ui) => {
                &&& section_shown(has_section, total_files as int, ui as int, true)
                &&& if next {
                    ui < current_ui
                } else {
                    ui > current_ui
                }
                &&& forall|k: int|
                    0 <= k < total_files && (if next {
                        ui < k < current_ui
                    } else {
                        current_ui < k < ui
                    }) ==> #[trigger] section_shown(has_section, total_files as int, k, false)
            },
            None => forall|k: int|
                0 <= k < total_files && (if next {
                    k < current_ui
                } else {
                    k > current_ui
                }) ==> #[trigger] section_shown(has_section, total_files as int, k, false),
        },
{
    if next {
        let mut ui: i32 = current_ui;
        while ui > 0
            invariant
                next,
                ui <= current_ui,
                total_files <= i32::MAX,
                forall|k: usize| k < total_files ==> call_requires(has_section, (k,)),
                forall|k: int|
                    0 <= k < total_files && ui <= k < current_ui ==> #[trigger] section_shown(
                        has_section,
                        total_files as int,
                        k,
                        false,
                    ),
            decreases ui,
        {
            ui = ui - 1;
            if let Some(orig) = ui_to_orig_index(ui, total_files) {
                if has_section(orig) {
                    assert(section_shown(has_section, total_files as int, ui as int, true));
                    return Some(ui);
                }
                assert(section_shown(has_section, total_files as int, ui as int, false));
            }
        }
        None
    } else {
        let end: i32 = total_files as i32;
        let mut ui: i32 = current_ui + 1;
        while ui < end
            invariant
                !next,
                ui > current_ui,
                end == total_files,
                total_files <= i32::MAX,
                forall|k: usize| k < total_files ==> call_requires(has_section, (k,)),
                forall|k: int|
                    0 <= k < total_files && current_ui < k < ui ==> #[trigger] section_shown(
                        has_section,
                        total_files as int,
                        k,
                        false,
                    ),
            decreases end - ui,
        {
            if let Some(orig) = ui_to_orig_index(ui, total_files) {
                if has_section(orig) {
                    assert(section_shown(has_section, total_files as int, ui as int, true));
                    return Some(ui);
                }
                assert(section_shown(has_section, total_files as int, ui as int, false));
            }
            ui = ui + 1;
        }
        None
    }
}

/// Going to the list and back gives the same fragment.
pub proof fn list_places_are_inverse(orig: int, total: int)
    requires
        0 <= orig < total,
    ensures
        0 <= ui_place(orig, total) < total,
        ui_place(ui_place(orig, total), total) == orig,
{
}

} // verus!
