//! The switches that choose how composites and text are recorded.

use vstd::prelude::*;
use vstd::string::StrSliceExecFns;

verus! {

/// Whether a setting is one of the words that switch off.
pub open spec fn off_word(v: Seq<char>) -> bool {
    v == "off"@ || v == "0"@ || v == "false"@ || v == "no"@
}

/// Whether two texts are the same.
fn same_text(a: &str, b: &str) -> (r: bool)
    ensures
        r == (a@ == b@),
{
    let n: usize = a.unicode_len();
    if n != b.unicode_len() {
        return false;
    }
    let mut i: usize = 0;
    while i < n
        invariant
            i <= n,
            n == a@.len(),
            n == b@.len(),
            forall|j: int| 0 <= j < i ==> a@[j] == b@[j],
        decreases n - i,
    {
        if a.get_char(i) != b.get_char(i) {
            return false;
        }
        i = i + 1;
    }
    proof {
        assert(a@ =~= b@);
    }
    true
}

fn is_off_word(v: &str) -> (r: bool)
    ensures
        r == off_word(v@),
{
    same_text(v, "off") || same_text(v, "0") || same_text(v, "false") || same_text(v, "no")
}

/// Whether a setting leaves its feature on: everything but the words that
/// switch off does, and so does no setting at all.
pub open spec fn switched_on(setting: Option<&str>) -> bool {
    match setting {
        Some(v) => !off_word(v@),
        None => true,
    }
}

/// Whether text is recorded into frames, by the setting of the environment.
pub fn frame_builder_enabled(setting: Option<&str>) -> (r: bool)
    ensures
        r == switched_on(setting),
{
    match setting {
        Some(v) => !is_off_word(v),
        None => true,
    }
}

/// Whether composites are recorded into frames. Decided once, by the first
/// look at the environment or by an override.
pub struct CompositeSwitch {
    pub cell: Option<bool>,
}

impl CompositeSwitch {
    /// A switch that is not decided yet.
    pub fn new() -> (r: CompositeSwitch)
        ensures
            r.cell is None,
    {
        CompositeSwitch { cell: None }
    }
}

/// Whether composites are recorded into frames. The setting counts only the
/// first time.
pub fn frame_builder_render_composite_enabled(
    switch: &mut CompositeSwitch,
    setting: Option<&str>,
) -> (r: bool)
    ensures
        r == match old(switch).cell {
            Some(on) => on,
            None => switched_on(setting),
        },
        final(switch).cell == Some(r),
{
    match switch.cell {
        Some(on) => on,
        None => {
            let on: bool = frame_builder_enabled(setting);
            switch.cell = Some(on);
            on
        },
    }
}

/// Overrides the switch, whether or not it was decided.
pub fn set_frame_builder_render_composite_enabled_for_tests(switch: &mut CompositeSwitch, on: bool)
    ensures
        final(switch).cell == Some(on),
{
    switch.cell = Some(on);
}

} // verus!
