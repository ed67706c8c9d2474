use vstd::prelude::*;

verus! {

use crate::text::matches_keyword;
use crate::text::eq_ignore_case;

/// The sentinel that selects the operating system's default input device,
/// matched case-insensitively.
pub open spec fn is_default_sentinel(s: Seq<char>) -> bool {
    matches_keyword(s, seq!['d', 'e', 'f', 'a', 'u', 'l', 't'])
}

/// Which capture device a run should open.
#[derive(Clone, Copy, PartialEq, Eq, Structural, Debug)]
pub enum DeviceSelection {
    /// The operating system's default input device.
    DefaultDevice,
    /// The enumerated input device at this position.
    Named(usize),
}

/// Picks the capture device from the enumerated input-device names: the
/// case-insensitive sentinel selects the default device; any other request
/// must equal an enumerated name exactly, and the first such device wins;
/// otherwise the device is not found and the run cannot start.
pub fn select_input_device(requested: &str, names: &Vec<String>) -> (r: Option<DeviceSelection>)
    ensures
        is_default_sentinel(requested@) ==> r == Some(DeviceSelection::DefaultDevice),
        !is_default_sentinel(requested@) && (exists|j: int|
            0 <= j < names@.len() && #[trigger] names@[j]@ == requested@) ==> (r matches Some(
            DeviceSelection::Named(i),
        ) && 0 <= i < names@.len() && names@[i as int]@ == requested@ && forall|j: int|
            0 <= j < i ==> #[trigger] names@[j]@ != requested@),
        !is_default_sentinel(requested@) && (forall|j: int|
            0 <= j < names@.len() ==> #[trigger] names@[j]@ != requested@) ==> r is None,
{
    proof {
        reveal_strlit("default");
        assert("default"@ =~= seq!['d', 'e', 'f', 'a', 'u', 'l', 't']);
    }
    if eq_ignore_case(requested, "default") {
        return Some(DeviceSelection::DefaultDevice);
    }
    let req: String = requested.to_owned();
    let mut i: usize = 0;
    while i < names.len()
        invariant
            i <= names@.len(),
            req@ == requested@,
            !is_default_sentinel(requested@),
            forall|j: int| 0 <= j < i ==> #[trigger] names@[j]@ != requested@,
        decreases names@.len() - i,
    {
        if names[i] == req {
            return Some(DeviceSelection::Named(i));
        }
        i = i + 1;
    }
    None
}

} // verus!
