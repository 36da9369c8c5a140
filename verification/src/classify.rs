//! What kind of window a snapshot shows.

use crate::model::AxRole;
use crate::protocol::WindowKind;
use vstd::prelude::*;

verus! {

/// The kind of a window: off the base layer a transient, on it a sheet when
/// accessibility says so, and a normal window otherwise.
pub open spec fn kind_of(layer: i64, ax_role: AxRole) -> WindowKind {
    if layer != 0 {
        WindowKind::Transient
    } else if ax_role == AxRole::Sheet {
        WindowKind::Sheet
    } else {
        WindowKind::Normal
    }
}

pub fn classify(layer: i64, ax_role: AxRole) -> (kind: WindowKind)
    ensures
        kind == kind_of(layer, ax_role),
{
    if layer != 0 {
        WindowKind::Transient
    } else if ax_role == AxRole::Sheet {
        WindowKind::Sheet
    } else {
        WindowKind::Normal
    }
}

} // verus!
