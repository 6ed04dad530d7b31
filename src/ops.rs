use crate::identity::{generate_identity, is_well_formed_identity};
use crate::model::{empty_identity, CursorDeviceInfo, DeviceIdentity};
use crate::store::{base_entries, identity_of, merged_entries, parsed_object, pretty_object, read_device_info, reset_document};
use vstd::prelude::*;

verus! {

/// What the identity record of the store at `package_path` reads as, given
/// the store's text (`None` where it could not be read). An empty path means
/// that no store was found.
pub open spec fn inspected_identity(package_path: Seq<char>, contents: Option<&str>) -> DeviceIdentity {
    if package_path.len() == 0 {
        empty_identity()
    } else {
        match contents {
            Some(t) => match parsed_object(t@) {
                Some(e) => identity_of(e),
                None => empty_identity(),
            },
            None => empty_identity(),
        }
    }
}

/// Inspect: the identity record held by the store at `package_path`, whose
/// text is `contents`; the all-empty record where no store was found, it
/// could not be read, or it is not a JSON object.
pub fn get_device_info(package_path: &str, contents: Option<&str>) -> (r: CursorDeviceInfo)
    ensures
        r@ == inspected_identity(package_path@, contents),
{
    if package_path.unicode_len() == 0 {
        return CursorDeviceInfo::empty();
    }
    match contents {
        Some(t) => read_device_info(t),
        None => CursorDeviceInfo::empty(),
    }
}

/// What a reset has decided.
pub enum ResetPlan {
    /// No store was found: nothing is written and the record is all empty.
    NotConfigured,
    /// The store is to be rewritten with `document`, which holds `info`.
    Rewrite { info: CursorDeviceInfo, document: String },
}

impl ResetPlan {
    /// The record that the reset reports.
    pub fn identity(&self) -> (r: CursorDeviceInfo)
        ensures
            r@ == match self {
                ResetPlan::NotConfigured => empty_identity(),
                ResetPlan::Rewrite { info, .. } => info@,
            },
    {
        match self {
            ResetPlan::NotConfigured => CursorDeviceInfo::empty(),
            ResetPlan::Rewrite { info, .. } => CursorDeviceInfo::new(
                info.mac_machine_id.clone(),
                info.machine_id.clone(),
                info.sqm_id.clone(),
                info.dev_device_id.clone(),
            ),
        }
    }
}

/// Reset, for a given new identity `info`: with no store found (an empty
/// `package_path`) nothing is to be done; otherwise the store's text
/// `existing` (`None` where it could not be read) gets `info` in its identity
/// fields and keeps every other entry.
pub fn plan_reset(package_path: &str, existing: Option<&str>, info: CursorDeviceInfo) -> (r: ResetPlan)
    ensures
        package_path@.len() == 0 ==> r is NotConfigured,
        package_path@.len() > 0 ==> r is Rewrite,
        r matches ResetPlan::Rewrite { info: i, document } ==> i@ == info@ && document@
            == pretty_object(merged_entries(base_entries(existing), info@)),
{
    if package_path.unicode_len() == 0 {
        return ResetPlan::NotConfigured;
    }
    let document = reset_document(existing, &info);
    ResetPlan::Rewrite { info, document }
}

/// Reset: with no store found (an empty `package_path`) nothing is to be
/// done; otherwise a fresh, well-formed identity is generated and the store's
/// text `existing` (`None` where it could not be read) gets it in its
/// identity fields, keeping every other entry.
pub fn reset_device_info(package_path: &str, existing: Option<&str>) -> (r: ResetPlan)
    ensures
        package_path@.len() == 0 ==> r is NotConfigured,
        package_path@.len() > 0 ==> r is Rewrite,
        r matches ResetPlan::Rewrite { info, document } ==> is_well_formed_identity(info@)
            && document@ == pretty_object(merged_entries(base_entries(existing), info@)),
{
    if package_path.unicode_len() == 0 {
        return ResetPlan::NotConfigured;
    }
    let info = generate_identity();
    plan_reset(package_path, existing, info)
}

} // verus!
