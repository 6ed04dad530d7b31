use vstd::prelude::*;

verus! {

/// The four identity fields, as character sequences.
pub struct DeviceIdentity {
    pub mac_machine_id: Seq<char>,
    pub machine_id: Seq<char>,
    pub sqm_id: Seq<char>,
    pub dev_device_id: Seq<char>,
}

/// The identity record kept in the configuration store. An absent field is
/// the empty string.
#[derive(Clone, Debug)]
pub struct CursorDeviceInfo {
    pub mac_machine_id: String,
    pub machine_id: String,
    pub sqm_id: String,
    pub dev_device_id: String,
}

impl View for CursorDeviceInfo {
    type V = DeviceIdentity;

    open spec fn view(&self) -> DeviceIdentity {
        DeviceIdentity {
            mac_machine_id: self.mac_machine_id@,
            machine_id: self.machine_id@,
            sqm_id: self.sqm_id@,
            dev_device_id: self.dev_device_id@,
        }
    }
}

/// The record with every field empty: what "no identity available" reads as.
pub open spec fn empty_identity() -> DeviceIdentity {
    DeviceIdentity {
        mac_machine_id: Seq::empty(),
        machine_id: Seq::empty(),
        sqm_id: Seq::empty(),
        dev_device_id: Seq::empty(),
    }
}

/// The four fields joined by colons.
pub open spec fn joined_identity(d: DeviceIdentity) -> Seq<char> {
    d.mac_machine_id + seq![':'] + d.machine_id + seq![':'] + d.sqm_id + seq![':']
        + d.dev_device_id
}

impl CursorDeviceInfo {
    pub fn new(mac_machine_id: String, machine_id: String, sqm_id: String, dev_device_id: String)
        -> (r: CursorDeviceInfo)
        ensures
            r@ == (DeviceIdentity {
                mac_machine_id: mac_machine_id@,
                machine_id: machine_id@,
                sqm_id: sqm_id@,
                dev_device_id: dev_device_id@,
            }),
    {
        CursorDeviceInfo { mac_machine_id, machine_id, sqm_id, dev_device_id }
    }

    /// The record with every field empty.
    pub fn empty() -> (r: CursorDeviceInfo)
        ensures
            r@ == empty_identity(),
    {
        CursorDeviceInfo {
            mac_machine_id: String::new(),
            machine_id: String::new(),
            sqm_id: String::new(),
            dev_device_id: String::new(),
        }
    }

    pub fn reset(self) -> (r: CursorDeviceInfo)
        ensures
            r@ == self@,
    {
        self
    }

    /// The four fields, in declaration order, separated by `:`.
    pub fn blocking_kind(&self) -> (r: String)
        ensures
            r@ == joined_identity(self@),
    {
        let sep = ":";
        proof {
            reveal_strlit(":");
        }
        let mut r = self.mac_machine_id.clone();
        r.append(sep);
        r.append(self.machine_id.as_str());
        r.append(sep);
        r.append(self.sqm_id.as_str());
        r.append(sep);
        r.append(self.dev_device_id.as_str());
        assert(r@ =~= joined_identity(self@));
        r
    }
}

/// What is known of an installation, for display.
#[derive(Clone, Debug)]
pub struct CursorInstallInfo {
    pub install_path: String,
    pub install_language: String,
    pub install_version: String,
    pub install_user: String,
}

impl CursorInstallInfo {
    pub fn new(
        install_path: String,
        install_language: String,
        install_version: String,
        install_user: String,
    ) -> (r: Self)
        ensures
            r.install_path@ == install_path@,
            r.install_language@ == install_language@,
            r.install_version@ == install_version@,
            r.install_user@ == install_user@,
    {
        Self { install_path, install_language, install_version, install_user }
    }
}

} // verus!
