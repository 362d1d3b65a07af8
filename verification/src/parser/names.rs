use vstd::prelude::*;

verus! {

/// The display name of an element id.
pub open spec fn spec_ie_name(id: u8) -> &'static str {
    match id {
        0 => "SSID",
        1 => "Supported Rates",
        3 => "DS Parameter Set",
        7 => "Country",
        11 => "QBSS Load",
        45 => "HT Capabilities",
        48 => "RSN",
        50 => "Extended Supported Rates",
        61 => "HT Operation",
        70 => "RM Enabled Capabilities",
        127 => "Extended Capabilities",
        191 => "VHT Capabilities",
        192 => "VHT Operation",
        221 => "Vendor Specific",
        255 => "Extended Element",
        _ => "Unknown",
    }
}

/// The display name of an extension id (the first body byte of element 255).
pub open spec fn spec_ext_ie_name(ext_id: u8) -> &'static str {
    match ext_id {
        35 => "HE Capabilities",
        36 => "HE Operation",
        106 => "EHT Operation",
        107 => "EHT Multi-Link",
        108 => "EHT Capabilities",
        _ => "Unknown Extension",
    }
}

/// Name of an information element id.
pub fn ie_name(id: u8) -> (name: &'static str)
    ensures
        name == spec_ie_name(id),
{
    match id {
        0 => "SSID",
        1 => "Supported Rates",
        3 => "DS Parameter Set",
        7 => "Country",
        11 => "QBSS Load",
        45 => "HT Capabilities",
        48 => "RSN",
        50 => "Extended Supported Rates",
        61 => "HT Operation",
        70 => "RM Enabled Capabilities",
        127 => "Extended Capabilities",
        191 => "VHT Capabilities",
        192 => "VHT Operation",
        221 => "Vendor Specific",
        255 => "Extended Element",
        _ => "Unknown",
    }
}

/// Name of an extended element, by its extension id.
pub fn ext_ie_name(ext_id: u8) -> (name: &'static str)
    ensures
        name == spec_ext_ie_name(ext_id),
{
    match ext_id {
        35 => "HE Capabilities",
        36 => "HE Operation",
        106 => "EHT Operation",
        107 => "EHT Multi-Link",
        108 => "EHT Capabilities",
        _ => "Unknown Extension",
    }
}

} // verus!
