use vstd::prelude::*;

verus! {

/// What an update check found.
#[derive(Debug, Clone)]
pub struct UpdateInfo {
    pub available: bool,
    pub version: Option<String>,
    pub notes: Option<String>,
    pub pub_date: Option<String>,
}

/// The report of an update check: an offered update's version, notes and date, or
/// nothing available.
pub fn update_info(offer: Option<(String, Option<String>, Option<String>)>) -> (r: UpdateInfo)
    ensures
        (match offer {
            Some(o) => r.available && r.version == Some(o.0) && r.notes == o.1 && r.pub_date == o.2,
            None => !r.available && r.version is None && r.notes is None && r.pub_date is None,
        }),
{
    match offer {
        Some((version, notes, pub_date)) => UpdateInfo { available: true, version: Some(version), notes, pub_date },
        None => UpdateInfo { available: false, version: None, notes: None, pub_date: None },
    }
}

} // verus!
