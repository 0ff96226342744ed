//! Naming of exported configuration snapshots: a project name and a
//! wall-clock timestamp joined into a `.json` file name. Where the file is
//! written is the caller's choice; only the name is computed here.

use vstd::prelude::*;
use vstd::string::{StrSliceExecFns, StringExecFns};

verus! {

/// The exported file name for a project name and a timestamp.
pub open spec fn export_file_name_spec(name: Seq<char>, timestamp: Seq<char>) -> Seq<char> {
    name + "_"@ + timestamp + ".json"@
}

/// Relies on chrono's `Local::now` and `DateTime::format`: the current
/// wall-clock time rendered as `%Y%m%d_%H%M%S`. The result depends on the
/// clock, so nothing is assumed of it.
#[verifier::external_body]
fn current_timestamp() -> (r: String) {
    chrono::Local::now().format("%Y%m%d_%H%M%S").to_string()
}

/// `name`, an underscore, `timestamp`, `.json`.
pub fn export_file_name(project_name: &str, timestamp: &str) -> (r: String)
    ensures
        r@ == export_file_name_spec(project_name@, timestamp@),
{
    let mut s = String::from_str(project_name);
    s.append("_");
    s.append(timestamp);
    s.append(".json");
    s
}

/// The exported file name for a project, stamped with the time of the call.
pub fn timestamped_export_file_name(project_name: &str) -> (r: String)
    ensures
        exists|ts: Seq<char>| r@ == export_file_name_spec(project_name@, ts),
{
    let ts = current_timestamp();
    let r = export_file_name(project_name, ts.as_str());
    proof {
        assert(r@ == export_file_name_spec(project_name@, ts@));
    }
    r
}

} // verus!
