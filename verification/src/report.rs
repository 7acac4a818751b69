//! The machine-readable report (`sysview --json`): its schema, its
//! sections, and its statement of the permission boundary. The report obeys
//! the caller's permissions like everything else: asking for JSON cannot
//! and does not reach data that needs root, so it has no section for the
//! administrator's data and says so in its `permissions` section.

use vstd::prelude::*;
use crate::chars::owned;

verus! {

/// The report's schema version.
pub const SCHEMA: u32 = 1;

/// The top-level sections of the report, in order.
pub open spec fn spec_sections() -> Seq<Seq<char>> {
    seq!["sysview_version"@, "schema"@, "permissions"@, "host"@, "cgroup"@, "cpu"@, "memory"@, "gpu"@,
        "storage"@, "network"@, "processes"@]
}

/// The report's sections.
pub fn sections() -> (r: Vec<&'static str>)
    ensures
        Seq::new(r@.len(), |i: int| r@[i]@) == spec_sections(),
{
    let r = vec!["sysview_version", "schema", "permissions", "host", "cgroup", "cpu", "memory", "gpu",
        "storage", "network", "processes"];
    assert(Seq::new(r@.len(), |i: int| r@[i]@) =~= spec_sections());
    r
}

/// The note in the `permissions` section.
pub open spec fn spec_permission_note() -> Seq<char> {
    "所有資料都受呼叫者的檔案權限限制；--json 不會提升權限。管理員資料需另外透過 sudo sysview-priv 取得。"@
}

/// The `permissions` section: whose permissions the data was read with, and
/// the note that `--json` does not raise them.
pub struct Permissions {
    pub euid: u32,
    pub note: String,
}

pub fn permissions(euid: u32) -> (r: Permissions)
    ensures
        r.euid == euid,
        r.note@ == spec_permission_note(),
{
    Permissions {
        euid,
        note: owned("所有資料都受呼叫者的檔案權限限制；--json 不會提升權限。管理員資料需另外透過 sudo sysview-priv 取得。"),
    }
}

/// The report has a section on permissions and none for the
/// administrator's data: neither `admin` nor `user_storage` is among its
/// sections.
pub proof fn lemma_report_keeps_to_the_callers_permissions()
    ensures
        spec_sections().contains("permissions"@),
        !spec_sections().contains("admin"@),
        !spec_sections().contains("user_storage"@),
{
    reveal_strlit("sysview_version");
    reveal_strlit("schema");
    reveal_strlit("permissions");
    reveal_strlit("host");
    reveal_strlit("cgroup");
    reveal_strlit("cpu");
    reveal_strlit("memory");
    reveal_strlit("gpu");
    reveal_strlit("storage");
    reveal_strlit("network");
    reveal_strlit("processes");
    reveal_strlit("admin");
    reveal_strlit("user_storage");
    assert(spec_sections()[2] == "permissions"@);
    assert forall|i: int| 0 <= i < spec_sections().len() implies spec_sections()[i] != "admin"@ by {
        assert(spec_sections()[i][0] != "admin"@[0] || spec_sections()[i].len() != 5 || spec_sections()[i][1] != "admin"@[1]);
    }
    assert forall|i: int| 0 <= i < spec_sections().len() implies spec_sections()[i] != "user_storage"@ by {
        assert(spec_sections()[i].len() != 12 || spec_sections()[i][0] != "user_storage"@[0]);
    }
}

} // verus!
