//! The concrete commands the application registers. Their bodies talk
//! to outside collaborators — database, cache, filesystem, console —
//! so each is registered as an `External` descriptor and executed by
//! the host between `begin` and `end`; what can be decided from plain
//! values is decided here.

use vstd::prelude::*;

use crate::args::CommandArgs;
use crate::registry::{CommandBehavior, CommandDescriptor};
use crate::strutil::str_eq;

verus! {

/// A simple test command: it greets, sleeps a moment, and fails only
/// when asked to.
pub struct TestCommand;

impl TestCommand {
    pub fn name(&self) -> (r: &'static str)
        ensures
            r@ == "test"@,
    {
        "test"
    }

    pub fn description(&self) -> (r: &'static str)
        ensures
            r@ == "A simple test command."@,
    {
        "A simple test command."
    }

    pub fn is_parallel(&self) -> (r: bool)
        ensures
            !r,
    {
        false
    }

    /// The decision of the test command's body: it fails with "Oops !"
    /// exactly when an `error` flag is among the arguments.
    pub fn outcome(&self, args: &CommandArgs) -> (r: Option<String>)
        requires
            args.wf(),
        ensures
            match r {
                Some(m) => args@.contains_key("error"@) && m@ == "Oops !"@,
                None => !args@.contains_key("error"@),
            },
    {
        match args.get("error") {
            Some(_) => Some(String::from_str("Oops !")),
            None => None,
        }
    }

    /// The descriptor under which this command is registered. Its body
    /// sleeps, so the host executes it.
    pub fn descriptor(&self) -> (d: CommandDescriptor)
        ensures
            d.name@ == "test"@,
            d.description@ == "A simple test command."@,
            !d.parallel,
            d.behavior is External,
    {
        CommandDescriptor::new(
            String::from_str(self.name()),
            String::from_str(self.description()),
            false,
            CommandBehavior::External,
        )
    }
}

/// Dumps every key and value of the cache to the console.
pub struct DumpCacheCommand;

impl DumpCacheCommand {
    pub fn name(&self) -> (r: &'static str)
        ensures
            r@ == "dump:cache"@,
    {
        "dump:cache"
    }

    pub fn description(&self) -> (r: &'static str)
        ensures
            r@ == "Dump the cache."@,
    {
        "Dump the cache."
    }

    pub fn is_parallel(&self) -> (r: bool)
        ensures
            !r,
    {
        false
    }

    /// The descriptor under which this command is registered. Its body
    /// reads the cache, so the host executes it.
    pub fn descriptor(&self) -> (d: CommandDescriptor)
        ensures
            d.name@ == "dump:cache"@,
            d.description@ == "Dump the cache."@,
            !d.parallel,
            d.behavior is External,
    {
        CommandDescriptor::new(
            String::from_str(self.name()),
            String::from_str(self.description()),
            false,
            CommandBehavior::External,
        )
    }
}

/// Adds an API user; the key must pass the complexity gate and is
/// stored as its digest.
pub struct AddApiUserCommand;

impl AddApiUserCommand {
    pub fn name(&self) -> (r: &'static str)
        ensures
            r@ == "add_api_user"@,
    {
        "add_api_user"
    }

    pub fn description(&self) -> (r: &'static str)
        ensures
            r@ == "Adds an API user to the database"@,
    {
        "Adds an API user to the database"
    }

    pub fn is_parallel(&self) -> (r: bool)
        ensures
            !r,
    {
        false
    }

    /// The descriptor under which this command is registered. Its body
    /// asks questions and writes to the database, so the host executes
    /// it.
    pub fn descriptor(&self) -> (d: CommandDescriptor)
        ensures
            d.name@ == "add_api_user"@,
            d.description@ == "Adds an API user to the database"@,
            !d.parallel,
            d.behavior is External,
    {
        CommandDescriptor::new(
            String::from_str(self.name()),
            String::from_str(self.description()),
            false,
            CommandBehavior::External,
        )
    }
}

/// Removes an API user chosen from the list of active ones.
pub struct RemoveApiUserCommand;

impl RemoveApiUserCommand {
    pub fn name(&self) -> (r: &'static str)
        ensures
            r@ == "remove_api_user"@,
    {
        "remove_api_user"
    }

    pub fn description(&self) -> (r: &'static str)
        ensures
            r@ == "Removes an API user to the database"@,
    {
        "Removes an API user to the database"
    }

    pub fn is_parallel(&self) -> (r: bool)
        ensures
            !r,
    {
        false
    }

    /// The descriptor under which this command is registered. Its body
    /// asks questions and writes to the database, so the host executes
    /// it.
    pub fn descriptor(&self) -> (d: CommandDescriptor)
        ensures
            d.name@ == "remove_api_user"@,
            d.description@ == "Removes an API user to the database"@,
            !d.parallel,
            d.behavior is External,
    {
        CommandDescriptor::new(
            String::from_str(self.name()),
            String::from_str(self.description()),
            false,
            CommandBehavior::External,
        )
    }
}

/// The character-level views of a list of names.
pub open spec fn str_views(v: Seq<String>) -> Seq<Seq<char>> {
    v.map_values(|s: String| s@)
}

/// Whether `x` is among the names `s`.
pub open spec fn contains_name(s: Seq<Seq<char>>, x: Seq<char>) -> bool {
    exists|i: int| 0 <= i < s.len() && s[i] == x
}

/// The entries of `items` that are absent from `have`, in order.
pub open spec fn missing_from(items: Seq<Seq<char>>, have: Seq<Seq<char>>) -> Seq<Seq<char>>
    decreases items.len(),
{
    if items.len() == 0 {
        Seq::empty()
    } else {
        let pre = missing_from(items.drop_last(), have);
        if contains_name(have, items.last()) {
            pre
        } else {
            pre.push(items.last())
        }
    }
}

/// Whether the name list `v` holds `x`.
fn holds_name(v: &Vec<String>, x: &str) -> (r: bool)
    ensures
        r == contains_name(str_views(v@), x@),
{
    let n = v.len();
    let mut i: usize = 0;
    while i < n
        invariant
            n == v@.len(),
            i <= n,
            forall|j: int| 0 <= j < i ==> str_views(v@)[j] != x@,
        decreases n - i,
    {
        if str_eq(v[i].as_str(), x) {
            proof {
                assert(str_views(v@)[i as int] == x@);
            }
            return true;
        }
        i += 1;
    }
    false
}

/// The entries of `items` that are absent from `have`, in order.
fn names_missing_from(items: &Vec<String>, have: &Vec<String>) -> (r: Vec<String>)
    ensures
        str_views(r@) == missing_from(str_views(items@), str_views(have@)),
{
    let n = items.len();
    let mut out: Vec<String> = Vec::new();
    let mut i: usize = 0;
    proof {
        assert(str_views(out@) =~= missing_from(
            str_views(items@).take(0),
            str_views(have@),
        ));
    }
    while i < n
        invariant
            n == items@.len(),
            i <= n,
            str_views(out@) == missing_from(str_views(items@).take(i as int), str_views(have@)),
        decreases n - i,
    {
        let absent = !holds_name(have, items[i].as_str());
        if absent {
            let entry = items[i].clone();
            proof {
                assert(str_views(out@.push(entry)) =~= str_views(out@).push(items@[i as int]@));
            }
            out.push(entry);
        }
        proof {
            let t = str_views(items@).take(i + 1);
            assert(t.drop_last() =~= str_views(items@).take(i as int));
            assert(t.last() == str_views(items@)[i as int]);
        }
        i += 1;
    }
    proof {
        assert(str_views(items@).take(n as int) =~= str_views(items@));
    }
    out
}

/// Scans the site directory and syncs what it finds with the database.
pub struct ScanSitesCommand;

impl ScanSitesCommand {
    /// The reconciliation decision of the scan: which of the site
    /// names just found must be created (they are not stored yet), and
    /// which of the stored ones must be deleted (they were not found),
    /// each list in its source's order.
    pub fn sync_plan(&self, found: &Vec<String>, existing: &Vec<String>) -> (plan: (
        Vec<String>,
        Vec<String>,
    ))
        ensures
            str_views(plan.0@) == missing_from(str_views(found@), str_views(existing@)),
            str_views(plan.1@) == missing_from(str_views(existing@), str_views(found@)),
    {
        (names_missing_from(found, existing), names_missing_from(existing, found))
    }

    pub fn name(&self) -> (r: &'static str)
        ensures
            r@ == "scan_sites"@,
    {
        "scan_sites"
    }

    pub fn description(&self) -> (r: &'static str)
        ensures
            r@ == "Scans all sites in the site directory and syncs them with the database"@,
    {
        "Scans all sites in the site directory and syncs them with the database"
    }

    pub fn is_parallel(&self) -> (r: bool)
        ensures
            !r,
    {
        false
    }

    /// The descriptor under which this command is registered. Its body
    /// walks the filesystem and writes to the database, so the host
    /// executes it.
    pub fn descriptor(&self) -> (d: CommandDescriptor)
        ensures
            d.name@ == "scan_sites"@,
            d.description@ == "Scans all sites in the site directory and syncs them with the database"@,
            !d.parallel,
            d.behavior is External,
    {
        CommandDescriptor::new(
            String::from_str(self.name()),
            String::from_str(self.description()),
            false,
            CommandBehavior::External,
        )
    }
}

} // verus!
