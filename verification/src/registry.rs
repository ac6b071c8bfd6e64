//! The Command Registry: a name-keyed collection of Command Descriptors.
//! Names are unique; registering a name again replaces the earlier
//! descriptor, and resolving an absent name is a normal outcome.

use vstd::prelude::*;

use crate::strutil::str_eq;

verus! {

/// What a descriptor's body does when the controller reaches the
/// execute step. Bodies that talk to outside collaborators cannot run
/// inside this library; such a descriptor is marked `External`, and the
/// host drives its execution between `begin` and `end`.
pub enum CommandBehavior {
    /// The body always succeeds.
    Succeed,
    /// The body always fails with this description.
    Fail(String),
    /// The body is executed by the host, outside this library.
    External,
}

/// A Command Descriptor: the registered unit of work. `parallel` is the
/// locking policy — a non-parallel command takes the advisory lock on
/// its name plus canonical arguments.
pub struct CommandDescriptor {
    pub name: String,
    pub description: String,
    pub parallel: bool,
    pub behavior: CommandBehavior,
}

impl CommandDescriptor {
    pub fn new(name: String, description: String, parallel: bool, behavior: CommandBehavior) -> (r:
        CommandDescriptor)
        ensures
            r.name == name,
            r.description == description,
            r.parallel == parallel,
            r.behavior == behavior,
    {
        CommandDescriptor { name, description, parallel, behavior }
    }
}

/// The index of the last descriptor named `name`, or -1.
pub open spec fn find_name(s: Seq<CommandDescriptor>, name: Seq<char>) -> int
    decreases s.len(),
{
    if s.len() == 0 {
        -1
    } else if s.last().name@ == name {
        s.len() - 1
    } else {
        find_name(s.drop_last(), name)
    }
}

pub proof fn lemma_find_name_absent(s: Seq<CommandDescriptor>, name: Seq<char>)
    requires
        forall|i: int| 0 <= i < s.len() ==> (#[trigger] s[i]).name@ != name,
    ensures
        find_name(s, name) == -1,
    decreases s.len(),
{
    if s.len() > 0 {
        assert(forall|i: int| 0 <= i < s.len() - 1 ==> s.drop_last()[i] == s[i]);
        lemma_find_name_absent(s.drop_last(), name);
    }
}

pub proof fn lemma_find_name_at(s: Seq<CommandDescriptor>, i: int)
    requires
        0 <= i < s.len(),
        forall|j: int| i < j < s.len() ==> (#[trigger] s[j]).name@ != s[i].name@,
    ensures
        find_name(s, s[i].name@) == i,
    decreases s.len(),
{
    if i < s.len() - 1 {
        assert(s.drop_last()[i] == s[i]);
        lemma_find_name_at(s.drop_last(), i);
    }
}

pub proof fn lemma_find_name_bounds(s: Seq<CommandDescriptor>, name: Seq<char>)
    ensures
        -1 <= find_name(s, name) < s.len(),
        find_name(s, name) >= 0 ==> s[find_name(s, name)].name@ == name,
    decreases s.len(),
{
    if s.len() > 0 && s.last().name@ != name {
        lemma_find_name_bounds(s.drop_last(), name);
    }
}

/// The Command Registry. Populated at startup, read-only thereafter.
pub struct CommandRegistry {
    commands: Vec<CommandDescriptor>,
}

impl CommandRegistry {
    /// The registered descriptors, in registration order.
    pub closed spec fn entries(self) -> Seq<CommandDescriptor> {
        self.commands@
    }

    /// Names are unique: a present name resolves to exactly one
    /// descriptor.
    pub open spec fn inv(self) -> bool {
        forall|i: int, j: int|
            0 <= i < j < self.entries().len() ==> (#[trigger] self.entries()[i]).name@ != (
            #[trigger] self.entries()[j]).name@
    }

    /// What `name` resolves to.
    pub open spec fn lookup(self, name: Seq<char>) -> Option<CommandDescriptor> {
        if find_name(self.entries(), name) >= 0 {
            Some(self.entries()[find_name(self.entries(), name)])
        } else {
            None
        }
    }

    /// An empty registry.
    pub fn new() -> (r: CommandRegistry)
        ensures
            r.inv(),
            r.entries().len() == 0,
            forall|n: Seq<char>| r.lookup(n) is None,
    {
        let r = CommandRegistry { commands: Vec::new() };
        proof {
            assert(r.entries() =~= Seq::<CommandDescriptor>::empty());
        }
        r
    }

    /// Register a descriptor under its name; the last registration for
    /// a name wins.
    pub fn register(&mut self, command: CommandDescriptor)
        requires
            old(self).inv(),
        ensures
            final(self).inv(),
            final(self).lookup(command.name@) == Some(command),
            forall|n: Seq<char>|
                n != command.name@ ==> #[trigger] final(self).lookup(n) == old(self).lookup(n),
    {
        let ghost s = self.entries();
        let n = self.commands.len();
        let mut i: usize = 0;
        while i < n
            invariant
                n == s.len(),
                i <= n,
                self.entries() == s,
                old(self).entries() == s,
                forall|i2: int, j2: int|
                    0 <= i2 < j2 < s.len() ==> (#[trigger] s[i2]).name@ != (#[trigger] s[j2]).name@,
                forall|j: int| 0 <= j < i ==> (#[trigger] s[j]).name@ != command.name@,
            decreases n - i,
        {
            if str_eq(self.commands[i].name.as_str(), command.name.as_str()) {
                proof {
                    lemma_find_name_at(s, i as int);
                }
                self.commands.set(i, command);
                proof {
                    let t = self.entries();
                    assert(t =~= s.update(i as int, command));
                    assert(forall|k: int|
                        0 <= k < s.len() ==> (#[trigger] s[k]).name@ == (#[trigger] t[k]).name@);
                    assert forall|i2: int, j2: int| 0 <= i2 < j2 < t.len() implies (
                    #[trigger] t[i2]).name@ != (#[trigger] t[j2]).name@ by {
                        assert(s[i2].name@ != s[j2].name@);
                    }
                    assert forall|n2: Seq<char>| true implies #[trigger] find_name(t, n2)
                        == find_name(s, n2) by {
                        lemma_find_name_same_keys(s, t, n2);
                    }
                    assert(find_name(t, command.name@) == i);
                    assert(t[i as int] == command);
                    assert forall|n2: Seq<char>| n2 != command.name@ implies #[trigger] self.lookup(
                        n2,
                    ) == old(self).lookup(n2) by {
                        lemma_find_name_bounds(t, n2);
                        if find_name(t, n2) >= 0 {
                            assert(t[find_name(t, n2)].name@ == n2);
                            assert(find_name(t, n2) != i);
                            assert(t[find_name(t, n2)] == s[find_name(t, n2)]);
                        }
                    }
                }
                return ;
            }
            i += 1;
        }
        proof {
            lemma_find_name_absent(s, command.name@);
        }
        self.commands.push(command);
        proof {
            let t = self.entries();
            assert(t =~= s.push(command));
            assert(t.drop_last() =~= s);
            assert(forall|j: int| 0 <= j < s.len() ==> t[j] == s[j]);
            assert(find_name(t, command.name@) == t.len() - 1);
            assert forall|n2: Seq<char>| n2 != command.name@ implies #[trigger] self.lookup(n2)
                == old(self).lookup(n2) by {
                assert(t.last().name@ != n2);
                assert(find_name(t, n2) == find_name(s, n2));
                lemma_find_name_bounds(s, n2);
            }
        }
    }

    /// Resolve a name; absence is a normal outcome that the caller maps
    /// to the "command not found" condition.
    pub fn get(&self, name: &str) -> (r: Option<&CommandDescriptor>)
        requires
            self.inv(),
        ensures
            match r {
                Some(d) => self.lookup(name@) == Some(*d),
                None => self.lookup(name@) is None,
            },
    {
        let n = self.commands.len();
        let mut i: usize = 0;
        while i < n
            invariant
                n == self.entries().len(),
                i <= n,
                self.inv(),
                forall|j: int| 0 <= j < i ==> (#[trigger] self.entries()[j]).name@ != name@,
            decreases n - i,
        {
            if str_eq(self.commands[i].name.as_str(), name) {
                proof {
                    assert forall|j: int| (i as int) < j < self.entries().len() implies (
                    #[trigger] self.entries()[j]).name@ != self.entries()[i as int].name@ by {}
                    lemma_find_name_at(self.entries(), i as int);
                }
                return Some(&self.commands[i]);
            }
            i += 1;
        }
        proof {
            lemma_find_name_absent(self.entries(), name@);
        }
        None
    }

    /// How many descriptors are registered.
    pub fn len(&self) -> (n: usize)
        ensures
            n == self.entries().len(),
    {
        self.commands.len()
    }
}

/// Two sequences whose descriptors carry pairwise equal names agree on
/// every name search.
proof fn lemma_find_name_same_keys(
    s: Seq<CommandDescriptor>,
    t: Seq<CommandDescriptor>,
    name: Seq<char>,
)
    requires
        s.len() == t.len(),
        forall|i: int| 0 <= i < s.len() ==> (#[trigger] s[i]).name@ == (#[trigger] t[i]).name@,
    ensures
        find_name(s, name) == find_name(t, name),
    decreases s.len(),
{
    if s.len() > 0 {
        assert(s[s.len() - 1].name@ == t[t.len() - 1].name@);
        if s.last().name@ != name {
            assert(forall|i: int|
                0 <= i < s.len() - 1 ==> (#[trigger] s.drop_last()[i]) == s[i] && (
                #[trigger] t.drop_last()[i]) == t[i]);
            lemma_find_name_same_keys(s.drop_last(), t.drop_last(), name);
        }
    }
}

} // verus!
