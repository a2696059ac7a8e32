//! The project-wide resource table: a write-once mapping from resource
//! location to declaration stub, with atomic accept-or-reject insertion.

use vstd::prelude::*;

use crate::diagnostics::{CompileException, ExceptionModel};
use crate::location::FireLocation;

verus! {

/// The kind of a top-level declaration, recorded before any body is parsed.
#[derive(Clone, Copy, Debug, PartialEq, Eq, Structural)]
pub enum UncompiledResourceType {
    /// A free function.
    Function,
    /// A function inside a struct.
    Method,
    /// A bodyless function inside a trait.
    AbstractMethod,
    /// A side-effecting top-level routine.
    Process,
    /// A struct type.
    Struct,
    /// A trait (interface) type.
    Trait,
    /// An enum type.
    Enum,
    /// A top-level variable binding.
    Var,
    /// A constant inside an enum.
    EnumConst,
}

/// A declaration stub: the record that something with this location and kind
/// exists, with no parameters and no body, so that any file can refer to it
/// before any file's bodies are parsed.
#[derive(Debug)]
pub struct UncompiledFireResource {
    /// The full location of the declaration.
    pub loc: FireLocation,
    /// What kind of declaration it is.
    pub resource_type: UncompiledResourceType,
}

/// Mathematical model of a declaration stub.
pub struct ResourceModel {
    pub loc: Seq<Seq<char>>,
    pub resource_type: UncompiledResourceType,
}

impl View for UncompiledFireResource {
    type V = ResourceModel;

    open spec fn view(&self) -> ResourceModel {
        ResourceModel { loc: self.loc@, resource_type: self.resource_type }
    }
}

/// The mapping a list of keyed entries denotes; a later entry with the same
/// key would win, but the table never holds two entries with one key.
pub open spec fn entries_map(s: Seq<(FireLocation, UncompiledFireResource)>) -> Map<
    Seq<Seq<char>>,
    ResourceModel,
>
    decreases s.len(),
{
    if s.len() == 0 {
        Map::empty()
    } else {
        entries_map(s.drop_last()).insert(s.last().0@, s.last().1@)
    }
}

/// Every entry's key is a key of the denoted mapping.
proof fn lemma_key_in_map(s: Seq<(FireLocation, UncompiledFireResource)>, i: int)
    requires
        0 <= i < s.len(),
    ensures
        entries_map(s).contains_key(s[i].0@),
    decreases s.len(),
{
    if i < s.len() - 1 {
        lemma_key_in_map(s.drop_last(), i);
    }
}

/// An entry whose key no later entry repeats gives the mapping's value at
/// that key.
proof fn lemma_value_in_map(s: Seq<(FireLocation, UncompiledFireResource)>, i: int)
    requires
        0 <= i < s.len(),
        forall|j: int| i < j < s.len() ==> s[j].0@ != s[i].0@,
    ensures
        entries_map(s).contains_key(s[i].0@),
        entries_map(s)[s[i].0@] == s[i].1@,
    decreases s.len(),
{
    if i < s.len() - 1 {
        lemma_value_in_map(s.drop_last(), i);
    }
}

/// A key no entry holds is not a key of the denoted mapping.
proof fn lemma_key_not_in_map(s: Seq<(FireLocation, UncompiledFireResource)>, k: Seq<Seq<char>>)
    requires
        forall|i: int| 0 <= i < s.len() ==> s[i].0@ != k,
    ensures
        !entries_map(s).contains_key(k),
    decreases s.len(),
{
    if s.len() > 0 {
        lemma_key_not_in_map(s.drop_last(), k);
    }
}

/// All of a project's declaration stubs, keyed by resource location, with
/// location keys globally unique across the whole project.
pub struct StructuredFireProject {
    resources: Vec<(FireLocation, UncompiledFireResource)>,
}

impl View for StructuredFireProject {
    type V = Map<Seq<Seq<char>>, ResourceModel>;

    closed spec fn view(&self) -> Map<Seq<Seq<char>>, ResourceModel> {
        entries_map(self.resources@)
    }
}

impl StructuredFireProject {
    /// Well-formedness: no two entries share a location.
    pub closed spec fn inv(&self) -> bool {
        forall|i: int, j: int|
            0 <= i < j < self.resources@.len() ==> self.resources@[i].0@ != self.resources@[j].0@
    }

    /// The empty table.
    pub fn new() -> (r: StructuredFireProject)
        ensures
            r.inv(),
            r@ == Map::<Seq<Seq<char>>, ResourceModel>::empty(),
    {
        StructuredFireProject { resources: Vec::new() }
    }

    /// Returns the stub declared at the location, if any; never fails.
    pub fn get_resource(&self, loc: &FireLocation) -> (r: Option<&UncompiledFireResource>)
        requires
            self.inv(),
        ensures
            match r {
                Some(res) => self@.contains_key(loc@) && self@[loc@] == res@,
                None => !self@.contains_key(loc@),
            },
    {
        let ghost s = self.resources@;
        let n = self.resources.len();
        let mut i: usize = 0;
        while i < n
            invariant
                self.inv(),
                s == self.resources@,
                n == s.len(),
                0 <= i <= n,
                forall|m: int| 0 <= m < i ==> s[m].0@ != loc@,
            decreases n - i,
        {
            let pair = &self.resources[i];
            if pair.0 == *loc {
                proof {
                    lemma_value_in_map(s, i as int);
                }
                return Some(&pair.1);
            }
            i += 1;
        }
        proof {
            lemma_key_not_in_map(s, loc@);
        }
        None
    }

    /// Inserts a stub at the location, atomically: with the location still
    /// free the entry goes in and the call succeeds; with the location
    /// already taken nothing changes and the call fails with the
    /// duplicate-resource diagnostic naming that exact location.
    pub fn add_resource(&mut self, loc: &FireLocation, f: UncompiledFireResource) -> (r: Result<
        (),
        CompileException,
    >)
        requires
            old(self).inv(),
        ensures
            final(self).inv(),
            match r {
                Ok(()) => !old(self)@.contains_key(loc@) && final(self)@ == old(self)@.insert(
                    loc@,
                    f@,
                ),
                Err(e) => old(self)@.contains_key(loc@) && final(self)@ == old(self)@ && e@
                    == ExceptionModel::DuplicateResource(loc@),
            },
    {
        let ghost s = self.resources@;
        if self.get_resource(loc).is_some() {
            Err(CompileException::DuplicateResource(loc.clone()))
        } else {
            proof {
                if exists|i: int| 0 <= i < s.len() && s[i].0@ == loc@ {
                    let i = choose|i: int| 0 <= i < s.len() && s[i].0@ == loc@;
                    lemma_key_in_map(s, i);
                }
            }
            self.resources.push((loc.clone(), f));
            proof {
                assert(self.resources@.drop_last() =~= s);
            }
            Ok(())
        }
    }
}

} // verus!
