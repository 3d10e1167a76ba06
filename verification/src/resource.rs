//! The subjects that can be reported on, and the aggregates computed over them.

use vstd::prelude::*;
use crate::text::{dotted, join_dotted, str_eq};

verus! {

/// A logical subject of the semantic layer. Its name is also the namespace
/// of its fields there (`mints.count`, `mints.timestamp`, ...).
#[derive(Debug, Clone, Copy, PartialEq, Eq, Structural)]
pub enum Resource {
    Mints,
    Customers,
    Wallets,
    Collections,
    Projects,
    Transfers,
    Webhooks,
    Credits,
}

impl Resource {
    /// The name of the resource in the semantic layer.
    pub open spec fn name(self) -> Seq<char> {
        match self {
            Resource::Mints => "mints"@,
            Resource::Customers => "customers"@,
            Resource::Wallets => "wallets"@,
            Resource::Collections => "collections"@,
            Resource::Projects => "projects"@,
            Resource::Transfers => "transfers"@,
            Resource::Webhooks => "webhooks"@,
            Resource::Credits => "credits"@,
        }
    }

    /// The resource that a name stands for, if any.
    pub open spec fn parse(s: Seq<char>) -> Option<Resource> {
        if s == "mints"@ {
            Some(Resource::Mints)
        } else if s == "customers"@ {
            Some(Resource::Customers)
        } else if s == "wallets"@ {
            Some(Resource::Wallets)
        } else if s == "collections"@ {
            Some(Resource::Collections)
        } else if s == "projects"@ {
            Some(Resource::Projects)
        } else if s == "transfers"@ {
            Some(Resource::Transfers)
        } else if s == "webhooks"@ {
            Some(Resource::Webhooks)
        } else if s == "credits"@ {
            Some(Resource::Credits)
        } else {
            None
        }
    }

    /// Spells the eight names out, character by character.
    pub proof fn lemma_names()
        ensures
            Resource::Mints.name() == seq!['m', 'i', 'n', 't', 's'],
            Resource::Customers.name() == seq!['c', 'u', 's', 't', 'o', 'm', 'e', 'r', 's'],
            Resource::Wallets.name() == seq!['w', 'a', 'l', 'l', 'e', 't', 's'],
            Resource::Collections.name() == seq!['c', 'o', 'l', 'l', 'e', 'c', 't', 'i', 'o', 'n', 's'],
            Resource::Projects.name() == seq!['p', 'r', 'o', 'j', 'e', 'c', 't', 's'],
            Resource::Transfers.name() == seq!['t', 'r', 'a', 'n', 's', 'f', 'e', 'r', 's'],
            Resource::Webhooks.name() == seq!['w', 'e', 'b', 'h', 'o', 'o', 'k', 's'],
            Resource::Credits.name() == seq!['c', 'r', 'e', 'd', 'i', 't', 's'],
    {
        reveal_strlit("mints");
        reveal_strlit("customers");
        reveal_strlit("wallets");
        reveal_strlit("collections");
        reveal_strlit("projects");
        reveal_strlit("transfers");
        reveal_strlit("webhooks");
        reveal_strlit("credits");
        assert(Resource::Mints.name() =~= seq!['m', 'i', 'n', 't', 's']);
        assert(Resource::Customers.name() =~= seq!['c', 'u', 's', 't', 'o', 'm', 'e', 'r', 's']);
        assert(Resource::Wallets.name() =~= seq!['w', 'a', 'l', 'l', 'e', 't', 's']);
        assert(Resource::Collections.name() =~= seq!['c', 'o', 'l', 'l', 'e', 'c', 't', 'i', 'o', 'n', 's']);
        assert(Resource::Projects.name() =~= seq!['p', 'r', 'o', 'j', 'e', 'c', 't', 's']);
        assert(Resource::Transfers.name() =~= seq!['t', 'r', 'a', 'n', 's', 'f', 'e', 'r', 's']);
        assert(Resource::Webhooks.name() =~= seq!['w', 'e', 'b', 'h', 'o', 'o', 'k', 's']);
        assert(Resource::Credits.name() =~= seq!['c', 'r', 'e', 'd', 'i', 't', 's']);
    }

    /// No name holds a dot, and no two resources share a name.
    pub proof fn lemma_names_distinct(a: Resource, b: Resource)
        ensures
            !a.name().contains('.'),
            a.name().len() > 0,
            a.name() == b.name() ==> a == b,
    {
        Self::lemma_names();
        let s = a.name();
        assert forall|i: int| 0 <= i < s.len() implies s[i] != '.' by {}
        if a != b {
            let t = b.name();
            if s.len() == t.len() {
                assert(s[0] != t[0] || s[1] != t[1] || s[2] != t[2]);
            }
        }
    }

    /// A name and the resource it stands for determine each other.
    pub proof fn lemma_parse_name(s: Seq<char>, r: Resource)
        ensures
            Self::parse(s) == Some(r) <==> s == r.name(),
    {
        if s == r.name() {
            assert forall|other: Resource| other != r implies s != other.name() by {
                Self::lemma_names_distinct(r, other);
            }
            assert(s != Resource::Mints.name() || r == Resource::Mints);
            assert(s != Resource::Customers.name() || r == Resource::Customers);
            assert(s != Resource::Wallets.name() || r == Resource::Wallets);
            assert(s != Resource::Collections.name() || r == Resource::Collections);
            assert(s != Resource::Projects.name() || r == Resource::Projects);
            assert(s != Resource::Transfers.name() || r == Resource::Transfers);
            assert(s != Resource::Webhooks.name() || r == Resource::Webhooks);
        }
    }

    /// The name of the resource.
    pub fn as_str(&self) -> (r: &'static str)
        ensures
            r@ == self.name(),
    {
        match self {
            Resource::Mints => "mints",
            Resource::Customers => "customers",
            Resource::Wallets => "wallets",
            Resource::Collections => "collections",
            Resource::Projects => "projects",
            Resource::Transfers => "transfers",
            Resource::Webhooks => "webhooks",
            Resource::Credits => "credits",
        }
    }

    /// Reads a resource name. Any other text is refused.
    pub fn from_str(s: &str) -> (r: Result<Resource, ()>)
        ensures
            r == (match Self::parse(s@) {
                Some(resource) => Ok::<Resource, ()>(resource),
                None => Err::<Resource, ()>(()),
            }),
    {
        if str_eq(s, "mints") {
            Ok(Resource::Mints)
        } else if str_eq(s, "customers") {
            Ok(Resource::Customers)
        } else if str_eq(s, "wallets") {
            Ok(Resource::Wallets)
        } else if str_eq(s, "collections") {
            Ok(Resource::Collections)
        } else if str_eq(s, "projects") {
            Ok(Resource::Projects)
        } else if str_eq(s, "transfers") {
            Ok(Resource::Transfers)
        } else if str_eq(s, "webhooks") {
            Ok(Resource::Webhooks)
        } else if str_eq(s, "credits") {
            Ok(Resource::Credits)
        } else {
            Err(())
        }
    }

    /// Every resource, once.
    pub fn all() -> (r: Vec<Resource>)
        ensures
            r@ == seq![
                Resource::Mints,
                Resource::Customers,
                Resource::Wallets,
                Resource::Collections,
                Resource::Projects,
                Resource::Transfers,
                Resource::Webhooks,
                Resource::Credits,
            ],
            forall|resource: Resource| r@.contains(resource),
            r@.no_duplicates(),
    {
        let mut list: Vec<Resource> = Vec::new();
        list.push(Resource::Mints);
        list.push(Resource::Customers);
        list.push(Resource::Wallets);
        list.push(Resource::Collections);
        list.push(Resource::Projects);
        list.push(Resource::Transfers);
        list.push(Resource::Webhooks);
        list.push(Resource::Credits);
        proof {
            assert(list@[0] == Resource::Mints);
            assert(list@[1] == Resource::Customers);
            assert(list@[2] == Resource::Wallets);
            assert(list@[3] == Resource::Collections);
            assert(list@[4] == Resource::Projects);
            assert(list@[5] == Resource::Transfers);
            assert(list@[6] == Resource::Webhooks);
            assert(list@[7] == Resource::Credits);
            assert(list@ =~= seq![
                Resource::Mints,
                Resource::Customers,
                Resource::Wallets,
                Resource::Collections,
                Resource::Projects,
                Resource::Transfers,
                Resource::Webhooks,
                Resource::Credits,
            ]);
        }
        list
    }

    /// The name of one of the resource's fields: `<resource>.<field>`.
    pub fn field(&self, field: &str) -> (r: String)
        ensures
            r@ == dotted(self.name(), field@),
    {
        join_dotted(self.as_str(), field)
    }
}

/// What is computed over a resource.
#[derive(Debug, Clone, Copy, PartialEq, Eq, Structural)]
pub enum Operation {
    Count,
    Change,
}

impl Operation {
    /// The name of the operation in the semantic layer.
    pub open spec fn name(self) -> Seq<char> {
        match self {
            Operation::Count => "count"@,
            Operation::Change => "change"@,
        }
    }

    /// Spells the two names out.
    pub proof fn lemma_names()
        ensures
            Operation::Count.name() == seq!['c', 'o', 'u', 'n', 't'],
            Operation::Change.name() == seq!['c', 'h', 'a', 'n', 'g', 'e'],
    {
        reveal_strlit("count");
        reveal_strlit("change");
        assert(Operation::Count.name() =~= seq!['c', 'o', 'u', 'n', 't']);
        assert(Operation::Change.name() =~= seq!['c', 'h', 'a', 'n', 'g', 'e']);
    }

    /// The name of the operation.
    pub fn as_str(&self) -> (r: &'static str)
        ensures
            r@ == self.name(),
    {
        match self {
            Operation::Count => "count",
            Operation::Change => "change",
        }
    }
}

/// An aggregate over a resource, such as the count of mints.
#[derive(Debug, Clone, Copy, PartialEq, Eq, Structural)]
pub struct Measure {
    pub resource: Resource,
    pub operation: Operation,
}

impl Measure {
    /// The name of the measure in the semantic layer: `<resource>.<operation>`.
    pub open spec fn text(self) -> Seq<char> {
        dotted(self.resource.name(), self.operation.name())
    }

    #[must_use]
    pub fn new(resource: Resource, operation: Operation) -> (r: Self)
        ensures
            r == (Measure { resource, operation }),
    {
        Self { resource, operation }
    }

    #[must_use]
    pub fn as_string(&self) -> (r: String)
        ensures
            r@ == self.text(),
    {
        join_dotted(self.resource.as_str(), self.operation.as_str())
    }

    /// Two measures with the same name are the same measure.
    pub proof fn lemma_text_injective(a: Measure, b: Measure)
        ensures
            a.text() == b.text() ==> a == b,
    {
        Resource::lemma_names();
        Operation::lemma_names();
        Resource::lemma_names_distinct(a.resource, b.resource);
        Resource::lemma_names_distinct(b.resource, a.resource);
        if a.text() == b.text() {
            let s = a.text();
            let n = a.resource.name().len() as int;
            let m = b.resource.name().len() as int;
            // The first dot of the text ends the resource's name.
            assert(s[n] == '.');
            assert(s[m] == '.');
            if n < m {
                assert(s[n] == b.resource.name()[n]);
                assert(b.resource.name().contains(s[n]));
            } else if m < n {
                assert(s[m] == a.resource.name()[m]);
                assert(a.resource.name().contains(s[m]));
            }
            assert(n == m);
            assert(a.resource.name() =~= s.subrange(0, n));
            assert(b.resource.name() =~= s.subrange(0, n));
            assert(a.operation.name() =~= s.subrange(n + 1, s.len() as int));
            assert(b.operation.name() =~= s.subrange(n + 1, s.len() as int));
            assert(a.operation.name()[1] == b.operation.name()[1]);
        }
    }

    /// The measure over `resource` that `text` names, if there is one.
    fn parse_over(resource: Resource, text: &str) -> (r: Option<Measure>)
        ensures
            match r {
                Some(m) => m.resource == resource && m.text() == text@,
                None => forall|op: Operation| (Measure { resource, operation: op }).text() != text@,
            },
    {
        let count = Measure::new(resource, Operation::Count);
        let change = Measure::new(resource, Operation::Change);
        if str_eq(count.as_string().as_str(), text) {
            Some(count)
        } else if str_eq(change.as_string().as_str(), text) {
            Some(change)
        } else {
            assert forall|op: Operation| (Measure { resource, operation: op }).text()
                != text@ by {
                assert(op == Operation::Count || op == Operation::Change);
            }
            None
        }
    }

    /// Reads the name of a measure back. `None` where no measure has that name.
    pub fn parse(text: &str) -> (r: Option<Measure>)
        ensures
            match r {
                Some(m) => m.text() == text@,
                None => forall|m: Measure| m.text() != text@,
            },
    {
        let all = Resource::all();
        let mut i: usize = 0;
        while i < all.len()
            invariant
                i <= all.len(),
                forall|j: int, op: Operation|
                    0 <= j < i ==> (#[trigger] Measure { resource: all@[j], operation: op }.text())
                        != text@,
            decreases all.len() - i,
        {
            let found = Self::parse_over(all[i], text);
            if found.is_some() {
                return found;
            }
            i += 1;
        }
        assert forall|m: Measure| m.text() != text@ by {
            assert(all@.contains(m.resource));
            let j = choose|j: int| 0 <= j < all@.len() && all@[j] == m.resource;
            assert(m == Measure { resource: all@[j], operation: m.operation });
        }
        None
    }
}

/// A grouping that a report can be broken down by.
#[derive(Debug, Clone, Copy, PartialEq, Eq, Structural)]
pub enum Dimension {
    Collections,
    Projects,
    Organizations,
}

impl Dimension {
    /// The name of the grouping.
    pub open spec fn name(self) -> Seq<char> {
        match self {
            Dimension::Collections => "collections"@,
            Dimension::Projects => "projects"@,
            Dimension::Organizations => "organizations"@,
        }
    }

    /// The name of the grouping.
    pub fn as_str(&self) -> (r: &'static str)
        ensures
            r@ == self.name(),
    {
        match self {
            Dimension::Collections => "collections",
            Dimension::Projects => "projects",
            Dimension::Organizations => "organizations",
        }
    }
}

} // verus!
