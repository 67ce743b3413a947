//! Catalog entries: a mutation kind and how severe it is.

use crate::text::str_eq;
use vstd::prelude::*;

verus! {

/// How much a surviving mutant of a kind matters. `High` orders first.
#[derive(Clone, Copy, Debug, PartialEq, Eq, Structural)]
pub enum MutationSeverity {
    /// The statement no longer runs at all (it throws instead).
    High,
    /// The statement is removed or a branch is forced.
    Medium,
    /// A small tweak of logic.
    Low,
}

impl MutationSeverity {
    /// Rank of the severity as a number: 0 for `High`, 1 for `Medium`, 2 for `Low`.
    pub open spec fn rank(self) -> nat {
        match self {
            MutationSeverity::High => 0,
            MutationSeverity::Medium => 1,
            MutationSeverity::Low => 2,
        }
    }

    /// The severity of a rank; every rank above 1 is `Low`.
    pub open spec fn of_rank(value: nat) -> MutationSeverity {
        if value == 0 {
            MutationSeverity::High
        } else if value == 1 {
            MutationSeverity::Medium
        } else {
            MutationSeverity::Low
        }
    }

    /// The name of the severity, as it is printed and stored.
    pub open spec fn name(self) -> Seq<char> {
        match self {
            MutationSeverity::High => "High"@,
            MutationSeverity::Medium => "Medium"@,
            MutationSeverity::Low => "Low"@,
        }
    }

    /// Convert a severity to a numeric value (0 = High, 1 = Medium, 2 = Low).
    pub fn to_numeric(&self) -> (r: usize)
        ensures
            r == self.rank(),
    {
        match self {
            MutationSeverity::High => 0,
            MutationSeverity::Medium => 1,
            MutationSeverity::Low => 2,
        }
    }

    /// Get severity from a numeric value.
    pub fn from_numeric(value: usize) -> (r: MutationSeverity)
        ensures
            r == MutationSeverity::of_rank(value as nat),
    {
        if value == 0 {
            MutationSeverity::High
        } else if value == 1 {
            MutationSeverity::Medium
        } else {
            MutationSeverity::Low
        }
    }

    /// The name of the severity.
    pub fn to_string(&self) -> (r: String)
        ensures
            r@ == self.name(),
    {
        match self {
            MutationSeverity::High => "High".to_owned(),
            MutationSeverity::Medium => "Medium".to_owned(),
            MutationSeverity::Low => "Low".to_owned(),
        }
    }

    /// The severity with the given name, if there is one.
    pub fn from_str(s: &str) -> (r: Option<MutationSeverity>)
        ensures
            match r {
                Some(v) => s@ == v.name(),
                None => forall|v: MutationSeverity| s@ != v.name(),
            },
    {
        if str_eq(s, "High") {
            Some(MutationSeverity::High)
        } else if str_eq(s, "Medium") {
            Some(MutationSeverity::Medium)
        } else if str_eq(s, "Low") {
            Some(MutationSeverity::Low)
        } else {
            None
        }
    }
}

/// Converting a severity to its number and back gives the severity again.
pub proof fn lemma_severity_round_trip(s: MutationSeverity)
    ensures
        MutationSeverity::of_rank(s.rank()) == s,
        s.rank() <= 2,
{
}

/// One kind of mutation in a dialect's catalog.
#[derive(Clone, Copy, Debug)]
pub struct Mutation {
    /// Short uppercase code naming the kind.
    pub slug: &'static str,
    /// What the mutation does, for people.
    pub description: &'static str,
    pub severity: MutationSeverity,
}

/// A catalog entry as the rules see it.
pub struct MutationView {
    pub slug: Seq<char>,
    pub description: Seq<char>,
    pub severity: MutationSeverity,
}

impl View for Mutation {
    type V = MutationView;

    open spec fn view(&self) -> MutationView {
        MutationView {
            slug: self.slug@,
            description: self.description@,
            severity: self.severity,
        }
    }
}

/// The views of a list of catalog entries.
pub open spec fn mutation_views(mutations: Seq<Mutation>) -> Seq<MutationView> {
    mutations.map_values(|m: Mutation| m@)
}

/// The slugs of a catalog, in its order.
pub open spec fn slugs_of(catalog: Seq<MutationView>) -> Seq<Seq<char>> {
    catalog.map_values(|m: MutationView| m.slug)
}

/// The severity of the first entry of the catalog that has the slug.
pub open spec fn severity_in(catalog: Seq<MutationView>, slug: Seq<char>) -> Option<
    MutationSeverity,
>
    decreases catalog.len(),
{
    if catalog.len() == 0 {
        None
    } else if catalog[0].slug == slug {
        Some(catalog[0].severity)
    } else {
        severity_in(catalog.drop_first(), slug)
    }
}

/// The severity of the first of the mutations that has the slug.
pub fn find_severity(mutations: &[Mutation], slug: &str) -> (r: Option<MutationSeverity>)
    ensures
        r == severity_in(mutation_views(mutations@), slug@),
{
    let ghost catalog = mutation_views(mutations@);
    let mut k: usize = 0;
    assert(catalog.subrange(0, catalog.len() as int) =~= catalog);
    while k < mutations.len()
        invariant
            k <= mutations@.len(),
            catalog == mutation_views(mutations@),
            severity_in(catalog, slug@) == severity_in(
                catalog.subrange(k as int, catalog.len() as int),
                slug@,
            ),
        decreases mutations@.len() - k,
    {
        let ghost rest = catalog.subrange(k as int, catalog.len() as int);
        assert(rest[0] == mutations@[k as int]@);
        assert(rest.drop_first() =~= catalog.subrange(k + 1, catalog.len() as int));
        if str_eq(mutations[k].slug, slug) {
            return Some(mutations[k].severity);
        }
        k += 1;
    }
    None
}

} // verus!
