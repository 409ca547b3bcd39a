//! Core domain records: products, organisations and the certification facts
//! attached to them.

use vstd::prelude::*;

use crate::ids::WikiStrId;

verus! {

/// A product category from the fixed taxonomy.
#[derive(Clone, Copy, Debug, PartialEq, Eq, Structural)]
pub enum Category {
    Smartphone,
}

/// Certification asserted by the company registry keyed by website domains.
#[derive(Clone, Debug)]
pub struct BCorpCert {
    /// Identifier used in links to company profiles on the registry's web page.
    pub id: String,
}

/// Certification asserted by the company registry keyed by entity identifiers.
#[derive(Clone, Debug)]
pub struct TcoCert {
    /// Name of the certified brand.
    pub brand_name: String,
}

/// Transparency score asserted by the score registry.
#[derive(Clone, Copy, Debug, PartialEq, Eq, Structural)]
pub struct FtiCert {
    /// The score, in percent.
    pub score: u32,
}

/// The certification facts known about one organisation, or accumulated on a
/// product from the organisations that manufacture it.
#[derive(Clone, Copy, Debug, PartialEq, Eq, Structural)]
pub struct Certifications {
    /// Certified by the domain-keyed registry.
    pub bcorp: bool,
    /// Certified by the identifier-keyed registry.
    pub tco: bool,
    /// Transparency score, if the score registry lists the organisation.
    pub fti: Option<u32>,
}

/// The score that combining two optional scores yields: the larger one wins,
/// and a present score always wins over an absent one.
pub open spec fn spec_merged_score(a: Option<u32>, b: Option<u32>) -> Option<u32> {
    match (a, b) {
        (Some(x), Some(y)) => if x >= y {
            Some(x)
        } else {
            Some(y)
        },
        (Some(x), None) => Some(x),
        (None, y) => y,
    }
}

/// The certifications that merging `a` and `b` yields: booleans are or-ed,
/// scores combine by [`spec_merged_score`].
pub open spec fn spec_merged_certs(a: Certifications, b: Certifications) -> Certifications {
    Certifications {
        bcorp: a.bcorp || b.bcorp,
        tco: a.tco || b.tco,
        fti: spec_merged_score(a.fti, b.fti),
    }
}

impl Certifications {
    /// Certifications with no facts: not certified anywhere, no score.
    pub open spec fn spec_empty() -> Certifications {
        Certifications { bcorp: false, tco: false, fti: None }
    }

    /// Constructs certifications with no facts.
    pub fn empty() -> (r: Certifications)
        ensures
            r == Certifications::spec_empty(),
    {
        Certifications { bcorp: false, tco: false, fti: None }
    }

    /// Combines certifications gathered from another source into these:
    /// boolean facts are or-ed together; of two scores the larger wins,
    /// and a present score always wins over an absent one.
    pub fn merge(&mut self, other: Certifications)
        ensures
            *final(self) == spec_merged_certs(*old(self), other),
    {
        self.bcorp = self.bcorp || other.bcorp;
        self.tco = self.tco || other.tco;
        self.fti = match (self.fti, other.fti) {
            (Some(x), Some(y)) => if x >= y {
                Some(x)
            } else {
                Some(y)
            },
            (Some(x), None) => Some(x),
            (None, y) => y,
        };
    }
}

/// Merging certifications is commutative.
pub proof fn lemma_certs_merge_commutative(a: Certifications, b: Certifications)
    ensures
        spec_merged_certs(a, b) == spec_merged_certs(b, a),
{
}

/// Merging certifications is associative.
pub proof fn lemma_certs_merge_associative(a: Certifications, b: Certifications, c: Certifications)
    ensures
        spec_merged_certs(spec_merged_certs(a, b), c) == spec_merged_certs(
            a,
            spec_merged_certs(b, c),
        ),
{
}

/// A classified product record.
#[derive(Clone, Debug)]
pub struct Product {
    /// Identifier of the entity the product was classified from.
    pub id: WikiStrId,
    /// Label in the configured language.
    pub name: String,
    /// Description in the configured language, or empty if absent.
    pub description: String,
    /// Category from the fixed taxonomy, if any matched.
    pub category: Option<Category>,
    /// Identifiers of the manufacturing organisations, if the entity has a
    /// manufacturer relation.
    pub manufacturer_ids: Option<Vec<WikiStrId>>,
    /// Identifier of the predecessor product, if any.
    pub follows: Option<WikiStrId>,
    /// Identifier of the successor product, if any.
    pub followed_by: Option<WikiStrId>,
    /// Certifications; empty at classification time, filled by the finalizer.
    pub certifications: Certifications,
}

/// A classified organisation record.
#[derive(Clone, Debug)]
pub struct Organisation {
    /// Identifier of the entity the organisation was classified from.
    pub id: WikiStrId,
    /// Label in the configured language.
    pub name: String,
    /// Description in the configured language, or empty if absent.
    pub description: String,
    /// Official websites of the organisation.
    pub websites: Vec<String>,
    /// Certifications, resolved at classification time.
    pub certifications: Certifications,
}

/// A topic of the library of background articles.
#[derive(Clone, Copy, Debug, PartialEq, Eq, Structural)]
pub enum LibraryTopic {
    /// The article presenting the transparency-score registry.
    CertFti,
}

/// One scored row of a presentation shown beside a library article.
#[derive(Clone, Debug)]
pub struct ScoredPresentationEntry {
    /// Identifier of the scored organisation.
    pub id: WikiStrId,
    /// Name of the scored organisation.
    pub name: String,
    /// The score, in percent.
    pub score: u32,
}

/// The data of a presentation.
#[derive(Clone, Debug)]
pub enum PresentationData {
    Scored(Vec<ScoredPresentationEntry>),
}

/// A presentation shown beside a library article.
#[derive(Clone, Debug)]
pub struct Presentation {
    /// Topic of the article the presentation belongs to.
    pub id: LibraryTopic,
    /// The rows to show.
    pub data: PresentationData,
}

/// One source record of the library of background articles.
#[derive(Clone, Debug)]
pub struct LibraryInfo {
    /// Topic name of the article.
    pub id: String,
    /// Title of the article.
    pub title: String,
    /// Short summary of the article.
    pub summary: String,
    /// Body of the article.
    pub article: String,
}

/// One output record of the library of background articles.
#[derive(Clone, Debug)]
pub struct LibraryItem {
    /// Topic name of the article.
    pub id: String,
    /// Title of the article.
    pub title: String,
    /// Short summary of the article.
    pub summary: String,
    /// Body of the article.
    pub article: String,
}

/// Mathematical model of a [`Product`].
#[verifier::ext_equal]
pub struct ProductView {
    pub id: Seq<char>,
    pub name: Seq<char>,
    pub description: Seq<char>,
    pub category: Option<Category>,
    pub manufacturer_ids: Option<Seq<Seq<char>>>,
    pub follows: Option<Seq<char>>,
    pub followed_by: Option<Seq<char>>,
    pub certifications: Certifications,
}

/// Mathematical model of an [`Organisation`].
#[verifier::ext_equal]
pub struct OrganisationView {
    pub id: Seq<char>,
    pub name: Seq<char>,
    pub description: Seq<char>,
    pub websites: Seq<Seq<char>>,
    pub certifications: Certifications,
}

impl View for Product {
    type V = ProductView;

    open spec fn view(&self) -> ProductView {
        ProductView {
            id: self.id@,
            name: self.name@,
            description: self.description@,
            category: self.category,
            manufacturer_ids: match self.manufacturer_ids {
                Some(ids) => Some(ids.deep_view()),
                None => None,
            },
            follows: match self.follows {
                Some(id) => Some(id@),
                None => None,
            },
            followed_by: match self.followed_by {
                Some(id) => Some(id@),
                None => None,
            },
            certifications: self.certifications,
        }
    }
}

impl DeepView for Product {
    type V = ProductView;

    open spec fn deep_view(&self) -> ProductView {
        self.view()
    }
}

impl View for Organisation {
    type V = OrganisationView;

    open spec fn view(&self) -> OrganisationView {
        OrganisationView {
            id: self.id@,
            name: self.name@,
            description: self.description@,
            websites: self.websites.deep_view(),
            certifications: self.certifications,
        }
    }
}

impl DeepView for Organisation {
    type V = OrganisationView;

    open spec fn deep_view(&self) -> OrganisationView {
        self.view()
    }
}

} // verus!

