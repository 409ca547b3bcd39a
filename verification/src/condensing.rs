//! The condensation stage: worker-private accumulators, their merge, and the
//! classification and finalization passes.

use vstd::prelude::*;
use vstd::seq_lib::lemma_multiset_commutative;

use crate::advisors::{
    id_lookup, spec_fti_score, spec_has_any_domain, BCorpAdvisor,
    FashionTransparencyIndexAdvisor, TcoAdvisor, WikidataAdvisor,
};
use crate::errors::ProcessingError;
use crate::ids::WikiStrId;
use crate::knowledge::{
    spec_merged_certs, Category, Certifications, Organisation, OrganisationView, Product,
    ProductView,
};
use crate::text::{domain_of, extract_domain_from_url};
use crate::wikidata::{Entity, Item, Property};

verus! {

/// The identifier of the taxonomy class whose instances get the smartphone
/// category.
pub open spec fn spec_smartphone_model() -> Seq<char> {
    "Q19723444"@
}

/// The identifier of the taxonomy class whose instances get the smartphone
/// category.
pub fn smartphone_model() -> (r: String)
    ensures
        r@ == spec_smartphone_model(),
{
    String::from_str("Q19723444")
}

/// Holds all the supplementary source data.
pub struct CondensingSources {
    /// Membership cache from the prior dump traversal.
    pub cache: WikidataAdvisor,
    /// Domain-keyed registry data.
    pub bcorp: BCorpAdvisor,
    /// Identifier-keyed registry data.
    pub tco: TcoAdvisor,
    /// Transparency-score data.
    pub fti: FashionTransparencyIndexAdvisor,
}

impl CondensingSources {
    /// Builds all advisor indices from the auxiliary datasets. A dataset that
    /// is unavailable is handed in as `None` and yields an index that
    /// contains nothing; only a validation failure of a present score
    /// dataset aborts.
    pub fn load(
        cache: Option<&crate::cache::Wikidata>,
        bcorp: Option<&Vec<crate::advisors::BCorpRecord>>,
        tco: Option<&Vec<crate::advisors::TcoEntry>>,
        fti: Option<&Vec<crate::advisors::FtiEntry>>,
    ) -> (r: Result<Self, ProcessingError>)
        ensures
            match r {
                Ok(s) => {
                    &&& cache is None ==> s.cache.spec_manufacturer_ids().len() == 0
                        && s.cache.spec_class_ids().len() == 0
                    &&& bcorp is None ==> s.bcorp.spec_entries().len() == 0
                    &&& tco is None ==> s.tco.spec_entries().len() == 0
                    &&& fti is None ==> s.fti.spec_entries().len() == 0
                    &&& cache matches Some(c) ==> s.cache.spec_manufacturer_ids()
                        == c.manufacturer_ids.deep_view() && s.cache.spec_class_ids()
                        == c.classes.deep_view()
                    &&& bcorp matches Some(rs) ==> s.bcorp.spec_entries().len() == rs@.len() && (
                    forall|i: int|
                        0 <= i < rs@.len() ==> (#[trigger] s.bcorp.spec_entries()[i]).0@
                            == domain_of(rs@[i].website@) && s.bcorp.spec_entries()[i].1@
                            == rs@[i].company_name@)
                    &&& tco matches Some(es) ==> s.tco.spec_entries().len() == es@.len() && (
                    forall|i: int|
                        0 <= i < es@.len() ==> (#[trigger] s.tco.spec_entries()[i]).0@
                            == es@[i].wikidata_id@ && s.tco.spec_entries()[i].1@
                            == es@[i].company_name@)
                    &&& fti matches Some(src) ==> s.fti.spec_entries()
                        == crate::advisors::fti_pairs(src@)
                },
                Err(e) => {
                    &&& e matches ProcessingError::SourcesCheck(_)
                    &&& fti matches Some(src) && exists|id: Seq<char>|
                        crate::advisors::spec_duplicated(src@, id)
                },
            },
    {
        let cache_advisor = WikidataAdvisor::load(cache);
        let bcorp_advisor = BCorpAdvisor::load(bcorp);
        let tco_advisor = TcoAdvisor::load(tco);
        match FashionTransparencyIndexAdvisor::load(fti) {
            Ok(fti_advisor) => Ok(
                CondensingSources {
                    cache: cache_advisor,
                    bcorp: bcorp_advisor,
                    tco: tco_advisor,
                    fti: fti_advisor,
                },
            ),
            Err(e) => Err(ProcessingError::SourcesCheck(e)),
        }
    }
}

/// The domains of a sequence of websites.
pub open spec fn spec_domains_of(websites: Seq<Seq<char>>) -> Seq<Seq<char>> {
    websites.map_values(|w: Seq<char>| domain_of(w))
}

/// Whether the entity qualifies as an organisation: its identifier is a known
/// manufacturer, or it exposes an official website.
pub open spec fn spec_is_organisation(item: Item, sources: CondensingSources) -> bool {
    crate::advisors::spec_id_in(sources.cache.spec_manufacturer_ids(), item.id@)
        || item.spec_has_official_website()
}

/// The product that classifying the item yields: one with the item's name,
/// description and manufacturers and with empty certifications, when the item
/// has a label in the configured language and a manufacturer relation.
pub open spec fn spec_classify_product(item: Item, lang: Seq<char>) -> Option<ProductView> {
    match item.spec_label(lang) {
        Some(name) => match item.spec_manufacturer_ids() {
            Some(ids) => Some(
                ProductView {
                    id: item.id@,
                    name: name,
                    description: match item.spec_description(lang) {
                        Some(d) => d,
                        None => Seq::empty(),
                    },
                    category: if item.spec_is_instance_of(spec_smartphone_model()) {
                        Some(Category::Smartphone)
                    } else {
                        None
                    },
                    manufacturer_ids: Some(ids),
                    follows: item.spec_first_target(Property::Follows),
                    followed_by: item.spec_first_target(Property::FollowedBy),
                    certifications: Certifications::spec_empty(),
                },
            ),
            None => None,
        },
        None => None,
    }
}

/// The organisation that classifying the item yields: one with the item's
/// name, description and websites and with its certifications resolved from
/// the advisor indices, when the item has a label in the configured language
/// and qualifies as an organisation.
pub open spec fn spec_classify_organisation(
    item: Item,
    sources: CondensingSources,
    lang: Seq<char>,
) -> Option<OrganisationView> {
    match item.spec_label(lang) {
        Some(name) => if spec_is_organisation(item, sources) {
            let websites = match item.spec_official_websites() {
                Some(ws) => ws,
                None => Seq::empty(),
            };
            Some(
                OrganisationView {
                    id: item.id@,
                    name: name,
                    description: match item.spec_description(lang) {
                        Some(d) => d,
                        None => Seq::empty(),
                    },
                    websites: websites,
                    certifications: Certifications {
                        bcorp: spec_has_any_domain(
                            sources.bcorp.spec_entries(),
                            spec_domains_of(websites),
                        ),
                        tco: id_lookup(sources.tco.spec_entries(), item.id@) is Some,
                        fti: spec_fti_score(sources.fti.spec_entries(), item.id@),
                    },
                },
            )
        } else {
            None
        },
        None => None,
    }
}

/// A sequence of the one product, or the empty sequence.
pub open spec fn opt_product_seq(p: Option<ProductView>) -> Seq<ProductView> {
    match p {
        Some(pv) => seq![pv],
        None => Seq::empty(),
    }
}

/// A sequence of the one organisation, or the empty sequence.
pub open spec fn opt_org_seq(o: Option<OrganisationView>) -> Seq<OrganisationView> {
    match o {
        Some(ov) => seq![ov],
        None => Seq::empty(),
    }
}

/// Data storage for gathered records, owned by one worker during streaming.
///
/// Accumulators merge by concatenation, so results from any number of workers
/// can be folded in any grouping.
#[derive(Debug)]
pub struct CondensingCollector {
    /// Found products.
    pub products: Vec<Product>,
    /// Found organisations.
    pub organisations: Vec<Organisation>,
}

impl CondensingCollector {
    /// Constructs an empty collector.
    pub fn new() -> (r: Self)
        ensures
            r.products@.len() == 0,
            r.organisations@.len() == 0,
    {
        CondensingCollector { products: Vec::new(), organisations: Vec::new() }
    }

    /// Adds a new product.
    pub fn add_product(&mut self, product: Product)
        ensures
            final(self).products@ == old(self).products@.push(product),
            final(self).organisations@ == old(self).organisations@,
    {
        self.products.push(product);
    }

    /// Adds a new organisation.
    pub fn add_organisation(&mut self, organisation: Organisation)
        ensures
            final(self).products@ == old(self).products@,
            final(self).organisations@ == old(self).organisations@.push(organisation),
    {
        self.organisations.push(organisation);
    }

    /// Merges another collector into this one by concatenating the product
    /// and organisation sequences.
    pub fn merge(&mut self, other: Self)
        ensures
            final(self).products@ == old(self).products@ + other.products@,
            final(self).organisations@ == old(self).organisations@ + other.organisations@,
    {
        let mut other = other;
        self.products.append(&mut other.products);
        self.organisations.append(&mut other.organisations);
    }
}

/// Law: merging two accumulators yields, both for products and for
/// organisations, the union of the two sides' contents — as a multiset, and
/// hence as a set — independent of which one is merged into which.
pub proof fn lemma_merge_commutative(a: CondensingCollector, b: CondensingCollector)
    ensures
        (a.products@ + b.products@).to_multiset() == (b.products@ + a.products@).to_multiset(),
        (a.products@ + b.products@).to_multiset() == a.products@.to_multiset().add(
            b.products@.to_multiset(),
        ),
        (a.products@ + b.products@).to_set() == a.products@.to_set().union(b.products@.to_set()),
        (a.organisations@ + b.organisations@).to_multiset() == (b.organisations@
            + a.organisations@).to_multiset(),
        (a.organisations@ + b.organisations@).to_multiset()
            == a.organisations@.to_multiset().add(b.organisations@.to_multiset()),
        (a.organisations@ + b.organisations@).to_set() == a.organisations@.to_set().union(
            b.organisations@.to_set(),
        ),
{
    lemma_concat_multiset_union(a.products@, b.products@);
    lemma_concat_multiset_union(b.products@, a.products@);
    lemma_concat_set_union(a.products@, b.products@);
    lemma_concat_multiset_union(a.organisations@, b.organisations@);
    lemma_concat_multiset_union(b.organisations@, a.organisations@);
    lemma_concat_set_union(a.organisations@, b.organisations@);
    assert(a.products@.to_multiset().add(b.products@.to_multiset())
        =~= b.products@.to_multiset().add(a.products@.to_multiset()));
    assert(a.organisations@.to_multiset().add(b.organisations@.to_multiset())
        =~= b.organisations@.to_multiset().add(a.organisations@.to_multiset()));
}

/// Law: merging accumulators is associative: folding three accumulators in
/// either grouping yields the same product and organisation sequences.
pub proof fn lemma_merge_associative(
    a: CondensingCollector,
    b: CondensingCollector,
    c: CondensingCollector,
)
    ensures
        (a.products@ + b.products@) + c.products@ == a.products@ + (b.products@ + c.products@),
        (a.organisations@ + b.organisations@) + c.organisations@ == a.organisations@ + (
        b.organisations@ + c.organisations@),
{
    assert((a.products@ + b.products@) + c.products@ =~= a.products@ + (b.products@
        + c.products@));
    assert((a.organisations@ + b.organisations@) + c.organisations@ =~= a.organisations@ + (
    b.organisations@ + c.organisations@));
}

/// The multiset of a concatenation is the sum of the two multisets.
proof fn lemma_concat_multiset_union<T>(a: Seq<T>, b: Seq<T>)
    ensures
        (a + b).to_multiset() == a.to_multiset().add(b.to_multiset()),
{
    lemma_multiset_commutative(a, b);
    assert((a + b).to_multiset() =~= a.to_multiset().add(b.to_multiset()));
}

/// Translates the filtered dump entities into the output records.
#[derive(Debug)]
pub struct CondensingProcessor;

impl CondensingProcessor {
    /// Whether the entity qualifies as an organisation.
    fn is_organisation(item: &Item, sources: &CondensingSources) -> (r: bool)
        ensures
            r == spec_is_organisation(*item, *sources),
    {
        sources.cache.has_manufacturer_id(&item.id) || item.has_official_website()
    }

    /// Handles one dump entity: classifies it and appends the records it
    /// yields to the invoking worker's collector. An entity with a
    /// manufacturer relation yields a product; one whose identifier is a
    /// known manufacturer or that exposes an official website yields an
    /// organisation; one entity may yield both, or, lacking either signal or
    /// a label in the configured language `lang`, neither.
    pub fn handle_entity(
        entity: &Entity,
        sources: &CondensingSources,
        collector: &mut CondensingCollector,
        lang: &String,
    ) -> (r: Result<(), ProcessingError>)
        ensures
            r is Ok,
            match entity {
                Entity::Item(item) => {
                    &&& final(collector).products.deep_view() == old(
                        collector,
                    ).products.deep_view() + opt_product_seq(spec_classify_product(*item, lang@))
                    &&& final(collector).organisations.deep_view() == old(
                        collector,
                    ).organisations.deep_view() + opt_org_seq(
                        spec_classify_organisation(*item, *sources, lang@),
                    )
                },
                Entity::Property(_) => *final(collector) == *old(collector),
            },
    {
        match entity {
            Entity::Item(item) => {
                let ghost products0 = collector.products.deep_view();
                let ghost organisations0 = collector.organisations.deep_view();
                match item.get_label(&lang) {
                    Some(name) => {
                        if let Some(ids) = item.get_manufacturer_ids() {
                            let category = if item.is_instance_of(&smartphone_model()) {
                                Some(Category::Smartphone)
                            } else {
                                None
                            };
                            let description = match item.get_description(&lang) {
                                Some(d) => d.clone(),
                                None => String::new(),
                            };
                            let product = Product {
                                id: WikiStrId { value: item.id.value.clone() },
                                name: name.clone(),
                                description,
                                category,
                                manufacturer_ids: Some(ids),
                                follows: item.get_follows(),
                                followed_by: item.get_followed_by(),
                                certifications: Certifications::empty(),
                            };
                            proof {
                                assert(product@ =~~= spec_classify_product(*item, lang@)->0);
                            }
                            let ghost before = collector.products.deep_view();
                            collector.add_product(product);
                            proof {
                                assert(collector.products.deep_view() =~= before + opt_product_seq(
                                    spec_classify_product(*item, lang@),
                                ));
                            }
                        } else {
                            proof {
                                assert(collector.products.deep_view() =~= products0
                                    + opt_product_seq(spec_classify_product(*item, lang@)));
                            }
                        }
                        if CondensingProcessor::is_organisation(item, sources) {
                            let websites = match item.get_official_websites() {
                                Some(ws) => ws,
                                None => Vec::new(),
                            };
                            let ghost wsv = websites.deep_view();
                            let m = websites.len();
                            let mut domains: Vec<String> = Vec::new();
                            for i in 0..m
                                invariant
                                    m == websites@.len(),
                                    domains@.len() == i,
                                    forall|j: int|
                                        0 <= j < i ==> (#[trigger] domains@[j])@ == domain_of(
                                            websites@[j]@,
                                        ),
                            {
                                domains.push(extract_domain_from_url(websites[i].as_str()));
                            }
                            proof {
                                assert(domains.deep_view() =~= spec_domains_of(
                                    websites.deep_view(),
                                ));
                            }
                            let is_bcorp = sources.bcorp.has_domains(&domains);
                            let is_tco = sources.tco.has_company(&item.id);
                            let fti_score = match sources.fti.get_cert(&item.id) {
                                Some(cert) => Some(cert.score),
                                None => None,
                            };
                            let description = match item.get_description(&lang) {
                                Some(d) => d.clone(),
                                None => String::new(),
                            };
                            let organisation = Organisation {
                                id: WikiStrId { value: item.id.value.clone() },
                                name: name.clone(),
                                description,
                                websites,
                                certifications: Certifications {
                                    bcorp: is_bcorp,
                                    tco: is_tco,
                                    fti: fti_score,
                                },
                            };
                            proof {
                                assert(organisation.websites.deep_view() =~= (
                                match item.spec_official_websites() {
                                    Some(ws) => ws,
                                    None => Seq::<Seq<char>>::empty(),
                                }));
                                assert(organisation@ =~~= spec_classify_organisation(
                                    *item,
                                    *sources,
                                    lang@,
                                ) -> 0);
                            }
                            let ghost before = collector.organisations.deep_view();
                            collector.add_organisation(organisation);
                            proof {
                                assert(collector.organisations.deep_view() =~= before
                                    + opt_org_seq(
                                    spec_classify_organisation(*item, *sources, lang@),
                                ));
                            }
                        } else {
                            proof {
                                assert(collector.organisations.deep_view() =~= organisations0
                                    + opt_org_seq(
                                    spec_classify_organisation(*item, *sources, lang@),
                                ));
                            }
                        }
                    },
                    None => {
                        proof {
                            assert(collector.products.deep_view() =~= products0 + opt_product_seq(
                                spec_classify_product(*item, lang@),
                            ));
                            assert(collector.organisations.deep_view() =~= organisations0
                                + opt_org_seq(spec_classify_organisation(*item, *sources, lang@)));
                        }
                    },
                }
            },
            Entity::Property(_) => {},
        }
        Ok(())
    }
}

/// The certifications of the first organisation with the given identifier, or
/// nothing: the index that the finalizer resolves manufacturers through. When
/// an identifier repeats, the first occurrence wins, which makes resolution
/// deterministic.
pub open spec fn org_certs_lookup(orgs: Seq<OrganisationView>, id: Seq<char>) -> Option<
    Certifications,
>
    decreases orgs.len(),
{
    if orgs.len() == 0 {
        None
    } else if orgs[0].id == id {
        Some(orgs[0].certifications)
    } else {
        org_certs_lookup(orgs.drop_first(), id)
    }
}

/// The certifications that propagating along the given manufacturer
/// identifiers yields: each identifier that resolves to an organisation
/// merges that organisation's certifications in, in order.
pub open spec fn spec_propagated_certs(
    orgs: Seq<OrganisationView>,
    base: Certifications,
    ids: Seq<Seq<char>>,
) -> Certifications
    decreases ids.len(),
{
    if ids.len() == 0 {
        base
    } else {
        let next = match org_certs_lookup(orgs, ids[0]) {
            Some(c) => spec_merged_certs(base, c),
            None => base,
        };
        spec_propagated_certs(orgs, next, ids.drop_first())
    }
}

/// The product after the finalizer's propagation pass: the same record, with
/// the certifications of every resolved manufacturer merged in.
pub open spec fn spec_finalized_product(p: ProductView, orgs: Seq<OrganisationView>) -> ProductView {
    ProductView {
        certifications: match p.manufacturer_ids {
            Some(ids) => spec_propagated_certs(orgs, p.certifications, ids),
            None => p.certifications,
        },
        ..p
    }
}

/// The certifications of the first organisation with the given identifier.
/// The organisation sequence itself serves as the identifier index: a
/// hash-keyed map would change only the cost of each resolution, not which
/// certifications an identifier resolves to, and text-keyed hash maps admit
/// no reasoning here.
fn find_org_certs(orgs: &Vec<Organisation>, id: &WikiStrId) -> (r: Option<Certifications>)
    ensures
        r == org_certs_lookup(orgs.deep_view(), id@),
{
    let n = orgs.len();
    proof {
        assert(orgs.deep_view().skip(0) =~= orgs.deep_view());
    }
    for i in 0..n
        invariant
            n == orgs@.len(),
            org_certs_lookup(orgs.deep_view().skip(i as int), id@) == org_certs_lookup(
                orgs.deep_view(),
                id@,
            ),
    {
        proof {
            assert(orgs.deep_view().skip(i as int)[0] == orgs.deep_view()[i as int]);
            assert(orgs.deep_view().skip(i as int).drop_first() =~= orgs.deep_view().skip(
                i as int + 1,
            ));
        }
        if orgs[i].id.value == id.value {
            return Some(orgs[i].certifications);
        }
    }
    None
}

/// Merges into `base` the certifications of every organisation that one of
/// the given manufacturer identifiers resolves to.
fn propagate_certs(orgs: &Vec<Organisation>, base: Certifications, ids: &Vec<WikiStrId>) -> (r:
    Certifications)
    ensures
        r == spec_propagated_certs(orgs.deep_view(), base, ids.deep_view()),
{
    let mut certs = base;
    let k = ids.len();
    proof {
        assert(ids.deep_view().skip(0) =~= ids.deep_view());
    }
    for j in 0..k
        invariant
            k == ids@.len(),
            spec_propagated_certs(orgs.deep_view(), base, ids.deep_view()) == spec_propagated_certs(
                orgs.deep_view(),
                certs,
                ids.deep_view().skip(j as int),
            ),
    {
        proof {
            assert(ids.deep_view().skip(j as int)[0] == ids.deep_view()[j as int]);
            assert(ids.deep_view().skip(j as int).drop_first() =~= ids.deep_view().skip(
                j as int + 1,
            ));
        }
        match find_org_certs(orgs, &ids[j]) {
            Some(c) => certs.merge(c),
            None => {},
        }
    }
    proof {
        assert(ids.deep_view().skip(k as int) =~= Seq::<Seq<char>>::empty());
    }
    certs
}

/// Copies a product, giving the copy the passed certifications.
fn product_with_certs(p: &Product, certs: Certifications) -> (r: Product)
    ensures
        r@ == (ProductView { certifications: certs, ..p@ }),
{
    let manufacturer_ids = match &p.manufacturer_ids {
        Some(ids) => {
            let c = crate::advisors::clone_id_vec(ids);
            proof {
                assert forall|k: int| 0 <= k < c.deep_view().len() implies c.deep_view()[k]
                    == ids.deep_view()[k] by {
                    assert(c@[k]@ == ids@[k]@);
                }
                assert(c.deep_view() =~= ids.deep_view());
            }
            Some(c)
        },
        None => None,
    };
    let r = Product {
        id: WikiStrId { value: p.id.value.clone() },
        name: p.name.clone(),
        description: p.description.clone(),
        category: p.category,
        manufacturer_ids,
        follows: match &p.follows {
            Some(id) => Some(WikiStrId { value: id.value.clone() }),
            None => None,
        },
        followed_by: match &p.followed_by {
            Some(id) => Some(WikiStrId { value: id.value.clone() }),
            None => None,
        },
        certifications: certs,
    };
    proof {
        assert(r@ =~~= (ProductView { certifications: certs, ..p@ }));
    }
    r
}

/// Copies an organisation.
fn clone_organisation(o: &Organisation) -> (r: Organisation)
    ensures
        r@ == o@,
{
    let m = o.websites.len();
    let mut websites: Vec<String> = Vec::new();
    for i in 0..m
        invariant
            m == o.websites@.len(),
            websites@.len() == i,
            forall|j: int| 0 <= j < i ==> (#[trigger] websites@[j])@ == o.websites@[j]@,
    {
        websites.push(o.websites[i].clone());
    }
    proof {
        assert(websites.deep_view() =~= o.websites.deep_view());
    }
    Organisation {
        id: WikiStrId { value: o.id.value.clone() },
        name: o.name.clone(),
        description: o.description.clone(),
        websites,
        certifications: o.certifications,
    }
}

impl CondensingProcessor {
    /// The finalization pass: runs once, after the full merge. Resolves every
    /// product's manufacturer identifiers against the collected organisations
    /// and merges the certifications of each resolved organisation into the
    /// product's; organisations pass through unchanged. Propagation is
    /// correct whatever the stream order was, because it runs only after the
    /// entire stream and merge have completed.
    pub fn finalize(collector: &CondensingCollector) -> (r: (Vec<Product>, Vec<Organisation>))
        ensures
            r.0@.len() == collector.products@.len(),
            forall|i: int|
                0 <= i < collector.products@.len() ==> (#[trigger] r.0@[i])@
                    == spec_finalized_product(
                    collector.products@[i]@,
                    collector.organisations.deep_view(),
                ),
            r.1.deep_view() == collector.organisations.deep_view(),
    {
        let n = collector.products.len();
        let mut products: Vec<Product> = Vec::new();
        for i in 0..n
            invariant
                n == collector.products@.len(),
                products@.len() == i,
                forall|j: int|
                    0 <= j < i ==> (#[trigger] products@[j])@ == spec_finalized_product(
                        collector.products@[j]@,
                        collector.organisations.deep_view(),
                    ),
        {
            let p = &collector.products[i];
            let certs = match &p.manufacturer_ids {
                Some(ids) => propagate_certs(&collector.organisations, p.certifications, ids),
                None => p.certifications,
            };
            products.push(product_with_certs(p, certs));
        }
        let m = collector.organisations.len();
        let mut organisations: Vec<Organisation> = Vec::new();
        for i in 0..m
            invariant
                m == collector.organisations@.len(),
                organisations@.len() == i,
                forall|j: int|
                    0 <= j < i ==> (#[trigger] organisations@[j])@
                        == collector.organisations@[j]@,
        {
            organisations.push(clone_organisation(&collector.organisations[i]));
        }
        proof {
            assert(organisations.deep_view() =~= collector.organisations.deep_view());
        }
        (products, organisations)
    }
}

/// The products of a merged accumulator after the finalizer's propagation
/// pass, given the merged organisations.
pub open spec fn spec_finalized_seq(
    products: Seq<ProductView>,
    orgs: Seq<OrganisationView>,
) -> Seq<ProductView> {
    products.map_values(|p: ProductView| spec_finalized_product(p, orgs))
}

/// Swapping two organisations with different identifiers does not change what
/// any identifier resolves to.
proof fn lemma_lookup_swap(x: OrganisationView, y: OrganisationView, id: Seq<char>)
    requires
        x.id != y.id,
    ensures
        org_certs_lookup(seq![x, y], id) == org_certs_lookup(seq![y, x], id),
{
    let xy = seq![x, y];
    let yx = seq![y, x];
    assert(xy.drop_first() =~= seq![y]);
    assert(yx.drop_first() =~= seq![x]);
    assert(seq![x].drop_first() =~= Seq::<OrganisationView>::empty());
    assert(seq![y].drop_first() =~= Seq::<OrganisationView>::empty());
    assert(org_certs_lookup(Seq::<OrganisationView>::empty(), id) is None);
    assert(xy[0] == x && yx[0] == y && seq![x][0] == x && seq![y][0] == y);
    if x.id == id {
        assert(org_certs_lookup(xy, id) == Some(x.certifications));
        assert(org_certs_lookup(seq![x], id) == Some(x.certifications));
        assert(org_certs_lookup(yx, id) == Some(x.certifications));
    } else if y.id == id {
        assert(org_certs_lookup(seq![y], id) == Some(y.certifications));
        assert(org_certs_lookup(xy, id) == Some(y.certifications));
        assert(org_certs_lookup(yx, id) == Some(y.certifications));
    } else {
        assert(org_certs_lookup(seq![x], id) is None);
        assert(org_certs_lookup(seq![y], id) is None);
        assert(org_certs_lookup(xy, id) is None);
        assert(org_certs_lookup(yx, id) is None);
    }
}

/// Propagation depends on the organisations only through what each
/// identifier resolves to.
proof fn lemma_propagated_congruence(
    orgs1: Seq<OrganisationView>,
    orgs2: Seq<OrganisationView>,
    base: Certifications,
    ids: Seq<Seq<char>>,
)
    requires
        forall|id: Seq<char>|
            #[trigger] org_certs_lookup(orgs1, id) == org_certs_lookup(orgs2, id),
    ensures
        spec_propagated_certs(orgs1, base, ids) == spec_propagated_certs(orgs2, base, ids),
    decreases ids.len(),
{
    if ids.len() > 0 {
        let next = match org_certs_lookup(orgs1, ids[0]) {
            Some(c) => spec_merged_certs(base, c),
            None => base,
        };
        lemma_propagated_congruence(orgs1, orgs2, next, ids.drop_first());
    }
}

/// Finalizing a product depends on the organisations only through what each
/// identifier resolves to.
proof fn lemma_finalized_congruence(
    p: ProductView,
    orgs1: Seq<OrganisationView>,
    orgs2: Seq<OrganisationView>,
)
    requires
        forall|id: Seq<char>|
            #[trigger] org_certs_lookup(orgs1, id) == org_certs_lookup(orgs2, id),
    ensures
        spec_finalized_product(p, orgs1) == spec_finalized_product(p, orgs2),
{
    match p.manufacturer_ids {
        Some(ids) => {
            lemma_propagated_congruence(orgs1, orgs2, p.certifications, ids);
        },
        None => {},
    }
    assert(spec_finalized_product(p, orgs1) =~~= spec_finalized_product(p, orgs2));
}

/// A two-element sequence has the same multiset in either order.
proof fn lemma_pair_multiset_swap<T>(u: T, v: T)
    ensures
        seq![u, v].to_multiset() == seq![v, u].to_multiset(),
{
    lemma_multiset_commutative(seq![u], seq![v]);
    lemma_multiset_commutative(seq![v], seq![u]);
    assert(seq![u] + seq![v] =~= seq![u, v]);
    assert(seq![v] + seq![u] =~= seq![v, u]);
    assert(seq![u, v].to_multiset() =~= seq![v, u].to_multiset());
}

/// Law: certification propagation is order-independent. Feeding two entities
/// with distinct identifiers through classification in either order, then
/// finalizing against the collected organisations, yields the same multiset
/// of finalized products — in particular, feeding an organisation entity
/// before or after its product produces an identical final product record.
pub proof fn lemma_propagation_order_independent(
    e1: Item,
    e2: Item,
    sources: CondensingSources,
    lang: Seq<char>,
)
    requires
        e1.id@ != e2.id@,
    ensures
        ({
            let pa = opt_product_seq(spec_classify_product(e1, lang)) + opt_product_seq(
                spec_classify_product(e2, lang),
            );
            let pb = opt_product_seq(spec_classify_product(e2, lang)) + opt_product_seq(
                spec_classify_product(e1, lang),
            );
            let oa = opt_org_seq(spec_classify_organisation(e1, sources, lang)) + opt_org_seq(
                spec_classify_organisation(e2, sources, lang),
            );
            let ob = opt_org_seq(spec_classify_organisation(e2, sources, lang)) + opt_org_seq(
                spec_classify_organisation(e1, sources, lang),
            );
            spec_finalized_seq(pa, oa).to_multiset() == spec_finalized_seq(pb, ob).to_multiset()
        }),
{
    let p1 = spec_classify_product(e1, lang);
    let p2 = spec_classify_product(e2, lang);
    let o1 = spec_classify_organisation(e1, sources, lang);
    let o2 = spec_classify_organisation(e2, sources, lang);
    let pa = opt_product_seq(p1) + opt_product_seq(p2);
    let pb = opt_product_seq(p2) + opt_product_seq(p1);
    let oa = opt_org_seq(o1) + opt_org_seq(o2);
    let ob = opt_org_seq(o2) + opt_org_seq(o1);
    // What any identifier resolves to does not depend on the order the two
    // entities were fed in.
    assert forall|id: Seq<char>| #[trigger]
        org_certs_lookup(oa, id) == org_certs_lookup(ob, id) by {
        match (o1, o2) {
            (Some(x), Some(y)) => {
                assert(x.id == e1.id@);
                assert(y.id == e2.id@);
                assert(oa =~= seq![x, y]);
                assert(ob =~= seq![y, x]);
                lemma_lookup_swap(x, y, id);
            },
            (Some(x), None) => {
                assert(oa =~= seq![x]);
                assert(ob =~= seq![x]);
            },
            (None, Some(y)) => {
                assert(oa =~= seq![y]);
                assert(ob =~= seq![y]);
            },
            (None, None) => {
                assert(oa =~= ob);
            },
        }
    }
    let fa = spec_finalized_seq(pa, oa);
    let fb = spec_finalized_seq(pb, ob);
    match (p1, p2) {
        (Some(u), Some(v)) => {
            lemma_finalized_congruence(u, oa, ob);
            lemma_finalized_congruence(v, oa, ob);
            assert(pa =~= seq![u, v]);
            assert(pb =~= seq![v, u]);
            assert(fa =~= seq![
                spec_finalized_product(u, oa),
                spec_finalized_product(v, oa),
            ]);
            assert(fb =~= seq![
                spec_finalized_product(v, oa),
                spec_finalized_product(u, oa),
            ]);
            lemma_pair_multiset_swap(spec_finalized_product(u, oa), spec_finalized_product(v, oa));
        },
        (Some(u), None) => {
            lemma_finalized_congruence(u, oa, ob);
            assert(fa =~= seq![spec_finalized_product(u, oa)]);
            assert(fb =~= seq![spec_finalized_product(u, oa)]);
        },
        (None, Some(v)) => {
            lemma_finalized_congruence(v, oa, ob);
            assert(fa =~= seq![spec_finalized_product(v, oa)]);
            assert(fb =~= seq![spec_finalized_product(v, oa)]);
        },
        (None, None) => {
            assert(fa =~= fb);
        },
    }
}

/// The set of a concatenation is the union of the two sets.
proof fn lemma_concat_set_union<T>(a: Seq<T>, b: Seq<T>)
    ensures
        (a + b).to_set() == a.to_set().union(b.to_set()),
{
    assert forall|x: T| (a + b).contains(x) implies a.contains(x) || b.contains(x) by {
        let i = choose|i: int| 0 <= i < (a + b).len() && (a + b)[i] == x;
        if i < a.len() {
            assert(a[i] == x);
        } else {
            assert(b[i - a.len()] == x);
        }
    }
    assert forall|x: T| a.contains(x) || b.contains(x) implies (a + b).contains(x) by {
        if a.contains(x) {
            let i = choose|i: int| 0 <= i < a.len() && a[i] == x;
            assert((a + b)[i] == x);
        } else {
            let i = choose|i: int| 0 <= i < b.len() && b[i] == x;
            assert((a + b)[a.len() + i] == x);
        }
    }
    assert((a + b).to_set() =~= a.to_set().union(b.to_set()));
}

} // verus!
