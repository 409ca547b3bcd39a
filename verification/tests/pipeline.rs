use condenser::advisors::{
    BCorpAdvisor, BCorpRecord, EuEcolabelAdvisor, EuEcolabelRecord,
    FashionTransparencyIndexAdvisor, FtiEntry, Match, NameMatching, SustainityMatchesAdvisor,
    TcoAdvisor, TcoEntry, WikidataAdvisor,
};
use condenser::ids::VatId;
use condenser::cache::Wikidata;
use condenser::condensing::{CondensingCollector, CondensingProcessor, CondensingSources};
use condenser::errors::SourcesCheckError;
use condenser::ids::WikiStrId;
use condenser::knowledge::Certifications;
use condenser::wikidata::{Entity, Item, LangText, Property, PropertyDef, Relation};

fn str_id(s: &str) -> WikiStrId {
    WikiStrId { value: s.to_string() }
}

fn label(text: &str) -> Vec<LangText> {
    vec![LangText { lang: "en".to_string(), text: text.to_string() }]
}

fn item(id: &str, name: &str, relations: Vec<Relation>) -> Item {
    Item { id: str_id(id), labels: label(name), descriptions: Vec::new(), relations }
}

fn relation(property: Property, targets: &[&str]) -> Relation {
    Relation { property, targets: targets.iter().map(|t| t.to_string()).collect() }
}

fn handle(entity: &Entity, sources: &CondensingSources, collector: &mut CondensingCollector) {
    CondensingProcessor::handle_entity(entity, sources, collector, &"en".to_string()).unwrap();
}

fn sources_with_bcorp(records: &Vec<BCorpRecord>) -> CondensingSources {
    CondensingSources::load(None, Some(records), None, None).unwrap()
}

fn empty_sources() -> CondensingSources {
    CondensingSources::load(None, None, None, None).unwrap()
}

/// A dump with an organisation listed in the domain registry, a product made
/// by it, and an entity with neither signal yields exactly one product with
/// its certification flag set, one organisation, and nothing for the third.
#[test]
fn end_to_end_three_entities() {
    let records = vec![BCorpRecord {
        company_name: "Example Corp".to_string(),
        website: "https://example.com".to_string(),
    }];
    let sources = sources_with_bcorp(&records);

    let org_entity = Entity::Item(item(
        "Q1",
        "Example Corp",
        vec![relation(Property::OfficialWebsite, &["https://www.example.com/about"])],
    ));
    let product_entity =
        Entity::Item(item("Q2", "Example Phone", vec![relation(Property::Manufacturer, &["Q1"])]));
    let plain_entity = Entity::Item(item("Q3", "Nothing Special", vec![]));

    let mut collector = CondensingCollector::new();
    handle(&org_entity, &sources, &mut collector);
    handle(&product_entity, &sources, &mut collector);
    handle(&plain_entity, &sources, &mut collector);

    assert_eq!(collector.products.len(), 1);
    assert_eq!(collector.organisations.len(), 1);
    assert_eq!(collector.products[0].id.value, "Q2");
    assert_eq!(collector.organisations[0].id.value, "Q1");
    assert!(collector.organisations[0].certifications.bcorp);
    assert!(!collector.products[0].certifications.bcorp);

    let (products, organisations) = CondensingProcessor::finalize(&collector);
    assert_eq!(products.len(), 1);
    assert_eq!(organisations.len(), 1);
    assert!(products[0].certifications.bcorp);
    assert!(!products[0].certifications.tco);
    assert_eq!(products[0].certifications.fti, None);
}

/// An entity with a manufacturer relation yields a product; one with a known
/// manufacturer id or a website yields an organisation; both can hold at
/// once; neither yields nothing.
#[test]
fn classification_signals() {
    let cache = Wikidata { manufacturer_ids: vec![str_id("Q7")], classes: Vec::new() };
    let sources = CondensingSources::load(Some(&cache), None, None, None).unwrap();

    // Product only.
    let mut c1 = CondensingCollector::new();
    let e1 = Entity::Item(item("Q10", "Widget", vec![relation(Property::Manufacturer, &["Q7"])]));
    handle(&e1, &sources, &mut c1);
    assert_eq!(c1.products.len(), 1);
    assert_eq!(c1.organisations.len(), 0);

    // Organisation only, via the known-manufacturer cache.
    let mut c2 = CondensingCollector::new();
    let e2 = Entity::Item(item("Q7", "Widget Maker", vec![]));
    handle(&e2, &sources, &mut c2);
    assert_eq!(c2.products.len(), 0);
    assert_eq!(c2.organisations.len(), 1);

    // Organisation only, via an official website.
    let mut c3 = CondensingCollector::new();
    let e3 = Entity::Item(item(
        "Q8",
        "Site Co",
        vec![relation(Property::OfficialWebsite, &["https://site.example"])],
    ));
    handle(&e3, &sources, &mut c3);
    assert_eq!(c3.products.len(), 0);
    assert_eq!(c3.organisations.len(), 1);

    // Both at once.
    let mut c4 = CondensingCollector::new();
    let e4 = Entity::Item(item(
        "Q7",
        "Maker And Product",
        vec![relation(Property::Manufacturer, &["Q9"])],
    ));
    handle(&e4, &sources, &mut c4);
    assert_eq!(c4.products.len(), 1);
    assert_eq!(c4.organisations.len(), 1);

    // Neither.
    let mut c5 = CondensingCollector::new();
    let e5 = Entity::Item(item("Q11", "Nothing", vec![]));
    handle(&e5, &sources, &mut c5);
    assert_eq!(c5.products.len(), 0);
    assert_eq!(c5.organisations.len(), 0);

    // A schema definition yields nothing.
    let mut c6 = CondensingCollector::new();
    let e6 = Entity::Property(PropertyDef { id: str_id("P42") });
    handle(&e6, &sources, &mut c6);
    assert_eq!(c6.products.len(), 0);
    assert_eq!(c6.organisations.len(), 0);
}

/// An entity without a label in the configured language is dropped entirely.
#[test]
fn entity_without_label_is_dropped() {
    let sources = empty_sources();
    let mut collector = CondensingCollector::new();
    let entity = Entity::Item(Item {
        id: str_id("Q20"),
        labels: vec![LangText { lang: "de".to_string(), text: "Gerät".to_string() }],
        descriptions: Vec::new(),
        relations: vec![relation(Property::Manufacturer, &["Q1"])],
    });
    handle(&entity, &sources, &mut collector);
    assert_eq!(collector.products.len(), 0);
    assert_eq!(collector.organisations.len(), 0);
}

/// Merging two accumulators concatenates their contents; either order yields
/// the same set of records.
#[test]
fn merge_is_order_independent() {
    let sources = empty_sources();
    let e1 = Entity::Item(item("Q1", "One", vec![relation(Property::Manufacturer, &["Q5"])]));
    let e2 = Entity::Item(item("Q2", "Two", vec![relation(Property::Manufacturer, &["Q6"])]));

    let mut a1 = CondensingCollector::new();
    let mut b1 = CondensingCollector::new();
    handle(&e1, &sources, &mut a1);
    handle(&e2, &sources, &mut b1);
    a1.merge(b1);

    let mut a2 = CondensingCollector::new();
    let mut b2 = CondensingCollector::new();
    handle(&e1, &sources, &mut a2);
    handle(&e2, &sources, &mut b2);
    b2.merge(a2);

    assert_eq!(a1.products.len(), 2);
    assert_eq!(b2.products.len(), 2);
    let mut ids1: Vec<String> = a1.products.iter().map(|p| p.id.value.clone()).collect();
    let mut ids2: Vec<String> = b2.products.iter().map(|p| p.id.value.clone()).collect();
    ids1.sort();
    ids2.sort();
    assert_eq!(ids1, ids2);
}

/// Feeding the organisation entity before or after its product produces an
/// identical final product record.
#[test]
fn propagation_is_order_independent() {
    let records = vec![BCorpRecord {
        company_name: "Example Corp".to_string(),
        website: "https://example.com".to_string(),
    }];
    let sources = sources_with_bcorp(&records);
    let org_entity = Entity::Item(item(
        "Q1",
        "Example Corp",
        vec![relation(Property::OfficialWebsite, &["https://example.com"])],
    ));
    let product_entity =
        Entity::Item(item("Q2", "Example Phone", vec![relation(Property::Manufacturer, &["Q1"])]));

    let mut forward = CondensingCollector::new();
    handle(&org_entity, &sources, &mut forward);
    handle(&product_entity, &sources, &mut forward);
    let (products_fwd, _) = CondensingProcessor::finalize(&forward);

    let mut backward = CondensingCollector::new();
    handle(&product_entity, &sources, &mut backward);
    handle(&org_entity, &sources, &mut backward);
    let (products_bwd, _) = CondensingProcessor::finalize(&backward);

    assert_eq!(products_fwd.len(), 1);
    assert_eq!(products_bwd.len(), 1);
    assert_eq!(products_fwd[0].certifications, products_bwd[0].certifications);
    assert!(products_fwd[0].certifications.bcorp);
}

/// A missing optional dataset yields an index where every lookup misses.
#[test]
fn missing_datasets_yield_empty_indices() {
    let bcorp = BCorpAdvisor::load(None);
    assert!(!bcorp.has_domains(&vec!["example.com".to_string()]));
    assert!(bcorp.get_cert_from_domains(&vec!["example.com".to_string()]).is_none());

    let tco = TcoAdvisor::load(None);
    assert!(!tco.has_company(&str_id("Q1")));
    assert!(tco.get_company_cert(&str_id("Q1")).is_none());

    let fti = FashionTransparencyIndexAdvisor::load(None).unwrap();
    assert!(!fti.has_company(&str_id("Q1")));
    assert!(fti.get_cert(&str_id("Q1")).is_none());

    let cache = WikidataAdvisor::load(None);
    assert!(!cache.has_manufacturer_id(&str_id("Q1")));
    assert!(!cache.has_class_id(&str_id("Q1")));

    let matches = SustainityMatchesAdvisor::load(None).unwrap();
    assert!(matches.name_to_wiki("anyone").is_none());
}

fn fti_entry(id: Option<&str>, name: &str, score: u32) -> FtiEntry {
    FtiEntry { wikidata_id: id.map(str_id), name: name.to_string(), score }
}

/// Duplicate identifiers in the score dataset are reported as one validation
/// error listing every duplicated identifier once.
#[test]
fn duplicate_score_ids_are_reported() {
    let source = vec![
        fti_entry(Some("Q5"), "Alpha", 10),
        fti_entry(Some("Q6"), "Beta", 20),
        fti_entry(Some("Q5"), "Alpha again", 30),
        fti_entry(None, "Anonymous", 40),
        fti_entry(Some("Q5"), "Alpha thrice", 50),
        fti_entry(Some("Q7"), "Gamma", 60),
        fti_entry(Some("Q7"), "Gamma again", 70),
    ];
    let result = FashionTransparencyIndexAdvisor::new(&source);
    match result {
        Err(SourcesCheckError::RepeatedIds(ids)) => {
            let texts: Vec<&str> = ids.iter().map(|id| id.value.as_str()).collect();
            assert_eq!(texts, vec!["Q5", "Q7"]);
        },
        Ok(_) => panic!("duplicates were not detected"),
    }
}

/// A score dataset without duplicates builds, keeps every identified record,
/// and serves scores by identifier.
#[test]
fn score_index_serves_scores() {
    let source = vec![
        fti_entry(Some("Q5"), "Alpha", 10),
        fti_entry(None, "Anonymous", 40),
        fti_entry(Some("Q6"), "Beta", 20),
    ];
    let fti = FashionTransparencyIndexAdvisor::new(&source).unwrap();
    assert!(fti.has_company(&str_id("Q5")));
    assert!(!fti.has_company(&str_id("Q9")));
    assert_eq!(fti.get_cert(&str_id("Q6")).unwrap().score, 20);

    let presentation = fti.prepare_presentation();
    assert_eq!(presentation.id, condenser::knowledge::LibraryTopic::CertFti);
    let condenser::knowledge::PresentationData::Scored(rows) = presentation.data;
    assert_eq!(rows.len(), 2);
    assert_eq!(rows[0].id.value, "Q5");
    assert_eq!(rows[0].name, "Alpha");
    assert_eq!(rows[0].score, 10);
    assert_eq!(rows[1].id.value, "Q6");
}

/// The score of an organisation flows onto its products; several scores
/// combine by taking the larger one.
#[test]
fn score_propagation_takes_maximum() {
    let source =
        vec![fti_entry(Some("Q1"), "Low", 10), fti_entry(Some("Q2"), "High", 90)];
    let sources = CondensingSources::load(None, None, None, Some(&source)).unwrap();

    let low = Entity::Item(item(
        "Q1",
        "Low Org",
        vec![relation(Property::OfficialWebsite, &["https://low.example"])],
    ));
    let high = Entity::Item(item(
        "Q2",
        "High Org",
        vec![relation(Property::OfficialWebsite, &["https://high.example"])],
    ));
    let product =
        Entity::Item(item("Q3", "Made By Both", vec![relation(Property::Manufacturer, &["Q1", "Q2"])]));

    let mut collector = CondensingCollector::new();
    handle(&low, &sources, &mut collector);
    handle(&high, &sources, &mut collector);
    handle(&product, &sources, &mut collector);
    let (products, _) = CondensingProcessor::finalize(&collector);
    assert_eq!(products.len(), 1);
    assert_eq!(products[0].certifications.fti, Some(90));
}

/// Certification merge: booleans or together, the larger score wins, and a
/// present score always wins over an absent one.
#[test]
fn certifications_merge_rules() {
    let mut a = Certifications { bcorp: true, tco: false, fti: Some(10) };
    a.merge(Certifications { bcorp: false, tco: true, fti: Some(30) });
    assert_eq!(a, Certifications { bcorp: true, tco: true, fti: Some(30) });

    let mut b = Certifications { bcorp: false, tco: false, fti: None };
    b.merge(Certifications { bcorp: false, tco: false, fti: Some(5) });
    assert_eq!(b.fti, Some(5));

    let mut c = Certifications { bcorp: false, tco: false, fti: Some(7) };
    c.merge(Certifications { bcorp: false, tco: false, fti: None });
    assert_eq!(c.fti, Some(7));
}

/// The identifier-keyed registry serves certifications with the brand name.
#[test]
fn tco_advisor_serves_certs() {
    let entries = vec![TcoEntry {
        wikidata_id: str_id("Q12"),
        company_name: "Fair Make".to_string(),
    }];
    let tco = TcoAdvisor::new(&entries);
    assert!(tco.has_company(&str_id("Q12")));
    assert!(!tco.has_company(&str_id("Q13")));
    assert_eq!(tco.get_company_cert(&str_id("Q12")).unwrap().brand_name, "Fair Make");
}

/// The domain registry certification carries the guessed profile link id.
#[test]
fn bcorp_cert_carries_link_id() {
    let records = vec![BCorpRecord {
        company_name: "ACME Inc.".to_string(),
        website: "https://www.acme.example/home".to_string(),
    }];
    let bcorp = BCorpAdvisor::new(&records);
    let cert = bcorp.get_cert_from_domains(&vec!["acme.example".to_string()]).unwrap();
    assert_eq!(cert.id, "acme-inc");
    assert!(bcorp.get_cert_from_domains(&vec!["other.example".to_string()]).is_none());
}

/// The name-matching index parses identifiers into numeric form.
#[test]
fn matches_advisor_parses_ids() {
    let map = vec![
        NameMatching { name: "Acme".to_string(), matched: Some(Match { wiki_id: str_id("Q42") }) },
        NameMatching { name: "Unmatched".to_string(), matched: None },
    ];
    let advisor = SustainityMatchesAdvisor::new(&map).unwrap();
    assert_eq!(advisor.name_to_wiki("Acme").unwrap().value, 42);
    assert!(advisor.name_to_wiki("Unmatched").is_none());
    assert!(advisor.name_to_wiki("Unknown").is_none());

    let bad = vec![NameMatching {
        name: "Broken".to_string(),
        matched: Some(Match { wiki_id: str_id("X42") }),
    }];
    match SustainityMatchesAdvisor::new(&bad) {
        Err(e) => assert_eq!(e.text, "X42"),
        Ok(_) => panic!("a bad identifier was accepted"),
    }
}

/// The product-label index maps a valid VAT number to the match of the
/// company's name, and rejects a dataset with an empty VAT number.
#[test]
fn eu_ecolabel_advisor_maps_vats() {
    let records = vec![
        EuEcolabelRecord {
            product_or_service_name: "Acme".to_string(),
            vat_number: Some("IT123".to_string()),
        },
        EuEcolabelRecord { product_or_service_name: "NoVat".to_string(), vat_number: None },
        EuEcolabelRecord {
            product_or_service_name: "Unknown".to_string(),
            vat_number: Some("DE9".to_string()),
        },
    ];
    let map = vec![NameMatching {
        name: "Acme".to_string(),
        matched: Some(Match { wiki_id: str_id("Q42") }),
    }];
    let advisor = EuEcolabelAdvisor::new(&records, &map).unwrap();
    let vat = VatId { value: "IT123".to_string() };
    assert_eq!(advisor.vat_to_wiki(&vat).unwrap().wiki_id.value, "Q42");
    let missing = VatId { value: "DE9".to_string() };
    assert!(advisor.vat_to_wiki(&missing).is_none());

    let bad = vec![EuEcolabelRecord {
        product_or_service_name: "Empty".to_string(),
        vat_number: Some(String::new()),
    }];
    match EuEcolabelAdvisor::new(&bad, &map) {
        Err(e) => assert_eq!(e.text, ""),
        Ok(_) => panic!("an empty VAT number was accepted"),
    }

    let empty = EuEcolabelAdvisor::load(None, Some(&map)).unwrap();
    assert!(empty.vat_to_wiki(&vat).is_none());
}

/// The membership cache advisor answers membership for both identifier kinds.
#[test]
fn cache_advisor_membership() {
    let cache = Wikidata {
        manufacturer_ids: vec![str_id("Q7")],
        classes: vec![str_id("Q19723444")],
    };
    let advisor = WikidataAdvisor::new(&cache);
    assert!(advisor.has_manufacturer_id(&str_id("Q7")));
    assert!(!advisor.has_manufacturer_id(&str_id("Q8")));
    assert!(advisor.has_class_id(&str_id("Q19723444")));
    assert!(!advisor.has_class_id(&str_id("Q7")));

    let empty = WikidataAdvisor::new_empty();
    assert!(!empty.has_manufacturer_id(&str_id("Q7")));
}

/// A later dataset row overwrites an earlier one with the same key, in every
/// registry index.
#[test]
fn later_registry_rows_overwrite_earlier_ones() {
    // Domain registry: two companies share a domain; the later name wins.
    let records = vec![
        BCorpRecord {
            company_name: "Old Name".to_string(),
            website: "https://dup.example".to_string(),
        },
        BCorpRecord {
            company_name: "New Name".to_string(),
            website: "https://www.dup.example/x".to_string(),
        },
    ];
    let bcorp = BCorpAdvisor::new(&records);
    let cert = bcorp.get_cert_from_domains(&vec!["dup.example".to_string()]).unwrap();
    assert_eq!(cert.id, "new-name");

    // Identifier registry: the later brand name wins.
    let entries = vec![
        TcoEntry { wikidata_id: str_id("Q1"), company_name: "First Brand".to_string() },
        TcoEntry { wikidata_id: str_id("Q1"), company_name: "Second Brand".to_string() },
    ];
    let tco = TcoAdvisor::new(&entries);
    assert_eq!(tco.get_company_cert(&str_id("Q1")).unwrap().brand_name, "Second Brand");

    // Name matching: the later match wins.
    let map = vec![
        NameMatching { name: "Acme".to_string(), matched: Some(Match { wiki_id: str_id("Q1") }) },
        NameMatching { name: "Acme".to_string(), matched: Some(Match { wiki_id: str_id("Q2") }) },
    ];
    let advisor = SustainityMatchesAdvisor::new(&map).unwrap();
    assert_eq!(advisor.name_to_wiki("Acme").unwrap().value, 2);
}
