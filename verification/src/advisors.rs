//! Advisor indices: immutable lookup structures built once from the auxiliary
//! certification datasets. A dataset that could not be read is handed in as
//! `None` and yields an index that contains nothing; the run never aborts for
//! a missing optional dataset.

use vstd::prelude::*;

use crate::cache;
use crate::errors::SourcesCheckError;
use crate::ids::{digits_val, is_wiki_str_id, ParseIdError, VatId, WikiId, WikiStrId};
use crate::knowledge::{BCorpCert, FtiCert, TcoCert};
use crate::text::{domain_of, extract_domain_from_url, link_id_chars, lower_of};

verus! {

/// One record of the domain-keyed registry dataset: a company and its website.
#[derive(Clone, Debug)]
pub struct BCorpRecord {
    /// Name of the company.
    pub company_name: String,
    /// Website of the company.
    pub website: String,
}

/// One record of the identifier-keyed registry dataset.
#[derive(Clone, Debug)]
pub struct TcoEntry {
    /// Identifier of the certified company.
    pub wikidata_id: WikiStrId,
    /// Name of the certified company.
    pub company_name: String,
}

/// One record of the transparency-score dataset.
#[derive(Clone, Debug)]
pub struct FtiEntry {
    /// Identifier of the scored company, when the dataset knows it.
    pub wikidata_id: Option<WikiStrId>,
    /// Name of the scored company.
    pub name: String,
    /// The score, in percent.
    pub score: u32,
}

/// A match from a company, brand or product name to an entity identifier.
#[derive(Clone, Debug)]
pub struct Match {
    /// The matched identifier, in textual form.
    pub wiki_id: WikiStrId,
}

/// One record of the name-matching dataset.
#[derive(Clone, Debug)]
pub struct NameMatching {
    /// The name that was matched.
    pub name: String,
    /// The match, if one was found.
    pub matched: Option<Match>,
}

/// The value stored under `key` in an association list keyed by text: the
/// value of the last entry with that key — a later entry overwrites an
/// earlier one — or nothing.
pub open spec fn text_lookup(entries: Seq<(String, String)>, key: Seq<char>) -> Option<Seq<char>>
    decreases entries.len(),
{
    if entries.len() == 0 {
        None
    } else if entries.last().0@ == key {
        Some(entries.last().1@)
    } else {
        text_lookup(entries.drop_last(), key)
    }
}

/// The name stored under `key` in an association list keyed by identifiers:
/// the name of the last entry with that key — a later entry overwrites an
/// earlier one — or nothing.
pub open spec fn id_lookup(entries: Seq<(WikiStrId, String)>, key: Seq<char>) -> Option<Seq<char>>
    decreases entries.len(),
{
    if entries.len() == 0 {
        None
    } else if entries.last().0@ == key {
        Some(entries.last().1@)
    } else {
        id_lookup(entries.drop_last(), key)
    }
}

/// Whether at least one of `domains` is listed in the domain-keyed registry.
pub open spec fn spec_has_any_domain(entries: Seq<(String, String)>, domains: Seq<Seq<char>>) -> bool {
    exists|i: int| 0 <= i < domains.len() && text_lookup(entries, #[trigger] domains[i]) is Some
}

/// The score stored for an organisation in the score index, if any.
pub open spec fn spec_fti_score(entries: Seq<(WikiStrId, FtiEntry)>, id: Seq<char>) -> Option<u32> {
    match fti_lookup(entries, id) {
        Some(e) => Some(e.score),
        None => None,
    }
}

/// Holds the information read from the domain-keyed registry data.
pub struct BCorpAdvisor {
    /// Map from registry company domains to their names.
    domain_to_name: Vec<(String, String)>,
}

/// The name that the domain-keyed registry certification yields for the first
/// of `domains` that the registry lists, or nothing when it lists none.
pub open spec fn spec_cert_name_from_domains(
    entries: Seq<(String, String)>,
    domains: Seq<Seq<char>>,
) -> Option<Seq<char>>
    decreases domains.len(),
{
    if domains.len() == 0 {
        None
    } else {
        match text_lookup(entries, domains[0]) {
            Some(name) => Some(name),
            None => spec_cert_name_from_domains(entries, domains.drop_first()),
        }
    }
}

impl BCorpAdvisor {
    /// The domain-to-name entries of this index.
    pub closed spec fn spec_entries(&self) -> Seq<(String, String)> {
        self.domain_to_name@
    }

    /// Constructs a new `BCorpAdvisor`: one entry per record, keyed by the
    /// domain of the record's website.
    pub fn new(records: &Vec<BCorpRecord>) -> (r: Self)
        ensures
            r.spec_entries().len() == records@.len(),
            forall|i: int|
                0 <= i < records@.len() ==> (#[trigger] r.spec_entries()[i]).0@ == domain_of(
                    records@[i].website@,
                ) && r.spec_entries()[i].1@ == records@[i].company_name@,
    {
        let n = records.len();
        let mut domain_to_name: Vec<(String, String)> = Vec::new();
        for i in 0..n
            invariant
                n == records@.len(),
                domain_to_name@.len() == i,
                forall|j: int|
                    0 <= j < i ==> (#[trigger] domain_to_name@[j]).0@ == domain_of(
                        records@[j].website@,
                    ) && domain_to_name@[j].1@ == records@[j].company_name@,
        {
            let domain = extract_domain_from_url(records[i].website.as_str());
            domain_to_name.push((domain, records[i].company_name.clone()));
        }
        BCorpAdvisor { domain_to_name }
    }

    /// Builds the index from the registry dataset, or an index that contains
    /// nothing when the dataset is unavailable.
    pub fn load(records: Option<&Vec<BCorpRecord>>) -> (r: Self)
        ensures
            match records {
                Some(rs) => r.spec_entries().len() == rs@.len() && (forall|i: int|
                    0 <= i < rs@.len() ==> (#[trigger] r.spec_entries()[i]).0@ == domain_of(
                        rs@[i].website@,
                    ) && r.spec_entries()[i].1@ == rs@[i].company_name@),
                None => r.spec_entries().len() == 0 && (forall|d: Seq<char>|
                    text_lookup(r.spec_entries(), d) is None),
            },
    {
        match records {
            Some(rs) => BCorpAdvisor::new(rs),
            None => {
                let empty: Vec<BCorpRecord> = Vec::new();
                BCorpAdvisor::new(&empty)
            },
        }
    }

    /// The name of the registry company with the given domain, if any.
    fn get_name<'a>(&'a self, domain: &String) -> (r: Option<&'a String>)
        ensures
            match r {
                Some(name) => text_lookup(self.spec_entries(), domain@) == Some(name@),
                None => text_lookup(self.spec_entries(), domain@) is None,
            },
    {
        let mut i = self.domain_to_name.len();
        proof {
            assert(self.domain_to_name@.take(i as int) =~= self.domain_to_name@);
        }
        while i > 0
            invariant
                i <= self.domain_to_name@.len(),
                text_lookup(self.domain_to_name@.take(i as int), domain@) == text_lookup(
                    self.domain_to_name@,
                    domain@,
                ),
            decreases i,
        {
            proof {
                assert(self.domain_to_name@.take(i as int).last() == self.domain_to_name@[i as int
                    - 1]);
                assert(self.domain_to_name@.take(i as int).drop_last() =~= self.domain_to_name@.take(
                    i as int - 1,
                ));
            }
            if self.domain_to_name[i - 1].0 == *domain {
                return Some(&self.domain_to_name[i - 1].1);
            }
            i = i - 1;
        }
        proof {
            assert(self.domain_to_name@.take(0) =~= Seq::<(String, String)>::empty());
        }
        None
    }

    /// Checks if at least one of the passed domains corresponds to a company
    /// that the registry lists.
    pub fn has_domains(&self, domains: &Vec<String>) -> (r: bool)
        ensures
            r == spec_has_any_domain(self.spec_entries(), domains.deep_view()),
    {
        let n = domains.len();
        for i in 0..n
            invariant
                n == domains@.len(),
                forall|j: int|
                    0 <= j < i ==> text_lookup(
                        self.spec_entries(),
                        #[trigger] domains.deep_view()[j],
                    ) is None,
        {
            if self.get_name(&domains[i]).is_some() {
                proof {
                    assert(domains.deep_view()[i as int] == domains@[i as int]@);
                }
                return true;
            }
        }
        false
    }

    /// Returns company certification data if a company with one of the given
    /// domains was certified: the first listed domain wins.
    pub fn get_cert_from_domains(&self, domains: &Vec<String>) -> (r: Option<BCorpCert>)
        ensures
            match r {
                Some(cert) => {
                    &&& spec_cert_name_from_domains(self.spec_entries(), domains.deep_view()) matches Some(name)
                    &&& cert.id@ == link_id_chars(lower_of(name))
                },
                None => spec_cert_name_from_domains(
                    self.spec_entries(),
                    domains.deep_view(),
                ) is None,
            },
    {
        let n = domains.len();
        proof {
            assert(domains.deep_view().skip(0) =~= domains.deep_view());
        }
        for i in 0..n
            invariant
                n == domains@.len(),
                spec_cert_name_from_domains(
                    self.spec_entries(),
                    domains.deep_view().skip(i as int),
                ) == spec_cert_name_from_domains(self.spec_entries(), domains.deep_view()),
        {
            proof {
                assert(domains.deep_view().skip(i as int)[0] == domains.deep_view()[i as int]);
                assert(domains.deep_view().skip(i as int).drop_first() =~= domains.deep_view().skip(
                    i as int + 1,
                ));
            }
            if let Some(name) = self.get_name(&domains[i]) {
                return Some(
                    BCorpCert { id: BCorpAdvisor::guess_link_id_from_company_name(name.as_str()) },
                );
            }
        }
        None
    }

    /// The identifiers of companies used in links to company profiles on the
    /// registry's web page are not provided in the registry data. This makes
    /// a guess of how that identifier looks basing on the company name: the
    /// name is lowercased, dots are removed and spaces become dashes.
    pub fn guess_link_id_from_company_name(name: &str) -> (r: String)
        ensures
            r@ == link_id_chars(lower_of(name@)),
    {
        let lowered = crate::text::lowercase(name);
        crate::text::link_id_from_lowered(lowered.as_str())
    }
}

/// Holds the information read from the identifier-keyed registry data.
pub struct TcoAdvisor {
    /// Map from identifiers of companies certified by the registry to their
    /// names.
    companies: Vec<(WikiStrId, String)>,
}

impl TcoAdvisor {
    /// The identifier-to-name entries of this index.
    pub closed spec fn spec_entries(&self) -> Seq<(WikiStrId, String)> {
        self.companies@
    }

    /// Constructs a new `TcoAdvisor`: one entry per dataset record.
    pub fn new(entries: &Vec<TcoEntry>) -> (r: Self)
        ensures
            r.spec_entries().len() == entries@.len(),
            forall|i: int|
                0 <= i < entries@.len() ==> (#[trigger] r.spec_entries()[i]).0@
                    == entries@[i].wikidata_id@ && r.spec_entries()[i].1@
                    == entries@[i].company_name@,
    {
        let n = entries.len();
        let mut companies: Vec<(WikiStrId, String)> = Vec::new();
        for i in 0..n
            invariant
                n == entries@.len(),
                companies@.len() == i,
                forall|j: int|
                    0 <= j < i ==> (#[trigger] companies@[j]).0@ == entries@[j].wikidata_id@
                        && companies@[j].1@ == entries@[j].company_name@,
        {
            companies.push(
                (
                    WikiStrId { value: entries[i].wikidata_id.value.clone() },
                    entries[i].company_name.clone(),
                ),
            );
        }
        TcoAdvisor { companies }
    }

    /// Builds the index from the registry dataset, or an index that contains
    /// nothing when the dataset is unavailable.
    pub fn load(entries: Option<&Vec<TcoEntry>>) -> (r: Self)
        ensures
            match entries {
                Some(es) => r.spec_entries().len() == es@.len() && (forall|i: int|
                    0 <= i < es@.len() ==> (#[trigger] r.spec_entries()[i]).0@ == es@[i].wikidata_id@
                        && r.spec_entries()[i].1@ == es@[i].company_name@),
                None => r.spec_entries().len() == 0 && (forall|id: Seq<char>|
                    id_lookup(r.spec_entries(), id) is None),
            },
    {
        match entries {
            Some(es) => TcoAdvisor::new(es),
            None => {
                let empty: Vec<TcoEntry> = Vec::new();
                TcoAdvisor::new(&empty)
            },
        }
    }

    /// The name stored for the given company, if any.
    fn get_name<'a>(&'a self, company_id: &WikiStrId) -> (r: Option<&'a String>)
        ensures
            match r {
                Some(name) => id_lookup(self.spec_entries(), company_id@) == Some(name@),
                None => id_lookup(self.spec_entries(), company_id@) is None,
            },
    {
        let mut i = self.companies.len();
        proof {
            assert(self.companies@.take(i as int) =~= self.companies@);
        }
        while i > 0
            invariant
                i <= self.companies@.len(),
                id_lookup(self.companies@.take(i as int), company_id@) == id_lookup(
                    self.companies@,
                    company_id@,
                ),
            decreases i,
        {
            proof {
                assert(self.companies@.take(i as int).last() == self.companies@[i as int - 1]);
                assert(self.companies@.take(i as int).drop_last() =~= self.companies@.take(
                    i as int - 1,
                ));
            }
            if self.companies[i - 1].0.value == company_id.value {
                return Some(&self.companies[i - 1].1);
            }
            i = i - 1;
        }
        proof {
            assert(self.companies@.take(0) =~= Seq::<(WikiStrId, String)>::empty());
        }
        None
    }

    /// Checks if the company was certified.
    pub fn has_company(&self, company_id: &WikiStrId) -> (r: bool)
        ensures
            r == (id_lookup(self.spec_entries(), company_id@) is Some),
    {
        self.get_name(company_id).is_some()
    }

    /// Returns company certification data if it was certified.
    pub fn get_company_cert(&self, company_id: &WikiStrId) -> (r: Option<TcoCert>)
        ensures
            match r {
                Some(cert) => id_lookup(self.spec_entries(), company_id@) == Some(
                    cert.brand_name@,
                ),
                None => id_lookup(self.spec_entries(), company_id@) is None,
            },
    {
        match self.get_name(company_id) {
            Some(name) => Some(TcoCert { brand_name: name.clone() }),
            None => None,
        }
    }
}

/// Holds the membership cache built by a prior traversal of the dump.
#[derive(Debug)]
pub struct WikidataAdvisor {
    /// Identifiers of known manufacturers.
    manufacturer_ids: Vec<WikiStrId>,
    /// Identifiers of known item classes.
    class_ids: Vec<WikiStrId>,
}

/// Whether `ids` holds the identifier `id`.
pub open spec fn spec_id_in(ids: Seq<Seq<char>>, id: Seq<char>) -> bool {
    ids.contains(id)
}

impl WikidataAdvisor {
    /// The identifiers of known manufacturers.
    pub closed spec fn spec_manufacturer_ids(&self) -> Seq<Seq<char>> {
        self.manufacturer_ids.deep_view()
    }

    /// The identifiers of known item classes.
    pub closed spec fn spec_class_ids(&self) -> Seq<Seq<char>> {
        self.class_ids.deep_view()
    }

    /// Constructs a new `WikidataAdvisor` with loaded data.
    pub fn new(cache: &cache::Wikidata) -> (r: Self)
        ensures
            r.spec_manufacturer_ids() == cache.manufacturer_ids.deep_view(),
            r.spec_class_ids() == cache.classes.deep_view(),
    {
        let manufacturer_ids = clone_id_vec(&cache.manufacturer_ids);
        let class_ids = clone_id_vec(&cache.classes);
        proof {
            assert forall|i: int| 0 <= i < manufacturer_ids.deep_view().len() implies
                manufacturer_ids.deep_view()[i] == cache.manufacturer_ids.deep_view()[i] by {
                assert(manufacturer_ids@[i]@ == cache.manufacturer_ids@[i]@);
            }
            assert(manufacturer_ids.deep_view() =~= cache.manufacturer_ids.deep_view());
            assert forall|i: int| 0 <= i < class_ids.deep_view().len() implies class_ids.deep_view()[i]
                == cache.classes.deep_view()[i] by {
                assert(class_ids@[i]@ == cache.classes@[i]@);
            }
            assert(class_ids.deep_view() =~= cache.classes.deep_view());
        }
        WikidataAdvisor { manufacturer_ids, class_ids }
    }

    /// Constructs a new `WikidataAdvisor` with no data.
    pub fn new_empty() -> (r: Self)
        ensures
            r.spec_manufacturer_ids().len() == 0,
            r.spec_class_ids().len() == 0,
    {
        WikidataAdvisor { manufacturer_ids: Vec::new(), class_ids: Vec::new() }
    }

    /// Builds the advisor from the cache, or an advisor that knows nothing
    /// when the cache file is unavailable.
    pub fn load(cache: Option<&cache::Wikidata>) -> (r: Self)
        ensures
            match cache {
                Some(c) => r.spec_manufacturer_ids() == c.manufacturer_ids.deep_view()
                    && r.spec_class_ids() == c.classes.deep_view(),
                None => r.spec_manufacturer_ids().len() == 0 && r.spec_class_ids().len() == 0 && (
                forall|id: Seq<char>|
                    !spec_id_in(r.spec_manufacturer_ids(), id) && !spec_id_in(
                        r.spec_class_ids(),
                        id,
                    )),
            },
    {
        match cache {
            Some(c) => WikidataAdvisor::new(c),
            None => WikidataAdvisor::new_empty(),
        }
    }

    /// Checks if the passed identifier belongs to a known manufacturer.
    pub fn has_manufacturer_id(&self, id: &WikiStrId) -> (r: bool)
        ensures
            r == spec_id_in(self.spec_manufacturer_ids(), id@),
    {
        contains_id(&self.manufacturer_ids, id)
    }

    /// Checks if the passed identifier belongs to a known item class.
    pub fn has_class_id(&self, id: &WikiStrId) -> (r: bool)
        ensures
            r == spec_id_in(self.spec_class_ids(), id@),
    {
        contains_id(&self.class_ids, id)
    }
}

/// Copies a vector of identifiers.
pub(crate) fn clone_id_vec(ids: &Vec<WikiStrId>) -> (r: Vec<WikiStrId>)
    ensures
        r@.len() == ids@.len(),
        forall|i: int| 0 <= i < ids@.len() ==> #[trigger] r@[i]@ == ids@[i]@,
{
    let n = ids.len();
    let mut r: Vec<WikiStrId> = Vec::new();
    for i in 0..n
        invariant
            n == ids@.len(),
            r@.len() == i,
            forall|j: int| 0 <= j < i ==> #[trigger] r@[j]@ == ids@[j]@,
    {
        r.push(WikiStrId { value: ids[i].value.clone() });
    }
    r
}

/// Whether the record carries the identifier `id`.
pub open spec fn fti_has_id(e: FtiEntry, id: Seq<char>) -> bool {
    match e.wikidata_id {
        Some(k) => k@ == id,
        None => false,
    }
}

/// Whether two of the first `k` records of the dataset carry the identifier
/// `id`.
pub open spec fn spec_duplicated_upto(source: Seq<FtiEntry>, k: int, id: Seq<char>) -> bool {
    exists|p: int, q: int|
        0 <= p < q < k && fti_has_id(#[trigger] source[p], id) && fti_has_id(
            #[trigger] source[q],
            id,
        )
}

/// Whether two records of the dataset carry the identifier `id`.
pub open spec fn spec_duplicated(source: Seq<FtiEntry>, id: Seq<char>) -> bool {
    spec_duplicated_upto(source, source.len() as int, id)
}

/// The entries of the score index: one per record that carries an identifier,
/// in dataset order.
pub open spec fn fti_pairs(source: Seq<FtiEntry>) -> Seq<(WikiStrId, FtiEntry)>
    decreases source.len(),
{
    if source.len() == 0 {
        Seq::empty()
    } else {
        let rest = fti_pairs(source.drop_last());
        match source.last().wikidata_id {
            Some(id) => rest.push((id, source.last())),
            None => rest,
        }
    }
}

/// The record stored under `key` in the score index: the first entry with
/// that key, or nothing.
pub open spec fn fti_lookup(entries: Seq<(WikiStrId, FtiEntry)>, key: Seq<char>) -> Option<FtiEntry>
    decreases entries.len(),
{
    if entries.len() == 0 {
        None
    } else if entries[0].0@ == key {
        Some(entries[0].1)
    } else {
        fti_lookup(entries.drop_first(), key)
    }
}

/// A record of the first `i + 1` dataset records is duplicated exactly when
/// one of the first `i` is, or the record at `i` repeats an earlier one.
proof fn lemma_duplicated_step(source: Seq<FtiEntry>, i: int)
    requires
        0 <= i < source.len(),
    ensures
        forall|id: Seq<char>|
            #[trigger] spec_duplicated_upto(source, i + 1, id) <==> (spec_duplicated_upto(
                source,
                i,
                id,
            ) || (fti_has_id(source[i], id) && exists|j: int|
                0 <= j < i && fti_has_id(#[trigger] source[j], id))),
{
    assert forall|id: Seq<char>| #[trigger]
        spec_duplicated_upto(source, i + 1, id) implies (spec_duplicated_upto(source, i, id) || (
    fti_has_id(source[i], id) && exists|j: int|
        0 <= j < i && fti_has_id(#[trigger] source[j], id))) by {
        let (p, q): (int, int) = choose|p: int, q: int|
            0 <= p < q < i + 1 && fti_has_id(#[trigger] source[p], id) && fti_has_id(
                #[trigger] source[q],
                id,
            );
        if q < i {
            assert(spec_duplicated_upto(source, i, id));
        } else {
            assert(fti_has_id(source[p], id) && p < i);
        }
    }
    assert forall|id: Seq<char>|
        (spec_duplicated_upto(source, i, id) || (fti_has_id(source[i], id) && exists|j: int|
            0 <= j < i && fti_has_id(#[trigger] source[j], id))) implies #[trigger]
        spec_duplicated_upto(source, i + 1, id) by {
        if spec_duplicated_upto(source, i, id) {
            let (p, q): (int, int) = choose|p: int, q: int|
                0 <= p < q < i && fti_has_id(#[trigger] source[p], id) && fti_has_id(
                    #[trigger] source[q],
                    id,
                );
            assert(0 <= p < q < i + 1);
        } else {
            let j = choose|j: int| 0 <= j < i && fti_has_id(#[trigger] source[j], id);
            assert(0 <= j < i + 1 && fti_has_id(source[j], id) && fti_has_id(source[i], id));
        }
    }
}

/// Whether one of the first `k` records carries the identifier `id`.
fn occurs_before(source: &Vec<FtiEntry>, k: usize, id: &WikiStrId) -> (r: bool)
    requires
        k <= source@.len(),
    ensures
        r == exists|j: int| 0 <= j < k && fti_has_id(#[trigger] source@[j], id@),
{
    for j in 0..k
        invariant
            k <= source@.len(),
            forall|j2: int| 0 <= j2 < j ==> !fti_has_id(#[trigger] source@[j2], id@),
    {
        let hit = match &source[j].wikidata_id {
            Some(k2) => k2.value == id.value,
            None => false,
        };
        if hit {
            proof {
                assert(fti_has_id(source@[j as int], id@));
            }
            return true;
        }
    }
    false
}

/// Copies a record of the score dataset.
fn clone_fti_entry(e: &FtiEntry) -> (r: FtiEntry)
    ensures
        r == *e,
{
    FtiEntry {
        wikidata_id: match &e.wikidata_id {
            Some(id) => Some(WikiStrId { value: id.value.clone() }),
            None => None,
        },
        name: e.name.clone(),
        score: e.score,
    }
}

/// Holds the information read from the transparency-score data.
pub struct FashionTransparencyIndexAdvisor {
    /// Map from organisation identifiers to their score records.
    entries: Vec<(WikiStrId, FtiEntry)>,
}

impl FashionTransparencyIndexAdvisor {
    /// The identifier-to-record entries of this index.
    pub closed spec fn spec_entries(&self) -> Seq<(WikiStrId, FtiEntry)> {
        self.entries@
    }

    /// Constructs a new `FashionTransparencyIndexAdvisor`, validating that no
    /// identifier repeats. When identifiers repeat, the error lists every
    /// duplicated identifier exactly once, in order of first repetition.
    pub fn new(source: &Vec<FtiEntry>) -> (r: Result<Self, SourcesCheckError>)
        ensures
            match r {
                Ok(adv) => (forall|id: Seq<char>| !spec_duplicated(source@, id))
                    && adv.spec_entries() == fti_pairs(source@),
                Err(e) => match e {
                    SourcesCheckError::RepeatedIds(v) => {
                        &&& exists|id: Seq<char>| spec_duplicated(source@, id)
                        &&& forall|id: Seq<char>|
                            #[trigger] v.deep_view().contains(id) <==> spec_duplicated(source@, id)
                        &&& forall|p: int, q: int|
                            0 <= p < q < v@.len() ==> (#[trigger] v@[p])@ != (#[trigger] v@[q])@
                    },
                },
            },
    {
        let n = source.len();
        let mut repeated: Vec<WikiStrId> = Vec::new();
        for i in 0..n
            invariant
                n == source@.len(),
                forall|id: Seq<char>|
                    #[trigger] repeated.deep_view().contains(id) <==> spec_duplicated_upto(
                        source@,
                        i as int,
                        id,
                    ),
                forall|p: int, q: int|
                    0 <= p < q < repeated@.len() ==> (#[trigger] repeated@[p])@ != (
                    #[trigger] repeated@[q])@,
        {
            proof {
                lemma_duplicated_step(source@, i as int);
            }
            let dup_here = match &source[i].wikidata_id {
                Some(id) => occurs_before(source, i, id),
                None => false,
            };
            if dup_here {
                let id = match &source[i].wikidata_id {
                    Some(id) => WikiStrId { value: id.value.clone() },
                    None => WikiStrId { value: String::new() },
                };
                if !contains_id(&repeated, &id) {
                    let ghost old_rep = repeated.deep_view();
                    let ghost old_vec = repeated@;
                    repeated.push(id);
                    proof {
                        assert(repeated.deep_view() =~= old_rep.push(id@));
                        assert forall|p: int, q: int|
                            0 <= p < q < repeated@.len() implies (#[trigger] repeated@[p])@ != (
                        #[trigger] repeated@[q])@ by {
                            if q == repeated@.len() - 1 {
                                if repeated@[p]@ == id@ {
                                    assert(old_rep[p] == id@);
                                    assert(old_rep.contains(id@));
                                }
                            } else {
                                assert(old_vec[p]@ != old_vec[q]@);
                            }
                        }
                        assert forall|id2: Seq<char>| #[trigger]
                            repeated.deep_view().contains(id2) implies spec_duplicated_upto(
                            source@,
                            i as int + 1,
                            id2,
                        ) by {
                            let k = choose|k: int|
                                0 <= k < repeated.deep_view().len() && repeated.deep_view()[k]
                                    == id2;
                            if k < old_rep.len() {
                                assert(old_rep.contains(id2));
                            } else {
                                assert(id2 == id@);
                            }
                        }
                        assert forall|id2: Seq<char>|
                            spec_duplicated_upto(source@, i as int + 1, id2) implies #[trigger]
                            repeated.deep_view().contains(id2) by {
                            if spec_duplicated_upto(source@, i as int, id2) {
                                assert(old_rep.contains(id2));
                                let k = choose|k: int|
                                    0 <= k < old_rep.len() && old_rep[k] == id2;
                                assert(repeated.deep_view()[k] == id2);
                            } else {
                                assert(id2 == id@);
                                assert(repeated.deep_view()[old_rep.len() as int] == id@);
                            }
                        }
                    }
                } else {
                    proof {
                        assert forall|id2: Seq<char>|
                            spec_duplicated_upto(source@, i as int + 1, id2) implies #[trigger]
                            repeated.deep_view().contains(id2) by {
                            if !spec_duplicated_upto(source@, i as int, id2) {
                                assert(id2 == id@);
                            }
                        }
                    }
                }
            } else {
                proof {
                    assert forall|id2: Seq<char>|
                        spec_duplicated_upto(source@, i as int + 1, id2) implies #[trigger]
                        repeated.deep_view().contains(id2) by {
                        if !spec_duplicated_upto(source@, i as int, id2) {
                            match source@[i as int].wikidata_id {
                                Some(k) => {
                                    assert(!(exists|j: int|
                                        0 <= j < i && fti_has_id(#[trigger] source@[j], k@)));
                                },
                                None => {},
                            }
                        }
                    }
                }
            }
        }
        if repeated.len() > 0 {
            proof {
                assert(repeated.deep_view()[0] == repeated@[0]@);
                assert(repeated.deep_view().contains(repeated@[0]@));
                assert(spec_duplicated(source@, repeated@[0]@));
            }
            return Err(SourcesCheckError::RepeatedIds(repeated));
        }
        proof {
            assert forall|id: Seq<char>| !spec_duplicated(source@, id) by {
                assert(!repeated.deep_view().contains(id));
            }
        }
        let mut entries: Vec<(WikiStrId, FtiEntry)> = Vec::new();
        proof {
            assert(source@.take(0) =~= Seq::<FtiEntry>::empty());
        }
        for i in 0..n
            invariant
                n == source@.len(),
                entries@ == fti_pairs(source@.take(i as int)),
        {
            proof {
                assert(source@.take(i as int + 1).drop_last() =~= source@.take(i as int));
                assert(source@.take(i as int + 1).last() == source@[i as int]);
            }
            if source[i].wikidata_id.is_some() {
                let id = match &source[i].wikidata_id {
                    Some(id) => WikiStrId { value: id.value.clone() },
                    None => WikiStrId { value: String::new() },
                };
                entries.push((id, clone_fti_entry(&source[i])));
            }
        }
        proof {
            assert(source@.take(n as int) =~= source@);
        }
        Ok(FashionTransparencyIndexAdvisor { entries })
    }

    /// Builds the index from the score dataset, or an index that contains
    /// nothing when the dataset is unavailable. Validation failures of a
    /// present dataset still surface as errors.
    pub fn load(source: Option<&Vec<FtiEntry>>) -> (r: Result<Self, SourcesCheckError>)
        ensures
            match source {
                Some(src) => match r {
                    Ok(adv) => (forall|id: Seq<char>| !spec_duplicated(src@, id))
                        && adv.spec_entries() == fti_pairs(src@),
                    Err(e) => match e {
                        SourcesCheckError::RepeatedIds(v) => {
                            &&& exists|id: Seq<char>| spec_duplicated(src@, id)
                            &&& forall|id: Seq<char>|
                                #[trigger] v.deep_view().contains(id) <==> spec_duplicated(
                                    src@,
                                    id,
                                )
                        },
                    },
                },
                None => match r {
                    Ok(adv) => adv.spec_entries().len() == 0 && (forall|id: Seq<char>|
                        fti_lookup(adv.spec_entries(), id) is None),
                    Err(_) => false,
                },
            },
    {
        match source {
            Some(src) => FashionTransparencyIndexAdvisor::new(src),
            None => {
                let empty: Vec<FtiEntry> = Vec::new();
                let r = FashionTransparencyIndexAdvisor::new(&empty);
                match r {
                    Ok(adv) => Ok(adv),
                    Err(_) => {
                        proof {
                            assert(!spec_duplicated(Seq::<FtiEntry>::empty(), Seq::<
                                char,
                            >::empty()));
                        }
                        Err(SourcesCheckError::RepeatedIds(Vec::new()))
                    },
                }
            },
        }
    }

    /// The record stored for the given company, if any.
    fn find_entry<'a>(&'a self, company_id: &WikiStrId) -> (r: Option<&'a FtiEntry>)
        ensures
            match r {
                Some(e) => fti_lookup(self.spec_entries(), company_id@) == Some(*e),
                None => fti_lookup(self.spec_entries(), company_id@) is None,
            },
    {
        let n = self.entries.len();
        proof {
            assert(self.entries@.skip(0) =~= self.entries@);
        }
        for i in 0..n
            invariant
                n == self.entries@.len(),
                fti_lookup(self.entries@.skip(i as int), company_id@) == fti_lookup(
                    self.entries@,
                    company_id@,
                ),
        {
            proof {
                assert(self.entries@.skip(i as int)[0] == self.entries@[i as int]);
                assert(self.entries@.skip(i as int).drop_first() =~= self.entries@.skip(
                    i as int + 1,
                ));
            }
            if self.entries[i].0.value == company_id.value {
                return Some(&self.entries[i].1);
            }
        }
        None
    }

    /// Checks if the company is known to the score registry.
    pub fn has_company(&self, company_id: &WikiStrId) -> (r: bool)
        ensures
            r == (fti_lookup(self.spec_entries(), company_id@) is Some),
    {
        self.find_entry(company_id).is_some()
    }

    /// Get the score for the given company, if it has one.
    pub fn get_cert(&self, company_id: &WikiStrId) -> (r: Option<FtiCert>)
        ensures
            match r {
                Some(cert) => {
                    &&& fti_lookup(self.spec_entries(), company_id@) matches Some(e)
                    &&& cert.score == e.score
                },
                None => fti_lookup(self.spec_entries(), company_id@) is None,
            },
    {
        match self.find_entry(company_id) {
            Some(e) => Some(FtiCert { score: e.score }),
            None => None,
        }
    }

    /// Prepares the transparency scores to be presented on the library page:
    /// one scored row per indexed organisation, in index order.
    pub fn prepare_presentation(&self) -> (r: crate::knowledge::Presentation)
        ensures
            r.id == crate::knowledge::LibraryTopic::CertFti,
            match r.data {
                crate::knowledge::PresentationData::Scored(d) => {
                    &&& d@.len() == self.spec_entries().len()
                    &&& forall|i: int|
                        0 <= i < d@.len() ==> (#[trigger] d@[i]).id@ == self.spec_entries()[i].0@
                            && d@[i].name@ == self.spec_entries()[i].1.name@ && d@[i].score
                            == self.spec_entries()[i].1.score
                },
            },
    {
        let n = self.entries.len();
        let mut data: Vec<crate::knowledge::ScoredPresentationEntry> = Vec::new();
        for i in 0..n
            invariant
                n == self.entries@.len(),
                data@.len() == i,
                forall|j: int|
                    0 <= j < i ==> (#[trigger] data@[j]).id@ == self.entries@[j].0@ && data@[j].name@
                        == self.entries@[j].1.name@ && data@[j].score == self.entries@[j].1.score,
        {
            data.push(
                crate::knowledge::ScoredPresentationEntry {
                    id: WikiStrId { value: self.entries[i].0.value.clone() },
                    name: self.entries[i].1.name.clone(),
                    score: self.entries[i].1.score,
                },
            );
        }
        crate::knowledge::Presentation {
            id: crate::knowledge::LibraryTopic::CertFti,
            data: crate::knowledge::PresentationData::Scored(data),
        }
    }
}

/// Whether a vector of identifiers holds the given one.
fn contains_id(ids: &Vec<WikiStrId>, id: &WikiStrId) -> (r: bool)
    ensures
        r == spec_id_in(ids.deep_view(), id@),
{
    let n = ids.len();
    for i in 0..n
        invariant
            n == ids@.len(),
            forall|j: int| 0 <= j < i ==> ids.deep_view()[j] != id@,
    {
        if ids[i].value == id.value {
            proof {
                assert(ids.deep_view()[i as int] == id@);
            }
            return true;
        }
    }
    proof {
        assert(forall|j: int| 0 <= j < ids.deep_view().len() ==> ids.deep_view()[j] != id@);
    }
    false
}

/// The name-to-identifier pairs of the name-matching dataset, in order,
/// skipping records without a match; an identifier that does not parse stops
/// the construction, so this model describes the accepted prefix.
pub open spec fn matches_model(map: Seq<NameMatching>) -> Seq<(Seq<char>, u64)>
    decreases map.len(),
{
    if map.len() == 0 {
        Seq::empty()
    } else {
        let rest = matches_model(map.drop_last());
        match map.last().matched {
            Some(m) => if is_wiki_str_id(m.wiki_id@) && digits_val(m.wiki_id@.skip(1))
                <= u64::MAX {
                rest.push((map.last().name@, digits_val(m.wiki_id@.skip(1)) as u64))
            } else {
                rest
            },
            None => rest,
        }
    }
}

/// Whether every matched identifier of the dataset parses into numeric form.
pub open spec fn spec_all_matches_parse(map: Seq<NameMatching>) -> bool {
    forall|i: int|
        0 <= i < map.len() ==> match (#[trigger] map[i]).matched {
            Some(m) => is_wiki_str_id(m.wiki_id@) && digits_val(m.wiki_id@.skip(1)) <= u64::MAX,
            None => true,
        }
}

/// The identifier stored under `name` in the name-matching index: that of the
/// last entry with this name — a later entry overwrites an earlier one — or
/// nothing.
pub open spec fn name_lookup(entries: Seq<(String, WikiId)>, name: Seq<char>) -> Option<WikiId>
    decreases entries.len(),
{
    if entries.len() == 0 {
        None
    } else if entries.last().0@ == name {
        Some(entries.last().1)
    } else {
        name_lookup(entries.drop_last(), name)
    }
}

/// Holds the mapping from company, brand and product names to their numeric
/// entity identifiers.
pub struct SustainityMatchesAdvisor {
    name_to_wiki: Vec<(String, WikiId)>,
}

impl SustainityMatchesAdvisor {
    /// The name-to-identifier entries of this index.
    pub closed spec fn spec_entries(&self) -> Seq<(String, WikiId)> {
        self.name_to_wiki@
    }

    /// Constructs a new `SustainityMatchesAdvisor`: one entry per matched
    /// record, with the identifier parsed into numeric form. Fails on the
    /// first matched identifier that does not parse.
    pub fn new(map: &Vec<NameMatching>) -> (r: Result<Self, ParseIdError>)
        ensures
            match r {
                Ok(adv) => {
                    &&& spec_all_matches_parse(map@)
                    &&& adv.spec_entries().len() == matches_model(map@).len()
                    &&& forall|k: int|
                        0 <= k < matches_model(map@).len() ==> (
                        #[trigger] adv.spec_entries()[k]).0@ == matches_model(map@)[k].0
                            && adv.spec_entries()[k].1.value == matches_model(map@)[k].1
                },
                Err(e) => !spec_all_matches_parse(map@) && exists|i: int|
                    0 <= i < map@.len() && ((#[trigger] map@[i]).matched matches Some(m)
                        && e.text@ == m.wiki_id@),
            },
    {
        let n = map.len();
        let mut name_to_wiki: Vec<(String, WikiId)> = Vec::new();
        proof {
            assert(map@.take(0) =~= Seq::<NameMatching>::empty());
        }
        for i in 0..n
            invariant
                n == map@.len(),
                spec_all_matches_parse(map@.take(i as int)),
                name_to_wiki@.len() == matches_model(map@.take(i as int)).len(),
                forall|k: int|
                    0 <= k < matches_model(map@.take(i as int)).len() ==> (
                    #[trigger] name_to_wiki@[k]).0@ == matches_model(map@.take(i as int))[k].0
                        && name_to_wiki@[k].1.value == matches_model(map@.take(i as int))[k].1,
        {
            proof {
                assert(map@.take(i as int + 1).drop_last() =~= map@.take(i as int));
                assert(map@.take(i as int + 1).last() == map@[i as int]);
            }
            if let Some(m) = &map[i].matched {
                match m.wiki_id.to_num_id() {
                    Ok(wid) => {
                        name_to_wiki.push((map[i].name.clone(), wid));
                    },
                    Err(e) => {
                        proof {
                            assert(!spec_all_matches_parse(map@)) by {
                                assert(map@[i as int].matched matches Some(mm) && !(is_wiki_str_id(
                                    mm.wiki_id@,
                                ) && digits_val(mm.wiki_id@.skip(1)) <= u64::MAX));
                            }
                        }
                        return Err(e);
                    },
                }
            }
            proof {
                assert forall|j: int|
                    0 <= j < i + 1 implies match (#[trigger] map@.take(i as int + 1)[j]).matched {
                    Some(mm) => is_wiki_str_id(mm.wiki_id@) && digits_val(mm.wiki_id@.skip(1))
                        <= u64::MAX,
                    None => true,
                } by {
                    if j < i {
                        assert(map@.take(i as int)[j] == map@.take(i as int + 1)[j]);
                    }
                }
            }
        }
        proof {
            assert(map@.take(n as int) =~= map@);
        }
        Ok(SustainityMatchesAdvisor { name_to_wiki })
    }

    /// Builds the index from the name-matching dataset, or an index that
    /// contains nothing when the dataset is unavailable.
    pub fn load(map: Option<&Vec<NameMatching>>) -> (r: Result<Self, ParseIdError>)
        ensures
            match map {
                Some(m) => match r {
                    Ok(adv) => {
                        &&& spec_all_matches_parse(m@)
                        &&& adv.spec_entries().len() == matches_model(m@).len()
                        &&& forall|k: int|
                            0 <= k < matches_model(m@).len() ==> (
                            #[trigger] adv.spec_entries()[k]).0@ == matches_model(m@)[k].0
                                && adv.spec_entries()[k].1.value == matches_model(m@)[k].1
                    },
                    Err(_) => !spec_all_matches_parse(m@),
                },
                None => match r {
                    Ok(adv) => adv.spec_entries().len() == 0 && (forall|name: Seq<char>|
                        name_lookup(adv.spec_entries(), name) is None),
                    Err(_) => false,
                },
            },
    {
        match map {
            Some(m) => SustainityMatchesAdvisor::new(m),
            None => {
                let empty: Vec<NameMatching> = Vec::new();
                match SustainityMatchesAdvisor::new(&empty) {
                    Ok(adv) => Ok(adv),
                    Err(_) => {
                        proof {
                            assert(spec_all_matches_parse(Seq::<NameMatching>::empty()));
                        }
                        Ok(SustainityMatchesAdvisor { name_to_wiki: Vec::new() })
                    },
                }
            },
        }
    }

    /// Returns the numeric entity identifier matched to the given name, if
    /// one is known.
    pub fn name_to_wiki<'a>(&'a self, name: &str) -> (r: Option<&'a WikiId>)
        ensures
            match r {
                Some(wid) => name_lookup(self.spec_entries(), name@) == Some(*wid),
                None => name_lookup(self.spec_entries(), name@) is None,
            },
    {
        let key = name.to_owned();
        let mut i = self.name_to_wiki.len();
        proof {
            assert(self.name_to_wiki@.take(i as int) =~= self.name_to_wiki@);
        }
        while i > 0
            invariant
                key@ == name@,
                i <= self.name_to_wiki@.len(),
                name_lookup(self.name_to_wiki@.take(i as int), name@) == name_lookup(
                    self.name_to_wiki@,
                    name@,
                ),
            decreases i,
        {
            proof {
                assert(self.name_to_wiki@.take(i as int).last() == self.name_to_wiki@[i as int
                    - 1]);
                assert(self.name_to_wiki@.take(i as int).drop_last() =~= self.name_to_wiki@.take(
                    i as int - 1,
                ));
            }
            if self.name_to_wiki[i - 1].0 == key {
                return Some(&self.name_to_wiki[i - 1].1);
            }
            i = i - 1;
        }
        proof {
            assert(self.name_to_wiki@.take(0) =~= Seq::<(String, WikiId)>::empty());
        }
        None
    }
}

/// Holds the source records of the library of background articles.
pub struct SustainityLibraryAdvisor {
    /// The article records.
    info: Vec<crate::knowledge::LibraryInfo>,
}

impl SustainityLibraryAdvisor {
    /// The article records of this advisor.
    pub closed spec fn spec_info(&self) -> Seq<crate::knowledge::LibraryInfo> {
        self.info@
    }

    /// Constructs a new `SustainityLibraryAdvisor`.
    pub fn new(info: Vec<crate::knowledge::LibraryInfo>) -> (r: Self)
        ensures
            r.spec_info() == info@,
    {
        SustainityLibraryAdvisor { info }
    }

    /// Wraps the library dataset, or holds nothing when the dataset is
    /// unavailable.
    pub fn load(info: Option<Vec<crate::knowledge::LibraryInfo>>) -> (r: Self)
        ensures
            match info {
                Some(inf) => r.spec_info() == inf@,
                None => r.spec_info().len() == 0,
            },
    {
        match info {
            Some(inf) => SustainityLibraryAdvisor::new(inf),
            None => SustainityLibraryAdvisor::new(Vec::new()),
        }
    }

    /// Returns all article records.
    pub fn get_info(&self) -> (r: &Vec<crate::knowledge::LibraryInfo>)
        ensures
            r@ == self.spec_info(),
    {
        &self.info
    }
}

/// One record of the product-label dataset: a product or service and the VAT
/// number of the company that holds the label.
#[derive(Clone, Debug)]
pub struct EuEcolabelRecord {
    /// Name of the labelled product or service.
    pub product_or_service_name: String,
    /// VAT number of the company, when the dataset knows it, already
    /// normalised by the reader.
    pub vat_number: Option<String>,
}

/// The match stored under `name` in a name-to-match list: that of the last
/// entry with this name — a later entry overwrites an earlier one — or
/// nothing.
pub open spec fn match_lookup(entries: Seq<(String, Match)>, name: Seq<char>) -> Option<Match>
    decreases entries.len(),
{
    if entries.len() == 0 {
        None
    } else if entries.last().0@ == name {
        Some(entries.last().1)
    } else {
        match_lookup(entries.drop_last(), name)
    }
}

/// The name-to-match pairs of the name-matching dataset, in order, skipping
/// records without a match.
pub open spec fn name_map_model(map: Seq<NameMatching>) -> Seq<(String, Match)>
    decreases map.len(),
{
    if map.len() == 0 {
        Seq::empty()
    } else {
        let rest = name_map_model(map.drop_last());
        match map.last().matched {
            Some(m) => rest.push((map.last().name, m)),
            None => rest,
        }
    }
}

/// Whether every VAT number of the dataset is valid: a present number must
/// not be empty.
pub open spec fn spec_all_vats_valid(records: Seq<EuEcolabelRecord>) -> bool {
    forall|i: int|
        0 <= i < records.len() ==> match (#[trigger] records[i]).vat_number {
            Some(v) => v@.len() > 0,
            None => true,
        }
}

/// The VAT-to-match pairs that the product-label dataset yields against a
/// name map: one per record whose VAT number is present and valid and whose
/// name the map matches, in dataset order.
pub open spec fn vat_map_model(
    records: Seq<EuEcolabelRecord>,
    names: Seq<(String, Match)>,
) -> Seq<(VatId, Match)>
    decreases records.len(),
{
    if records.len() == 0 {
        Seq::empty()
    } else {
        let rest = vat_map_model(records.drop_last(), names);
        match records.last().vat_number {
            Some(v) => if v@.len() > 0 {
                match match_lookup(names, records.last().product_or_service_name@) {
                    Some(m) => rest.push((VatId { value: v }, m)),
                    None => rest,
                }
            } else {
                rest
            },
            None => rest,
        }
    }
}

/// The match stored under a VAT identifier: that of the last entry with this
/// identifier — a later entry overwrites an earlier one — or nothing.
pub open spec fn vat_lookup(entries: Seq<(VatId, Match)>, vat: Seq<char>) -> Option<Match>
    decreases entries.len(),
{
    if entries.len() == 0 {
        None
    } else if entries.last().0@ == vat {
        Some(entries.last().1)
    } else {
        vat_lookup(entries.drop_last(), vat)
    }
}

/// Holds the information read from the product-label dataset: a map from
/// company VAT identifiers to their matched entity identifiers.
pub struct EuEcolabelAdvisor {
    /// Map from company VAT identifiers to their matches.
    vat_to_wiki: Vec<(VatId, Match)>,
}

impl EuEcolabelAdvisor {
    /// The VAT-to-match entries of this index.
    pub closed spec fn spec_entries(&self) -> Seq<(VatId, Match)> {
        self.vat_to_wiki@
    }

    /// The first match stored for the given name, if any.
    fn find_match<'a>(entries: &'a Vec<(String, Match)>, name: &String) -> (r: Option<&'a Match>)
        ensures
            match r {
                Some(m) => match_lookup(entries@, name@) == Some(*m),
                None => match_lookup(entries@, name@) is None,
            },
    {
        let mut i = entries.len();
        proof {
            assert(entries@.take(i as int) =~= entries@);
        }
        while i > 0
            invariant
                i <= entries@.len(),
                match_lookup(entries@.take(i as int), name@) == match_lookup(entries@, name@),
            decreases i,
        {
            proof {
                assert(entries@.take(i as int).last() == entries@[i as int - 1]);
                assert(entries@.take(i as int).drop_last() =~= entries@.take(i as int - 1));
            }
            if entries[i - 1].0 == *name {
                return Some(&entries[i - 1].1);
            }
            i = i - 1;
        }
        proof {
            assert(entries@.take(0) =~= Seq::<(String, Match)>::empty());
        }
        None
    }

    /// Constructs a new `EuEcolabelAdvisor`: matches each labelled company's
    /// VAT number to an entity identifier through the name-matching dataset.
    /// We assume each company has only one VAT number. A present but empty
    /// VAT number does not parse and aborts the construction.
    pub fn new(records: &Vec<EuEcolabelRecord>, map: &Vec<NameMatching>) -> (r: Result<
        Self,
        ParseIdError,
    >)
        ensures
            match r {
                Ok(adv) => spec_all_vats_valid(records@) && adv.spec_entries() == vat_map_model(
                    records@,
                    name_map_model(map@),
                ),
                Err(e) => !spec_all_vats_valid(records@) && e.text@.len() == 0,
            },
    {
        let n = map.len();
        let mut name_to_wiki: Vec<(String, Match)> = Vec::new();
        proof {
            assert(map@.take(0) =~= Seq::<NameMatching>::empty());
        }
        for i in 0..n
            invariant
                n == map@.len(),
                name_to_wiki@ == name_map_model(map@.take(i as int)),
        {
            proof {
                assert(map@.take(i as int + 1).drop_last() =~= map@.take(i as int));
                assert(map@.take(i as int + 1).last() == map@[i as int]);
            }
            if let Some(m) = &map[i].matched {
                name_to_wiki.push(
                    (
                        map[i].name.clone(),
                        Match { wiki_id: WikiStrId { value: m.wiki_id.value.clone() } },
                    ),
                );
            }
        }
        proof {
            assert(map@.take(n as int) =~= map@);
        }
        let k = records.len();
        let mut vat_to_wiki: Vec<(VatId, Match)> = Vec::new();
        proof {
            assert(records@.take(0) =~= Seq::<EuEcolabelRecord>::empty());
        }
        for i in 0..k
            invariant
                k == records@.len(),
                name_to_wiki@ == name_map_model(map@),
                spec_all_vats_valid(records@.take(i as int)),
                vat_to_wiki@ == vat_map_model(records@.take(i as int), name_map_model(map@)),
        {
            proof {
                assert(records@.take(i as int + 1).drop_last() =~= records@.take(i as int));
                assert(records@.take(i as int + 1).last() == records@[i as int]);
            }
            if let Some(vat_number) = &records[i].vat_number {
                if vat_number.as_str().is_empty() {
                    proof {
                        assert(!spec_all_vats_valid(records@)) by {
                            assert(records@[i as int].vat_number matches Some(v) && v@.len() == 0);
                        }
                    }
                    return Err(ParseIdError { text: vat_number.clone() });
                }
                if let Some(m) = EuEcolabelAdvisor::find_match(
                    &name_to_wiki,
                    &records[i].product_or_service_name,
                ) {
                    vat_to_wiki.push(
                        (
                            VatId { value: vat_number.clone() },
                            Match { wiki_id: WikiStrId { value: m.wiki_id.value.clone() } },
                        ),
                    );
                }
            }
            proof {
                assert forall|j: int|
                    0 <= j < i + 1 implies match (#[trigger] records@.take(
                    i as int + 1,
                )[j]).vat_number {
                    Some(v) => v@.len() > 0,
                    None => true,
                } by {
                    if j < i {
                        assert(records@.take(i as int)[j] == records@.take(i as int + 1)[j]);
                    }
                }
            }
        }
        proof {
            assert(records@.take(k as int) =~= records@);
        }
        Ok(EuEcolabelAdvisor { vat_to_wiki })
    }

    /// Builds the index from the product-label and name-matching datasets, or
    /// an index that contains nothing when either is unavailable.
    pub fn load(
        records: Option<&Vec<EuEcolabelRecord>>,
        map: Option<&Vec<NameMatching>>,
    ) -> (r: Result<Self, ParseIdError>)
        ensures
            match (records, map) {
                (Some(rs), Some(m)) => match r {
                    Ok(adv) => spec_all_vats_valid(rs@) && adv.spec_entries() == vat_map_model(
                        rs@,
                        name_map_model(m@),
                    ),
                    Err(_) => !spec_all_vats_valid(rs@),
                },
                _ => match r {
                    Ok(adv) => adv.spec_entries().len() == 0 && (forall|vat: Seq<char>|
                        vat_lookup(adv.spec_entries(), vat) is None),
                    Err(_) => false,
                },
            },
    {
        match (records, map) {
            (Some(rs), Some(m)) => EuEcolabelAdvisor::new(rs, m),
            _ => {
                let no_records: Vec<EuEcolabelRecord> = Vec::new();
                let no_map: Vec<NameMatching> = Vec::new();
                match EuEcolabelAdvisor::new(&no_records, &no_map) {
                    Ok(adv) => Ok(adv),
                    Err(_) => {
                        proof {
                            assert(spec_all_vats_valid(Seq::<EuEcolabelRecord>::empty()));
                        }
                        Ok(EuEcolabelAdvisor { vat_to_wiki: Vec::new() })
                    },
                }
            },
        }
    }

    /// Returns the company's matched entity identifier given its VAT
    /// identifier, if available.
    pub fn vat_to_wiki<'a>(&'a self, vat_id: &VatId) -> (r: Option<&'a Match>)
        ensures
            match r {
                Some(m) => vat_lookup(self.spec_entries(), vat_id@) == Some(*m),
                None => vat_lookup(self.spec_entries(), vat_id@) is None,
            },
    {
        let mut i = self.vat_to_wiki.len();
        proof {
            assert(self.vat_to_wiki@.take(i as int) =~= self.vat_to_wiki@);
        }
        while i > 0
            invariant
                i <= self.vat_to_wiki@.len(),
                vat_lookup(self.vat_to_wiki@.take(i as int), vat_id@) == vat_lookup(
                    self.vat_to_wiki@,
                    vat_id@,
                ),
            decreases i,
        {
            proof {
                assert(self.vat_to_wiki@.take(i as int).last() == self.vat_to_wiki@[i as int - 1]);
                assert(self.vat_to_wiki@.take(i as int).drop_last() =~= self.vat_to_wiki@.take(
                    i as int - 1,
                ));
            }
            if self.vat_to_wiki[i - 1].0.value == vat_id.value {
                return Some(&self.vat_to_wiki[i - 1].1);
            }
            i = i - 1;
        }
        proof {
            assert(self.vat_to_wiki@.take(0) =~= Seq::<(VatId, Match)>::empty());
        }
        None
    }
}

/// Represents a company extracted from the product-label dataset.
#[derive(Clone, Debug)]
pub struct EuEcolabelCompany {
    /// Company name.
    pub name: String,
    /// Company VAT identifier.
    pub vat_id: crate::ids::VatId,
}

/// Represents a product extracted from the product-label dataset.
#[derive(Clone, Debug)]
pub struct EuEcolabelProduct {
    /// Product name.
    pub name: String,
    /// Identifier of the producing company.
    pub company_id: WikiStrId,
    /// Global trade item number of the product.
    pub gtin: String,
}

} // verus!
