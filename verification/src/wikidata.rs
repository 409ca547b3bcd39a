//! The library's model of one record from the knowledge-graph dump: an
//! identifier, per-language label and description maps, and a relation map
//! keyed by the properties the pipeline reads.

use vstd::prelude::*;

use crate::ids::WikiStrId;

verus! {

/// The relation properties the pipeline reads from an entity.
#[derive(Clone, Copy, Debug, PartialEq, Eq, Structural)]
pub enum Property {
    /// Links a product to the organisations that produce it.
    Manufacturer,
    /// Links an organisation to its official websites.
    OfficialWebsite,
    /// Links an entity to the classes it is an instance of.
    InstanceOf,
    /// Links a product to its predecessor.
    Follows,
    /// Links a product to its successor.
    FollowedBy,
}

/// One relation of an entity: a property and its target values
/// (identifiers, or URLs for website relations).
#[derive(Clone, Debug)]
pub struct Relation {
    pub property: Property,
    pub targets: Vec<String>,
}

/// One entry of a per-language text map.
#[derive(Clone, Debug)]
pub struct LangText {
    pub lang: String,
    pub text: String,
}

/// A real node of the knowledge graph.
#[derive(Clone, Debug)]
pub struct Item {
    /// Stable identifier, unique within one dump.
    pub id: WikiStrId,
    /// Per-language labels.
    pub labels: Vec<LangText>,
    /// Per-language descriptions.
    pub descriptions: Vec<LangText>,
    /// Relations, keyed by property.
    pub relations: Vec<Relation>,
}

/// A schema (property) definition; the pipeline reads nothing from it.
#[derive(Clone, Debug)]
pub struct PropertyDef {
    /// Stable identifier.
    pub id: WikiStrId,
}

/// One record of the dump: a real node or a schema definition.
#[derive(Clone, Debug)]
pub enum Entity {
    Item(Item),
    Property(PropertyDef),
}

/// The text stored under `lang` in a per-language map: the first entry with
/// that language, or nothing.
pub open spec fn lang_lookup(texts: Seq<LangText>, lang: Seq<char>) -> Option<Seq<char>>
    decreases texts.len(),
{
    if texts.len() == 0 {
        None
    } else if texts[0].lang@ == lang {
        Some(texts[0].text@)
    } else {
        lang_lookup(texts.drop_first(), lang)
    }
}

/// The targets stored under `property` in a relation map: those of the first
/// relation with that property, or nothing.
pub open spec fn relation_targets(rels: Seq<Relation>, property: Property) -> Option<
    Seq<Seq<char>>,
>
    decreases rels.len(),
{
    if rels.len() == 0 {
        None
    } else if rels[0].property == property {
        Some(rels[0].targets.deep_view())
    } else {
        relation_targets(rels.drop_first(), property)
    }
}

impl Item {
    /// The label of this item in the given language.
    pub open spec fn spec_label(&self, lang: Seq<char>) -> Option<Seq<char>> {
        lang_lookup(self.labels@, lang)
    }

    /// The description of this item in the given language.
    pub open spec fn spec_description(&self, lang: Seq<char>) -> Option<Seq<char>> {
        lang_lookup(self.descriptions@, lang)
    }

    /// The identifiers of this item's manufacturers, if it has a manufacturer
    /// relation.
    pub open spec fn spec_manufacturer_ids(&self) -> Option<Seq<Seq<char>>> {
        relation_targets(self.relations@, Property::Manufacturer)
    }

    /// The official websites of this item, if it has a website relation.
    pub open spec fn spec_official_websites(&self) -> Option<Seq<Seq<char>>> {
        relation_targets(self.relations@, Property::OfficialWebsite)
    }

    /// Whether this item has an official-website relation.
    pub open spec fn spec_has_official_website(&self) -> bool {
        self.spec_official_websites() is Some
    }

    /// Whether this item is an instance of the given class.
    pub open spec fn spec_is_instance_of(&self, class: Seq<char>) -> bool {
        match relation_targets(self.relations@, Property::InstanceOf) {
            Some(ts) => ts.contains(class),
            None => false,
        }
    }

    /// The identifier named by the first target of the given property, if any.
    pub open spec fn spec_first_target(&self, property: Property) -> Option<Seq<char>> {
        match relation_targets(self.relations@, property) {
            Some(ts) => if ts.len() > 0 {
                Some(ts[0])
            } else {
                None
            },
            None => None,
        }
    }

    /// Looks up a per-language text map.
    fn text_in<'a>(texts: &'a Vec<LangText>, lang: &String) -> (r: Option<&'a String>)
        ensures
            match r {
                Some(t) => lang_lookup(texts@, lang@) == Some(t@),
                None => lang_lookup(texts@, lang@) is None,
            },
    {
        let n = texts.len();
        proof {
            assert(texts@.skip(0) =~= texts@);
        }
        for i in 0..n
            invariant
                n == texts@.len(),
                lang_lookup(texts@.skip(i as int), lang@) == lang_lookup(texts@, lang@),
        {
            proof {
                assert(texts@.skip(i as int)[0] == texts@[i as int]);
                assert(texts@.skip(i as int).drop_first() =~= texts@.skip(i as int + 1));
            }
            if texts[i].lang == *lang {
                return Some(&texts[i].text);
            }
        }
        None
    }

    /// The first relation with the given property, if any.
    fn find_relation(&self, property: Property) -> (r: Option<&Relation>)
        ensures
            match r {
                Some(rel) => relation_targets(self.relations@, property) == Some(
                    rel.targets.deep_view(),
                ),
                None => relation_targets(self.relations@, property) is None,
            },
    {
        let n = self.relations.len();
        proof {
            assert(self.relations@.skip(0) =~= self.relations@);
        }
        for i in 0..n
            invariant
                n == self.relations@.len(),
                relation_targets(self.relations@.skip(i as int), property) == relation_targets(
                    self.relations@,
                    property,
                ),
        {
            proof {
                assert(self.relations@.skip(i as int)[0] == self.relations@[i as int]);
                assert(self.relations@.skip(i as int).drop_first() =~= self.relations@.skip(
                    i as int + 1,
                ));
            }
            if self.relations[i].property == property {
                return Some(&self.relations[i]);
            }
        }
        None
    }

    /// The label of this item in the given language, if present.
    pub fn get_label(&self, lang: &String) -> (r: Option<&String>)
        ensures
            match r {
                Some(t) => self.spec_label(lang@) == Some(t@),
                None => self.spec_label(lang@) is None,
            },
    {
        Item::text_in(&self.labels, lang)
    }

    /// The description of this item in the given language, if present.
    pub fn get_description(&self, lang: &String) -> (r: Option<&String>)
        ensures
            match r {
                Some(t) => self.spec_description(lang@) == Some(t@),
                None => self.spec_description(lang@) is None,
            },
    {
        Item::text_in(&self.descriptions, lang)
    }

    /// The identifiers of this item's manufacturers, if it has a manufacturer
    /// relation.
    pub fn get_manufacturer_ids(&self) -> (r: Option<Vec<WikiStrId>>)
        ensures
            match r {
                Some(ids) => self.spec_manufacturer_ids() == Some(ids.deep_view()),
                None => self.spec_manufacturer_ids() is None,
            },
    {
        match self.find_relation(Property::Manufacturer) {
            Some(rel) => {
                let n = rel.targets.len();
                let mut ids: Vec<WikiStrId> = Vec::new();
                for i in 0..n
                    invariant
                        n == rel.targets@.len(),
                        ids@.len() == i,
                        forall|j: int| 0 <= j < i ==> ids@[j]@ == rel.targets@[j]@,
                {
                    ids.push(WikiStrId { value: rel.targets[i].clone() });
                }
                proof {
                    assert(ids.deep_view() =~= rel.targets.deep_view());
                }
                Some(ids)
            },
            None => None,
        }
    }

    /// The official websites of this item, if it has a website relation.
    pub fn get_official_websites(&self) -> (r: Option<Vec<String>>)
        ensures
            match r {
                Some(ws) => self.spec_official_websites() == Some(ws.deep_view()),
                None => self.spec_official_websites() is None,
            },
    {
        match self.find_relation(Property::OfficialWebsite) {
            Some(rel) => {
                let n = rel.targets.len();
                let mut ws: Vec<String> = Vec::new();
                for i in 0..n
                    invariant
                        n == rel.targets@.len(),
                        ws@.len() == i,
                        forall|j: int| 0 <= j < i ==> ws@[j]@ == rel.targets@[j]@,
                {
                    ws.push(rel.targets[i].clone());
                }
                proof {
                    assert(ws.deep_view() =~= rel.targets.deep_view());
                }
                Some(ws)
            },
            None => None,
        }
    }

    /// Whether this item has an official-website relation.
    pub fn has_official_website(&self) -> (r: bool)
        ensures
            r == self.spec_has_official_website(),
    {
        self.find_relation(Property::OfficialWebsite).is_some()
    }

    /// Whether this item is an instance of the given class.
    pub fn is_instance_of(&self, class: &String) -> (r: bool)
        ensures
            r == self.spec_is_instance_of(class@),
    {
        match self.find_relation(Property::InstanceOf) {
            Some(rel) => {
                let n = rel.targets.len();
                for i in 0..n
                    invariant
                        n == rel.targets@.len(),
                        relation_targets(self.relations@, Property::InstanceOf) == Some(
                            rel.targets.deep_view(),
                        ),
                        forall|j: int| 0 <= j < i ==> rel.targets@[j]@ != class@,
                {
                    if rel.targets[i] == *class {
                        proof {
                            assert(rel.targets.deep_view()[i as int] == class@);
                        }
                        return true;
                    }
                }
                proof {
                    assert(forall|j: int|
                        0 <= j < rel.targets.deep_view().len()
                            ==> rel.targets.deep_view()[j] != class@);
                }
                false
            },
            None => false,
        }
    }

    /// The first target of the given property, as an identifier, if any.
    fn first_target(&self, property: Property) -> (r: Option<WikiStrId>)
        ensures
            match r {
                Some(id) => self.spec_first_target(property) == Some(id@),
                None => self.spec_first_target(property) is None,
            },
    {
        match self.find_relation(property) {
            Some(rel) => if rel.targets.len() > 0 {
                Some(WikiStrId { value: rel.targets[0].clone() })
            } else {
                None
            },
            None => None,
        }
    }

    /// The identifier of this item's predecessor, if any.
    pub fn get_follows(&self) -> (r: Option<WikiStrId>)
        ensures
            match r {
                Some(id) => self.spec_first_target(Property::Follows) == Some(id@),
                None => self.spec_first_target(Property::Follows) is None,
            },
    {
        self.first_target(Property::Follows)
    }

    /// The identifier of this item's successor, if any.
    pub fn get_followed_by(&self) -> (r: Option<WikiStrId>)
        ensures
            match r {
                Some(id) => self.spec_first_target(Property::FollowedBy) == Some(id@),
                None => self.spec_first_target(Property::FollowedBy) is None,
            },
    {
        self.first_target(Property::FollowedBy)
    }
}

} // verus!
