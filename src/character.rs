use vstd::prelude::*;
use vstd::string::StringExecFns;
use crate::ids::random_id;
use crate::wpp::item::Attribute;

verus! {

/// A character that can take part in a chat: an identifier, a name, an
/// optional description, and W++ attributes.
#[derive(Debug, Clone)]
pub struct Character {
    pub id: u128,
    pub name: String,
    pub description: Option<String>,
    pub attributes: Vec<Attribute>,
}

impl Default for Character {
    fn default() -> (r: Character)
        ensures
            r.name@ == "Nika Orchid"@,
            r.description matches Some(d) && d@ == "Nika calls you Master"@,
            r.attributes@ == Seq::<Attribute>::empty(),
    {
        Character {
            id: random_id(),
            name: String::from_str("Nika Orchid"),
            description: Some(String::from_str("Nika calls you Master")),
            attributes: Vec::new(),
        }
    }
}

impl Character {
    /// A character named `name`, under a random identifier, with no
    /// description or attributes.
    pub fn new(name: &str) -> (r: Character)
        ensures
            r.name@ == name@,
            r.description is None,
            r.attributes@ == Seq::<Attribute>::empty(),
    {
        Character { id: random_id(), name: String::from_str(name), description: None, attributes: Vec::new() }
    }

    /// Sets the description.
    pub fn add_description(&mut self, description: &str)
        ensures
            final(self).id == old(self).id,
            final(self).name == old(self).name,
            final(self).description matches Some(d) && d@ == description@,
            final(self).attributes == old(self).attributes,
    {
        self.description = Some(String::from_str(description));
    }

    /// Appends an attribute.
    pub fn add_attribute(&mut self, attribute: Attribute)
        ensures
            final(self).id == old(self).id,
            final(self).name == old(self).name,
            final(self).description == old(self).description,
            final(self).attributes@ == old(self).attributes@.push(attribute),
    {
        self.attributes.push(attribute);
    }
}

} // verus!
