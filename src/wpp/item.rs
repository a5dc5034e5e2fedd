use vstd::prelude::*;
use vstd::string::StringExecFns;

verus! {

/// A named attribute of a W++ entry and its values, in order.
#[derive(Debug, Clone)]
pub struct Attribute {
    name: String,
    values: Vec<String>,
}

/// The characters of each string of a sequence.
pub open spec fn string_views(v: Seq<String>) -> Seq<Seq<char>> {
    v.map_values(|s: String| s@)
}

impl View for Attribute {
    type V = (Seq<char>, Seq<Seq<char>>);

    closed spec fn view(&self) -> (Seq<char>, Seq<Seq<char>>) {
        (self.name@, string_views(self.values@))
    }
}

impl Attribute {
    /// An attribute named `name` with no values yet.
    pub fn new(name: &str) -> (r: Attribute)
        ensures
            r@ == (name@, Seq::<Seq<char>>::empty()),
    {
        let r = Attribute { name: String::from_str(name), values: Vec::new() };
        assert(string_views(r.values@) =~= Seq::<Seq<char>>::empty());
        r
    }

    /// Appends a value.
    pub fn add_value(&mut self, value: &str)
        ensures
            final(self)@ == (old(self)@.0, old(self)@.1.push(value@)),
    {
        self.values.push(String::from_str(value));
        assert(string_views(self.values@) =~= string_views(old(self).values@).push(value@));
    }

    pub fn name(&self) -> (r: &str)
        ensures
            r@ == self@.0,
    {
        self.name.as_str()
    }

    pub fn values(&self) -> (r: &Vec<String>)
        ensures
            string_views(r@) == self@.1,
    {
        &self.values
    }
}

/// The views of a sequence of attributes.
pub open spec fn attribute_views(v: Seq<Attribute>) -> Seq<(Seq<char>, Seq<Seq<char>>)> {
    v.map_values(|a: Attribute| a@)
}

/// A W++ entry: its type (such as `Character`), its name, and its attributes in order.
#[derive(Debug, Clone)]
pub struct WppItem {
    item_type: String,
    name: String,
    attributes: Vec<Attribute>,
}

impl View for WppItem {
    type V = (Seq<char>, Seq<char>, Seq<(Seq<char>, Seq<Seq<char>>)>);

    closed spec fn view(&self) -> (Seq<char>, Seq<char>, Seq<(Seq<char>, Seq<Seq<char>>)>) {
        (self.item_type@, self.name@, attribute_views(self.attributes@))
    }
}

impl WppItem {
    /// An entry of type `item_type` named `name`, with no attributes yet.
    pub fn new(item_type: &str, name: &str) -> (r: WppItem)
        ensures
            r@ == (item_type@, name@, Seq::<(Seq<char>, Seq<Seq<char>>)>::empty()),
    {
        let r = WppItem {
            item_type: String::from_str(item_type),
            name: String::from_str(name),
            attributes: Vec::new(),
        };
        assert(attribute_views(r.attributes@) =~= Seq::<(Seq<char>, Seq<Seq<char>>)>::empty());
        r
    }

    /// An entry made of the given parts.
    pub(crate) fn from_parts(item_type: String, name: String, attributes: Vec<Attribute>) -> (r: WppItem)
        ensures
            r@ == (item_type@, name@, attribute_views(attributes@)),
    {
        WppItem { item_type, name, attributes }
    }

    pub fn item_type(&self) -> (r: &str)
        ensures
            r@ == self@.0,
    {
        self.item_type.as_str()
    }

    pub fn name(&self) -> (r: &str)
        ensures
            r@ == self@.1,
    {
        self.name.as_str()
    }

    pub fn attributes(&self) -> (r: &Vec<Attribute>)
        ensures
            attribute_views(r@) == self@.2,
    {
        &self.attributes
    }

    /// Appends an attribute.
    pub fn add_attribute(&mut self, attribute: Attribute)
        ensures
            final(self)@ == (old(self)@.0, old(self)@.1, old(self)@.2.push(attribute@)),
    {
        let ghost a = attribute@;
        self.attributes.push(attribute);
        assert(attribute_views(self.attributes@) =~= attribute_views(old(self).attributes@).push(a));
    }

    /// The entry written back out in W++.
    pub fn prompt(&self) -> (r: String)
        ensures
            r@ == crate::wpp::format::formatted(self@),
    {
        crate::wpp::format::format(self)
    }
}

} // verus!
