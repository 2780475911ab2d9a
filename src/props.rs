//! Properties that a device shows to its controllers.
use vstd::prelude::*;
use crate::text::same_text;

verus! {

/// Who may change a property.
#[derive(Clone, Copy, Debug, PartialEq, Eq, Structural)]
pub enum Permission {
    ReadOnly,
    ReadWrite,
    WriteOnly,
}

/// A named value of a device, as controllers see it.
pub struct Property {
    pub name: String,
    pub value: String,
    pub kind: String,
    pub permission: Permission,
}

/// Whether `p` holds exactly the given name, value, kind and permission.
pub open spec fn property_is(
    p: Property,
    name: Seq<char>,
    value: Seq<char>,
    kind: Seq<char>,
    permission: Permission,
) -> bool {
    p.name@ == name && p.value@ == value && p.kind@ == kind && p.permission == permission
}

impl Property {
    /// A copy of the property.
    pub fn duplicate(&self) -> (r: Property)
        ensures
            property_is(r, self.name@, self.value@, self.kind@, self.permission),
    {
        Property {
            name: self.name.clone(),
            value: self.value.clone(),
            kind: self.kind.clone(),
            permission: self.permission,
        }
    }
}

/// The first index at or after `from` whose property is called `name`.
pub open spec fn find_property(props: Seq<Property>, name: Seq<char>, from: int) -> Option<int>
    decreases props.len() - from,
{
    if from < 0 || from >= props.len() {
        None
    } else if props[from].name@ == name {
        Some(from)
    } else {
        find_property(props, name, from + 1)
    }
}

pub proof fn lemma_find_property_bounds(props: Seq<Property>, name: Seq<char>, from: int)
    ensures
        find_property(props, name, from) matches Some(i) ==> from <= i < props.len()
            && props[i].name@ == name,
    decreases props.len() - from,
{
    if 0 <= from < props.len() && props[from].name@ != name {
        lemma_find_property_bounds(props, name, from + 1);
    }
}

pub proof fn lemma_find_property_absent(props: Seq<Property>, name: Seq<char>, from: int)
    requires
        forall|i: int| 0 <= i < props.len() ==> (#[trigger] props[i]).name@ != name,
    ensures
        find_property(props, name, from) is None,
    decreases props.len() - from,
{
    if 0 <= from < props.len() {
        lemma_find_property_absent(props, name, from + 1);
    }
}

/// The index of the first property called `name`.
pub fn property_index(props: &Vec<Property>, name: &str) -> (r: Option<usize>)
    ensures
        match find_property(props@, name@, 0) {
            Some(i) => r == Some(i as usize),
            None => r is None,
        },
{
    let mut i: usize = 0;
    while i < props.len()
        invariant
            i <= props@.len(),
            find_property(props@, name@, 0) == find_property(props@, name@, i as int),
        decreases props.len() - i,
    {
        if same_text(props[i].name.as_str(), name) {
            return Some(i);
        }
        i = i + 1;
    }
    None
}

} // verus!
