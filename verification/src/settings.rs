//! The properties of a JMAP account's Camel settings: the network settings'
//! five, overridden by id so that Evolution's account editor reads and writes
//! them on this class.

use vstd::prelude::*;

verus! {

/// One property of the settings.
#[derive(Debug, Clone, Copy, PartialEq, Eq, Structural)]
pub enum Property {
    AuthMechanism,
    Host,
    Port,
    SecurityMethod,
    User,
}

/// The id a property is installed under.
pub open spec fn spec_property_id(p: Property) -> u32 {
    match p {
        Property::AuthMechanism => 1,
        Property::Host => 2,
        Property::Port => 3,
        Property::SecurityMethod => 4,
        Property::User => 5,
    }
}

/// The property installed under `id`, if any.
pub open spec fn spec_property(id: u32) -> Option<Property> {
    if id == 1 {
        Some(Property::AuthMechanism)
    } else if id == 2 {
        Some(Property::Host)
    } else if id == 3 {
        Some(Property::Port)
    } else if id == 4 {
        Some(Property::SecurityMethod)
    } else if id == 5 {
        Some(Property::User)
    } else {
        None
    }
}

/// The name the network settings interface gives a property.
pub open spec fn spec_property_name(p: Property) -> Seq<char> {
    match p {
        Property::AuthMechanism => "auth-mechanism"@,
        Property::Host => "host"@,
        Property::Port => "port"@,
        Property::SecurityMethod => "security-method"@,
        Property::User => "user"@,
    }
}

impl Property {
    /// The id the property is installed under.
    pub fn id(self) -> (id: u32)
        ensures
            id == spec_property_id(self),
    {
        match self {
            Property::AuthMechanism => 1,
            Property::Host => 2,
            Property::Port => 3,
            Property::SecurityMethod => 4,
            Property::User => 5,
        }
    }

    /// The name the network settings interface gives the property.
    pub fn name(self) -> (name: &'static str)
        ensures
            name@ == spec_property_name(self),
    {
        match self {
            Property::AuthMechanism => "auth-mechanism",
            Property::Host => "host",
            Property::Port => "port",
            Property::SecurityMethod => "security-method",
            Property::User => "user",
        }
    }

    /// Every property, in the order they are installed.
    pub fn all() -> (v: Vec<Property>)
        ensures
            v@ == seq![
                Property::AuthMechanism,
                Property::Host,
                Property::Port,
                Property::SecurityMethod,
                Property::User,
            ],
    {
        let v = vec![
            Property::AuthMechanism,
            Property::Host,
            Property::Port,
            Property::SecurityMethod,
            Property::User,
        ];
        proof {
            assert(v@ =~= seq![
                Property::AuthMechanism,
                Property::Host,
                Property::Port,
                Property::SecurityMethod,
                Property::User,
            ]);
        }
        v
    }
}

/// The property a `set_property` or `get_property` call with `id` is about,
/// or `None` for an id this class never installed — which is logged and
/// otherwise ignored.
pub fn property(id: u32) -> (p: Option<Property>)
    ensures
        p == spec_property(id),
{
    if id == 1 {
        Some(Property::AuthMechanism)
    } else if id == 2 {
        Some(Property::Host)
    } else if id == 3 {
        Some(Property::Port)
    } else if id == 4 {
        Some(Property::SecurityMethod)
    } else if id == 5 {
        Some(Property::User)
    } else {
        None
    }
}

/// Every property is found again by its id, and no two share one.
pub proof fn law_property_ids_round_trip(p: Property, q: Property)
    ensures
        spec_property(spec_property_id(p)) == Some(p),
        spec_property_id(p) == spec_property_id(q) ==> p == q,
{
}

} // verus!
