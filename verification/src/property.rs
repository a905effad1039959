//! The raw material of an event record: named properties with parameters.

use vstd::prelude::*;

verus! {

/// One property of a record: a name, parameters with their values, and a
/// value.
#[derive(Debug)]
pub struct Property {
    pub name: String,
    pub params: Option<Vec<(String, Vec<String>)>>,
    pub value: Option<String>,
}

/// An alarm block of an event.
#[derive(Debug)]
pub struct IcalAlarm {
    pub properties: Vec<Property>,
}

/// The event block of a record.
#[derive(Debug)]
pub struct IcalEvent {
    pub properties: Vec<Property>,
    pub alarms: Vec<IcalAlarm>,
}

/// One record: the properties of the calendar itself and its event blocks.
#[derive(Debug)]
pub struct IcalCalendar {
    pub properties: Vec<Property>,
    pub events: Vec<IcalEvent>,
}

/// A list of properties.
pub type PropertyList = Vec<Property>;

/// The texts of a property: its name, its parameters with their values, and
/// its value.
pub type PropertyText = (Seq<char>, Option<Seq<(Seq<char>, Seq<Seq<char>>)>>, Option<Seq<char>>);

/// The texts of an event block: its properties and those of each of its
/// alarm blocks.
pub type EventText = (Seq<PropertyText>, Seq<Seq<PropertyText>>);

/// The texts of a record: the properties of the calendar, and its event
/// blocks.
pub type RecordText = (Seq<PropertyText>, Seq<EventText>);

/// The texts of a list of parameters.
pub open spec fn params_text(params: Seq<(String, Vec<String>)>) -> Seq<(Seq<char>, Seq<Seq<char>>)> {
    Seq::new(params.len(), |i: int| (params[i].0@, params[i].1@.map_values(|s: String| s@)))
}

/// The texts of a property.
pub open spec fn property_text(p: Property) -> PropertyText {
    (
        p.name@,
        match p.params {
            Some(params) => Some(params_text(params@)),
            None => None,
        },
        match p.value {
            Some(v) => Some(v@),
            None => None,
        },
    )
}

/// The texts of a list of properties.
pub open spec fn properties_text(props: Seq<Property>) -> Seq<PropertyText> {
    props.map_values(|p: Property| property_text(p))
}

/// The texts of an event block.
pub open spec fn event_text(e: IcalEvent) -> EventText {
    (
        properties_text(e.properties@),
        e.alarms@.map_values(|a: IcalAlarm| properties_text(a.properties@)),
    )
}

/// The texts of a record.
pub open spec fn record_text(ical: IcalCalendar) -> RecordText {
    (properties_text(ical.properties@), ical.events@.map_values(|e: IcalEvent| event_text(e)))
}

/// The position of the first property called `name`, from `from` on.
pub open spec fn first_named(props: Seq<Property>, name: Seq<char>, from: int) -> Option<int>
    decreases props.len() - from,
{
    if from < 0 || from >= props.len() {
        None
    } else if props[from].name@ == name {
        Some(from)
    } else {
        first_named(props, name, from + 1)
    }
}

/// The position of the first parameter called `name`, from `from` on.
pub open spec fn first_param(params: Seq<(String, Vec<String>)>, name: Seq<char>, from: int)
    -> Option<int>
    decreases params.len() - from,
{
    if from < 0 || from >= params.len() {
        None
    } else if params[from].0@ == name {
        Some(from)
    } else {
        first_param(params, name, from + 1)
    }
}

/// The first property called `name`.
pub open spec fn property_named(props: Seq<Property>, name: Seq<char>) -> Option<Property> {
    match first_named(props, name, 0) {
        Some(i) => Some(props[i]),
        None => None,
    }
}

/// The value of the first property called `name`, where it has one.
pub open spec fn string_named(props: Seq<Property>, name: Seq<char>) -> Option<String> {
    match property_named(props, name) {
        Some(p) => p.value,
        None => None,
    }
}

/// The text of the value of the first property called `name`.
pub open spec fn value_named(props: Seq<Property>, name: Seq<char>) -> Option<Seq<char>> {
    match string_named(props, name) {
        Some(v) => Some(v@),
        None => None,
    }
}

impl IcalEvent {
    /// An event block with these properties and without alarms.
    pub fn new(properties: Vec<Property>) -> (e: IcalEvent)
        ensures
            e.properties == properties,
            e.alarms@ == Seq::<IcalAlarm>::empty(),
    {
        IcalEvent { properties, alarms: Vec::new() }
    }
}

impl Property {
    /// The parameters: none where the property has no list of them.
    pub open spec fn params_seq(self) -> Seq<(String, Vec<String>)> {
        match self.params {
            Some(p) => p@,
            None => Seq::empty(),
        }
    }

    /// Some parameter called `name` has `value` as its first value.
    pub open spec fn has_param_value(self, name: Seq<char>, value: Seq<char>) -> bool {
        exists|i: int|
            0 <= i < self.params_seq().len() && self.params_seq()[i].0@ == name
                && self.params_seq()[i].1@.len() > 0 && (#[trigger] self.params_seq()[i]).1@[0]@
                == value
    }

    /// The values of the first parameter called `name`.
    pub open spec fn param_values(self, name: Seq<char>) -> Option<Seq<String>> {
        match first_param(self.params_seq(), name, 0) {
            Some(i) => Some(self.params_seq()[i].1@),
            None => None,
        }
    }

    pub fn new(name: &str, value: &str) -> (p: Property)
        ensures
            p.name@ == name@,
            p.params.is_none(),
            p.value matches Some(v) && v@ == value@,
    {
        Property { name: name.to_owned(), params: None, value: Some(value.to_owned()) }
    }

    /// Whether some parameter called `name` has `value` as its first value.
    pub fn param_has_value(&self, name: &str, value: &str) -> (r: bool)
        ensures
            r == self.has_param_value(name@, value@),
    {
        let name_key = name.to_owned();
        let value_key = value.to_owned();
        match &self.params {
            None => false,
            Some(params) => {
                let mut i: usize = 0;
                while i < params.len()
                    invariant
                        0 <= i <= params.len(),
                        params@ == self.params_seq(),
                        name_key@ == name@,
                        value_key@ == value@,
                        forall|j: int|
                            0 <= j < i ==> !(self.params_seq()[j].0@ == name@
                                && self.params_seq()[j].1@.len() > 0 && (
                            #[trigger] self.params_seq()[j]).1@[0]@ == value@),
                    decreases params.len() - i,
                {
                    if params[i].0 == name_key && params[i].1.len() > 0 && params[i].1[0]
                        == value_key {
                        return true;
                    }
                    i = i + 1;
                }
                false
            },
        }
    }

    /// The values of the first parameter called `name`.
    pub fn find_param(&self, name: &str) -> (r: Option<&Vec<String>>)
        ensures
            match r {
                Some(values) => self.param_values(name@) == Some(values@),
                None => self.param_values(name@).is_none(),
            },
    {
        let key = name.to_owned();
        match &self.params {
            None => None,
            Some(params) => {
                let mut i: usize = 0;
                while i < params.len()
                    invariant
                        0 <= i <= params.len(),
                        params@ == self.params_seq(),
                        key@ == name@,
                        first_param(params@, name@, 0) == first_param(params@, name@, i as int),
                    decreases params.len() - i,
                {
                    if params[i].0 == key {
                        return Some(&params[i].1);
                    }
                    i = i + 1;
                }
                None
            },
        }
    }
}

/// The first property called `name`.
pub fn find_property<'a>(props: &'a Vec<Property>, name: &str) -> (r: Option<&'a Property>)
    ensures
        match r {
            Some(p) => property_named(props@, name@) == Some(*p),
            None => property_named(props@, name@).is_none(),
        },
{
    let key = name.to_owned();
    let mut i: usize = 0;
    while i < props.len()
        invariant
            0 <= i <= props.len(),
            key@ == name@,
            first_named(props@, name@, 0) == first_named(props@, name@, i as int),
        decreases props.len() - i,
    {
        if props[i].name == key {
            return Some(&props[i]);
        }
        i = i + 1;
    }
    None
}

/// The value of the first property called `name`, where it has one.
pub fn find_string<'a>(props: &'a Vec<Property>, name: &str) -> (r: Option<&'a String>)
    ensures
        match r {
            Some(v) => string_named(props@, name@) == Some(*v),
            None => string_named(props@, name@).is_none(),
        },
{
    match find_property(props, name) {
        Some(p) => match &p.value {
            Some(v) => Some(v),
            None => None,
        },
        None => None,
    }
}

/// The text of the value of the first property called `name`.
pub fn find_value<'a>(props: &'a Vec<Property>, name: &str) -> (r: Option<&'a str>)
    ensures
        match r {
            Some(v) => value_named(props@, name@) == Some(v@),
            None => value_named(props@, name@).is_none(),
        },
{
    match find_property(props, name) {
        Some(p) => match &p.value {
            Some(v) => Some(v.as_str()),
            None => None,
        },
        None => None,
    }
}

} // verus!
