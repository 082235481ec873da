use vstd::prelude::*;

verus! {

/// A field that registries send either as one string or as a list of strings.
#[derive(Debug, Clone)]
pub enum StringOrList {
    Text(String),
    List(Vec<String>),
}

/// The field as a list: one string is a list of one.
pub fn string_or_list(value: StringOrList) -> (r: Vec<String>)
    ensures
        r@ == match value {
            StringOrList::Text(s) => seq![s],
            StringOrList::List(v) => v@,
        },
{
    match value {
        StringOrList::Text(s) => {
            let mut list: Vec<String> = Vec::new();
            list.push(s);
            list
        },
        StringOrList::List(v) => v,
    }
}

} // verus!
