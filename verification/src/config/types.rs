//! The words that the tree shows for the types of values.

use vstd::prelude::*;
use vstd::string::*;

verus! {

/// The word for each type of value.
#[derive(Debug, PartialEq, Eq)]
pub struct Types {
    pub str: String,
    pub null: String,
    pub bool: String,
    pub num: String,
    pub arr: String,
    pub obj: String,
}

impl Types {
    /// Each type has its own short name.
    pub open spec fn is_default(&self) -> bool {
        &&& self.str@ == "str"@
        &&& self.null@ == "null"@
        &&& self.bool@ == "bool"@
        &&& self.num@ == "num"@
        &&& self.arr@ == "arr"@
        &&& self.obj@ == "obj"@
    }

    /// The word for the type `str`.
    pub fn default_str() -> (r: String)
        ensures
            r@ == "str"@,
    {
        String::from_str("str")
    }

    /// The word for the type `null`.
    pub fn default_null() -> (r: String)
        ensures
            r@ == "null"@,
    {
        String::from_str("null")
    }

    /// The word for the type `bool`.
    pub fn default_bool() -> (r: String)
        ensures
            r@ == "bool"@,
    {
        String::from_str("bool")
    }

    /// The word for the type `num`.
    pub fn default_num() -> (r: String)
        ensures
            r@ == "num"@,
    {
        String::from_str("num")
    }

    /// The word for the type `arr`.
    pub fn default_arr() -> (r: String)
        ensures
            r@ == "arr"@,
    {
        String::from_str("arr")
    }

    /// The word for the type `obj`.
    pub fn default_obj() -> (r: String)
        ensures
            r@ == "obj"@,
    {
        String::from_str("obj")
    }

    /// Each type under its own short name.
    pub fn default() -> (r: Types)
        ensures
            r.is_default(),
    {
        Types {
            str: Types::default_str(),
            null: Types::default_null(),
            bool: Types::default_bool(),
            num: Types::default_num(),
            arr: Types::default_arr(),
            obj: Types::default_obj(),
        }
    }
}

} // verus!
