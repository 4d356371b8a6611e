//! Fields of JSON objects by the type that is asked for.

use vstd::prelude::*;

use crate::json::{fields_view, items_view, Json, JsonView};
use crate::text::opt_str;

verus! {

/// Access to the fields of an object.
pub trait ValueExt {
    /// What the value says.
    spec fn said(&self) -> JsonView;

    fn str_field(&self, key: &str) -> (r: Option<&str>)
        ensures
            opt_str(r) == crate::json::text_of(self.said().field(key@)),
    ;

    fn str_or<'a>(&'a self, key: &str, default: &'a str) -> (r: &'a str)
        ensures
            r@ == (match crate::json::text_of(self.said().field(key@)) {
                Some(s) => s,
                None => default@,
            }),
    ;

    fn u64_field(&self, key: &str) -> (r: Option<u64>)
        ensures
            r == (match self.said().field(key@) {
                Some(j) => j.uint(),
                None => None,
            }),
    ;

    fn bool_field(&self, key: &str) -> (r: Option<bool>)
        ensures
            r == (match self.said().field(key@) {
                Some(j) => j.boolean(),
                None => None,
            }),
    ;

    fn bool_or(&self, key: &str, default: bool) -> (r: bool)
        ensures
            r == (match self.said().field(key@) {
                Some(j) => match j.boolean() {
                    Some(b) => b,
                    None => default,
                },
                None => default,
            }),
    ;

    fn array_field(&self, key: &str) -> (r: Option<&Vec<Json>>)
        ensures
            match r {
                Some(v) => self.said().field(key@) is Some && self.said().field(key@)->0.items()
                    == Some(items_view(v@)),
                None => self.said().field(key@) is None || self.said().field(key@)->0.items()
                    is None,
            },
    ;

    fn object_field(&self, key: &str) -> (r: Option<&Vec<(String, Json)>>)
        ensures
            match r {
                Some(v) => self.said().field(key@) is Some && self.said().field(key@)->0.fields()
                    == Some(fields_view(v@)),
                None => self.said().field(key@) is None || self.said().field(key@)->0.fields()
                    is None,
            },
    ;
}

impl ValueExt for Json {
    open spec fn said(&self) -> JsonView {
        self.jv()
    }

    fn str_field(&self, key: &str) -> (r: Option<&str>) {
        match self.get(key) {
            Some(j) => j.as_str(),
            None => None,
        }
    }

    fn str_or<'a>(&'a self, key: &str, default: &'a str) -> (r: &'a str) {
        match self.str_field(key) {
            Some(s) => s,
            None => default,
        }
    }

    fn u64_field(&self, key: &str) -> (r: Option<u64>) {
        match self.get(key) {
            Some(j) => j.as_u64(),
            None => None,
        }
    }

    fn bool_field(&self, key: &str) -> (r: Option<bool>) {
        match self.get(key) {
            Some(j) => j.as_bool(),
            None => None,
        }
    }

    fn bool_or(&self, key: &str, default: bool) -> (r: bool) {
        match self.bool_field(key) {
            Some(b) => b,
            None => default,
        }
    }

    fn array_field(&self, key: &str) -> (r: Option<&Vec<Json>>) {
        match self.get(key) {
            Some(j) => j.as_array(),
            None => None,
        }
    }

    fn object_field(&self, key: &str) -> (r: Option<&Vec<(String, Json)>>) {
        match self.get(key) {
            Some(j) => match j {
                Json::Obj(fields) => Some(fields),
                _ => None,
            },
            None => None,
        }
    }
}

} // verus!
