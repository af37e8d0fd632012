//! A small record that describes itself.

use crate::text::{i64_to_decimal, push_text, signed_decimal};
use vstd::prelude::*;
use vstd::string::*;

verus! {

/// A number and a text.
pub struct Ex {
    param: i32,
    para: String,
}

/// The line an `Ex` prints about itself.
pub open spec fn ex_line(param: int, para: Seq<char>) -> Seq<char> {
    "zooweemama param:"@ + signed_decimal(param) + " with param2:"@ + para + "!"@
}

impl Ex {
    /// An `Ex` holding `param` and `para`.
    pub fn new(param: i32, para: String) -> (ex: Self)
        ensures
            ex.param() == param,
            ex.para() == para,
    {
        Ex { param, para }
    }

    /// The number held.
    pub closed spec fn param(&self) -> i32 {
        self.param
    }

    /// The text held.
    pub closed spec fn para(&self) -> String {
        self.para
    }

    /// The line this `Ex` prints about itself.
    pub fn describe(&self) -> (s: String)
        ensures
            s@ == ex_line(self.param() as int, self.para()@),
    {
        let mut s = "zooweemama param:".to_owned();
        let n = i64_to_decimal(self.param as i64);
        push_text(&mut s, n.as_str());
        push_text(&mut s, " with param2:");
        push_text(&mut s, self.para.as_str());
        push_text(&mut s, "!");
        s
    }
}

} // verus!
