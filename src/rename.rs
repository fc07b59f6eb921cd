//! Names for values: a value posted under a name of its own instead of the
//! text of the expression that produced it.
use vstd::prelude::*;
use vstd::pervasive::cloned;
use crate::wire::opt_view;

verus! {

/// A value that can carry a name for posting.
pub trait Rename {
    /// The name that was set on the value, if any: none unless the type
    /// says otherwise.
    open spec fn name_spec(&self) -> Option<Seq<char>> {
        None
    }

    /// The name of the value, if one was set.
    fn get_name(&self) -> (r: Option<String>)
        ensures
            opt_view(r) == self.name_spec(),
    ;

    /// A copy of the value under `name`.
    fn rename(&self, name: &str) -> (r: Renamed<Self>) where Self: Sized + Clone
        ensures
            r.spec_name() == name@,
            cloned(*self, r.spec_data()),
    {
        Renamed { name: name.to_owned(), data: self.clone() }
    }
}

impl Rename for u8 {
    fn get_name(&self) -> (r: Option<String>) {
        None
    }
}

impl Rename for u16 {
    fn get_name(&self) -> (r: Option<String>) {
        None
    }
}

impl Rename for u32 {
    fn get_name(&self) -> (r: Option<String>) {
        None
    }
}

impl Rename for u64 {
    fn get_name(&self) -> (r: Option<String>) {
        None
    }
}

impl Rename for usize {
    fn get_name(&self) -> (r: Option<String>) {
        None
    }
}

impl Rename for i8 {
    fn get_name(&self) -> (r: Option<String>) {
        None
    }
}

impl Rename for i16 {
    fn get_name(&self) -> (r: Option<String>) {
        None
    }
}

impl Rename for i32 {
    fn get_name(&self) -> (r: Option<String>) {
        None
    }
}

impl Rename for i64 {
    fn get_name(&self) -> (r: Option<String>) {
        None
    }
}

impl Rename for i128 {
    fn get_name(&self) -> (r: Option<String>) {
        None
    }
}

impl Rename for isize {
    fn get_name(&self) -> (r: Option<String>) {
        None
    }
}

impl Rename for String {
    fn get_name(&self) -> (r: Option<String>) {
        None
    }
}

impl<'a> Rename for &'a str {
    fn get_name(&self) -> (r: Option<String>) {
        None
    }
}

impl<T: Clone> Rename for Vec<T> {
    fn get_name(&self) -> (r: Option<String>) {
        None
    }
}

impl<T: Clone, const N: usize> Rename for [T; N] {
    fn get_name(&self) -> (r: Option<String>) {
        None
    }
}

/// A copy of a value under a name.
pub struct Renamed<T> {
    name: String,
    data: T,
}

impl<T> Renamed<T> {
    pub closed spec fn spec_name(&self) -> Seq<char> {
        self.name@
    }

    pub closed spec fn spec_data(&self) -> T {
        self.data
    }

    /// The name that was set.
    pub fn name(&self) -> (r: &String)
        ensures
            r@ == self.spec_name(),
    {
        &self.name
    }
}

impl<T: Clone> Renamed<T> {
    /// A copy of the named value.
    pub fn clone(&self) -> (r: T)
        ensures
            cloned(self.spec_data(), r),
    {
        self.data.clone()
    }
}

impl<T> Rename for Renamed<T> {
    open spec fn name_spec(&self) -> Option<Seq<char>> {
        Some(self.spec_name())
    }

    fn get_name(&self) -> (r: Option<String>) {
        Some(self.name.clone())
    }
}

} // verus!
