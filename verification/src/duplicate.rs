//! Copies that keep every field: derived `Clone` gives Verus nothing to go
//! on, so the library's types copy themselves through `Duplicate`.

use vstd::prelude::*;

verus! {

/// A copy equal to the value copied.
pub trait Duplicate: Sized {
    fn duplicate(&self) -> (r: Self)
        ensures
            r == *self,
    ;
}

impl Duplicate for String {
    fn duplicate(&self) -> (r: String) {
        self.clone()
    }
}

impl Duplicate for i32 {
    fn duplicate(&self) -> (r: i32) {
        *self
    }
}

pub fn duplicate_option<T: Duplicate>(o: &Option<T>) -> (r: Option<T>)
    ensures
        r == *o,
{
    match o {
        Some(x) => Some(x.duplicate()),
        None => None,
    }
}

pub fn duplicate_vec<T: Duplicate>(v: &Vec<T>) -> (r: Vec<T>)
    ensures
        r@ == v@,
{
    let mut out: Vec<T> = Vec::new();
    let mut i: usize = 0;
    while i < v.len()
        invariant
            0 <= i <= v.len(),
            out@ == v@.take(i as int),
        decreases v.len() - i,
    {
        out.push(v[i].duplicate());
        i = i + 1;
        assert(out@ =~= v@.take(i as int));
    }
    assert(v@.take(v.len() as int) =~= v@);
    out
}

} // verus!
