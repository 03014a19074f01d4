//! A newtype that brands a value with a marker type.
use vstd::prelude::*;
use std::marker::PhantomData;
use vstd::std_specs::cmp::PartialEqSpec;

verus! {

/// A marker type that gives a branded type its name.
pub trait Tag {
    const NAME: &'static str;
}

/// A value of type `Inner` under the brand `Tag`: a type of its own, apart
/// from `Inner` and from other brands of it.
pub struct Branded<Tag, Inner>(PhantomData<Tag>, Inner);

impl<Tag, Inner> Branded<Tag, Inner> {
    /// The value under the brand.
    pub closed spec fn inner(&self) -> Inner {
        self.1
    }
}

impl<Tag, Inner> From<Inner> for Branded<Tag, Inner> {
    fn from(inner: Inner) -> (r: Self)
        ensures
            r.inner() == inner,
    {
        Branded(PhantomData, inner)
    }
}

impl<Tag, Inner> vstd::std_specs::convert::FromSpecImpl<Inner> for Branded<Tag, Inner> {
    open spec fn obeys_from_spec() -> bool {
        true
    }

    closed spec fn from_spec(v: Inner) -> Self {
        Branded(PhantomData, v)
    }
}

impl<Tag, Inner> std::ops::Deref for Branded<Tag, Inner> {
    type Target = Inner;

    fn deref(&self) -> (r: &Inner)
        ensures
            *r == self.inner(),
    {
        &self.1
    }
}

impl<Tag, Inner> AsRef<Inner> for Branded<Tag, Inner> {
    fn as_ref(&self) -> (r: &Inner)
        ensures
            *r == self.inner(),
    {
        &self.1
    }
}

impl<Tag, Inner: PartialEq> PartialEq for Branded<Tag, Inner> {
    fn eq(&self, other: &Self) -> (r: bool) {
        self.1 == other.1
    }
}

impl<Tag, Inner: PartialEq> vstd::std_specs::cmp::PartialEqSpecImpl for Branded<Tag, Inner> {
    open spec fn obeys_eq_spec() -> bool {
        <Inner as PartialEqSpec>::obeys_eq_spec()
    }

    open spec fn eq_spec(&self, other: &Self) -> bool {
        self.inner().eq_spec(&other.inner())
    }
}

impl<Tag, Inner: Clone> Clone for Branded<Tag, Inner> {
    fn clone(&self) -> (r: Self) {
        Branded(PhantomData, self.1.clone())
    }
}

impl<Tag, Inner: Copy> Copy for Branded<Tag, Inner> {

}

} // verus!
