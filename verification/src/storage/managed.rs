use vstd::prelude::*;

verus! {

/// Octets that are owned, or lent for as long as `'a`.
#[derive(Debug)]
pub enum ManagedSlice<'a> {
    Borrowed(&'a mut [u8]),
    Owned(Vec<u8>),
}

impl<'a> View for ManagedSlice<'a> {
    type V = Seq<u8>;

    open spec fn view(&self) -> Seq<u8> {
        match self {
            ManagedSlice::Borrowed(slice) => slice@,
            ManagedSlice::Owned(vec) => vec@,
        }
    }
}

impl<'a> ManagedSlice<'a> {
    pub proof fn lemma_len_fits(&self)
        ensures
            self@.len() <= usize::MAX,
    {
        match self {
            ManagedSlice::Borrowed(slice) => assert(slice@.len() == slice.len()),
            ManagedSlice::Owned(vec) => assert(vec@.len() == vec.len()),
        }
    }

    pub fn len(&self) -> (r: usize)
        ensures
            r == self@.len(),
    {
        match self {
            ManagedSlice::Borrowed(slice) => slice.len(),
            ManagedSlice::Owned(vec) => vec.len(),
        }
    }

    pub fn get(&self, i: usize) -> (r: u8)
        requires
            i < self@.len(),
        ensures
            r == self@[i as int],
    {
        match self {
            ManagedSlice::Borrowed(slice) => slice[i],
            ManagedSlice::Owned(vec) => vec[i],
        }
    }

    pub fn set(&mut self, i: usize, octet: u8)
        requires
            i < old(self)@.len(),
        ensures
            final(self)@ == old(self)@.update(i as int, octet),
    {
        match self {
            ManagedSlice::Borrowed(slice) => {
                slice[i] = octet;
            },
            ManagedSlice::Owned(vec) => {
                vec[i] = octet;
            },
        }
    }
}

} // verus!
