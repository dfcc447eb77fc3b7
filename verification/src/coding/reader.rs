//! A forward-only, non-owning cursor over an immutable byte slice.
//!
//! Every operation is bounds-checked and reports an out-of-range access by
//! returning an absent value instead of failing; the caller decides whether
//! that is an error. Consumed bytes are never observed again: the cursor
//! only moves forward.

use vstd::prelude::*;
use vstd::slice::{slice_index_get, slice_subrange};

verus! {

/// The closed taxonomy of read failures, for callers that classify what a
/// cursor handed back (for example a decoder built on top of `Reader`).
#[derive(Clone, Debug, Hash, PartialEq, Eq)]
pub enum ReadError<'c> {
    EndOfBuffer,
    UnexpectedChar(u8),
    UnexpectedSlice(&'c [u8]),
}

pub type ReadResult<'c, T> = Result<T, ReadError<'c>>;

/// A cursor over `original` that has consumed the bytes before `pos`.
#[derive(Debug, Hash, PartialEq, Eq)]
pub struct Reader<'a> {
    original: &'a [u8],
    pos: usize,
}

impl<'a> Reader<'a> {
    #[verifier::type_invariant]
    spec fn wf(self) -> bool {
        self.pos <= self.original@.len()
    }

    /// The whole underlying slice, which never changes.
    pub closed spec fn src(self) -> Seq<u8> {
        self.original@
    }

    /// How many bytes have been consumed so far.
    pub closed spec fn consumed(self) -> int {
        self.pos as int
    }

    /// The bytes not yet consumed.
    pub open spec fn remaining(self) -> Seq<u8> {
        self.src().skip(self.consumed())
    }

    pub fn new(slice: &[u8]) -> (r: Reader)
        ensures
            r.src() == slice@,
            r.consumed() == 0,
    {
        Reader { original: slice, pos: 0 }
    }

    /// Consumes and returns the next byte, if any.
    pub fn read(&mut self) -> (r: Option<u8>)
        ensures
            final(self).src() == old(self).src(),
            0 <= final(self).consumed() <= final(self).src().len(),
            match r {
                Some(b) => {
                    &&& old(self).remaining().len() > 0
                    &&& b == old(self).remaining()[0]
                    &&& final(self).consumed() == old(self).consumed() + 1
                },
                None => {
                    &&& old(self).remaining().len() == 0
                    &&& final(self).consumed() == old(self).consumed()
                },
            },
    {
        proof {
            use_type_invariant(&*self);
        }
        if self.pos < self.original.len() {
            let b = *slice_index_get(self.original, self.pos);
            self.pos = self.pos + 1;
            Some(b)
        } else {
            None
        }
    }

    /// Consumes the next `n` bytes and returns them as one sub-slice, or
    /// returns nothing (consuming nothing) when fewer than `n` remain.
    pub fn read_n<'b>(&'b mut self, n: usize) -> (r: Option<&'a [u8]>)
        ensures
            final(self).src() == old(self).src(),
            0 <= final(self).consumed() <= final(self).src().len(),
            match r {
                Some(s) => {
                    &&& n <= old(self).remaining().len()
                    &&& s@ == old(self).remaining().take(n as int)
                    &&& final(self).consumed() == old(self).consumed() + n
                },
                None => {
                    &&& old(self).remaining().len() < n
                    &&& final(self).consumed() == old(self).consumed()
                },
            },
    {
        proof {
            use_type_invariant(&*self);
        }
        if self.original.len() - self.pos < n {
            return None;
        }
        let ret = slice_subrange(self.original, self.pos, self.pos + n);
        self.pos = self.pos + n;
        proof {
            assert(ret@ =~= old(self).remaining().take(n as int));
        }
        Some(ret)
    }

    /// Consumes and returns the next byte only when it satisfies `pred`.
    pub fn read_pred<F: FnOnce(u8) -> bool>(&mut self, pred: F) -> (r: Option<u8>)
        requires
            forall|b: u8| pred.requires((b,)),
        ensures
            final(self).src() == old(self).src(),
            0 <= final(self).consumed() <= final(self).src().len(),
            match r {
                Some(b) => {
                    &&& old(self).remaining().len() > 0
                    &&& b == old(self).remaining()[0]
                    &&& call_ensures(pred, (b,), true)
                    &&& final(self).consumed() == old(self).consumed() + 1
                },
                None => {
                    &&& final(self).consumed() == old(self).consumed()
                    &&& old(self).remaining().len() > 0 ==> call_ensures(
                        pred,
                        (old(self).remaining()[0],),
                        false,
                    )
                },
            },
    {
        proof {
            use_type_invariant(&*self);
        }
        if let Some(value) = self.peek() {
            if pred(value) {
                self.skip();
                return Some(value);
            }
        }
        None
    }

    /// Discards one byte, if any remains.
    pub fn skip(&mut self)
        ensures
            final(self).src() == old(self).src(),
            0 <= final(self).consumed() <= final(self).src().len(),
            final(self).consumed() == if old(self).remaining().len() > 0 {
                old(self).consumed() + 1
            } else {
                old(self).consumed()
            },
    {
        let _ = self.read();
    }

    /// Discards `n` bytes; discards nothing when fewer than `n` remain.
    pub fn skip_n(&mut self, n: usize)
        ensures
            final(self).src() == old(self).src(),
            0 <= final(self).consumed() <= final(self).src().len(),
            final(self).consumed() == if n <= old(self).remaining().len() {
                old(self).consumed() + n
            } else {
                old(self).consumed()
            },
    {
        let _ = self.read_n(n);
    }

    /// Returns the next byte without consuming it.
    pub fn peek(&self) -> (r: Option<u8>)
        ensures
            match r {
                Some(b) => self.remaining().len() > 0 && b == self.remaining()[0],
                None => self.remaining().len() == 0,
            },
    {
        match self.peek_n(1) {
            Some(slice) => Some(*slice_index_get(slice, 0)),
            None => None,
        }
    }

    /// Returns the byte `index` positions ahead of the cursor without
    /// consuming anything.
    pub fn peek_at(&self, index: usize) -> (r: Option<u8>)
        ensures
            match r {
                Some(b) => index < self.remaining().len() && b == self.remaining()[index as int],
                None => self.remaining().len() <= index,
            },
    {
        proof {
            use_type_invariant(self);
        }
        if self.original.len() - self.pos <= index {
            return None;
        }
        Some(*slice_index_get(self.original, self.pos + index))
    }

    /// Returns the next `n` bytes as one sub-slice without consuming them.
    pub fn peek_n<'b>(&'b self, n: usize) -> (r: Option<&'a [u8]>)
        ensures
            match r {
                Some(s) => n <= self.remaining().len() && s@ == self.remaining().take(n as int),
                None => self.remaining().len() < n,
            },
    {
        proof {
            use_type_invariant(self);
        }
        if self.original.len() - self.pos < n {
            return None;
        }
        let ret = slice_subrange(self.original, self.pos, self.pos + n);
        proof {
            assert(ret@ =~= self.remaining().take(n as int));
        }
        Some(ret)
    }

    /// Consumes up to and including the first occurrence of `value`, and
    /// returns the bytes before it. Consumes nothing when `value` does not
    /// occur in the remaining bytes.
    pub fn read_until<'b>(&'b mut self, value: u8) -> (r: Option<&'a [u8]>)
        ensures
            final(self).src() == old(self).src(),
            0 <= final(self).consumed() <= final(self).src().len(),
            match r {
                Some(s) => {
                    &&& s@.len() < old(self).remaining().len()
                    &&& s@ == old(self).remaining().take(s@.len() as int)
                    &&& forall|j: int| 0 <= j < s@.len() ==> old(self).remaining()[j] != value
                    &&& old(self).remaining()[s@.len() as int] == value
                    &&& final(self).consumed() == old(self).consumed() + s@.len() + 1
                },
                None => {
                    &&& forall|j: int|
                        0 <= j < old(self).remaining().len() ==> old(self).remaining()[j] != value
                    &&& final(self).consumed() == old(self).consumed()
                },
            },
    {
        proof {
            use_type_invariant(&*self);
        }
        let end = self.original.len() - self.pos;
        let mut i: usize = 0;
        while i < end
            invariant
                *self == *old(self),
                end == self.remaining().len(),
                i <= end,
                forall|j: int| 0 <= j < i ==> self.remaining()[j] != value,
                self.wf(),
            decreases end - i,
        {
            if self.peek_at(i).unwrap() == value {
                let ret = self.read_n(i).unwrap();
                self.skip();
                return Some(ret);
            }
            i = i + 1;
        }
        None
    }

    /// Like `read_until`, but consumes and returns the whole remainder when
    /// `value` does not occur.
    pub fn read_until_or_end<'b>(&'b mut self, value: u8) -> (r: &'a [u8])
        ensures
            final(self).src() == old(self).src(),
            0 <= final(self).consumed() <= final(self).src().len(),
            r@.len() <= old(self).remaining().len(),
            r@ == old(self).remaining().take(r@.len() as int),
            forall|j: int| 0 <= j < r@.len() ==> old(self).remaining()[j] != value,
            if r@.len() < old(self).remaining().len() {
                old(self).remaining()[r@.len() as int] == value && final(self).consumed() == old(
                    self,
                ).consumed() + r@.len() + 1
            } else {
                final(self).consumed() == old(self).consumed() + r@.len()
            },
    {
        proof {
            use_type_invariant(&*self);
        }
        match self.read_until(value) {
            Some(ret) => ret,
            None => {
                let len = self.original.len() - self.pos;
                let ret = self.read_n(len).unwrap();
                proof {
                    assert(ret@ =~= old(self).remaining());
                }
                ret
            },
        }
    }

    /// True when every byte has been consumed.
    pub fn at_end(&self) -> (r: bool)
        ensures
            r == (self.remaining().len() == 0),
    {
        proof {
            use_type_invariant(self);
        }
        self.original.len() - self.pos == 0
    }

    /// How many bytes have been consumed so far.
    pub fn read_amount_bytes(&self) -> (r: usize)
        ensures
            r == self.consumed(),
            0 <= self.consumed() <= self.src().len(),
    {
        proof {
            use_type_invariant(self);
        }
        self.pos
    }
}

} // verus!
