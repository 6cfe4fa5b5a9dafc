//! The semantics the generated marshalling code must implement, as
//! verified functions: decoding raw `(data, len)` pairs, nullable
//! pointers and tagged wrappers back into rich values, and the ownership
//! discipline of generated destructors.

use vstd::prelude::*;

verus! {

/// Rebuild a borrowed slice from its raw `(data, len)` pair. The memory
/// behind the data pointer is modelled as `data`; a null or dangling
/// pointer is `None`, which the boundary contract allows only when the
/// length is zero. A zero length yields the canonical empty value and
/// never reads through the pointer — `data` may then be anything.
pub fn decode_slice<T: Copy>(data: Option<&Vec<T>>, len: usize) -> (r: Vec<T>)
    requires
        len > 0 ==> (data matches Some(d) && d@.len() == len),
    ensures
        r@.len() == len,
        len == 0 ==> r@ == Seq::<T>::empty(),
        len > 0 ==> r@ == data.unwrap()@,
{
    if len == 0 {
        Vec::new()
    } else {
        let d = data.unwrap();
        let mut v: Vec<T> = Vec::new();
        let mut i: usize = 0;
        while i < len
            invariant
                i <= len,
                d@.len() == len,
                v@ == d@.subrange(0, i as int),
            decreases len - i,
        {
            v.push(d[i]);
            proof {
                assert(v@ =~= d@.subrange(0, i as int + 1));
            }
            i += 1;
        }
        proof {
            assert(d@.subrange(0, len as int) =~= d@);
        }
        v
    }
}

/// Rebuild an owned slice from its raw pair: the shim takes over the
/// whole allocation as one unit, so the foreign side must never touch
/// the pointer again — modelled here by moving the allocation in. A zero
/// length yields the canonical empty value without touching the pointer.
pub fn decode_owned_slice<T>(data: Option<Vec<T>>, len: usize) -> (r: Vec<T>)
    requires
        len > 0 ==> (data matches Some(d) && d@.len() == len),
    ensures
        r@.len() == len,
        len == 0 ==> r@ == Seq::<T>::empty(),
        len > 0 ==> r@ == data.unwrap()@,
{
    if len == 0 {
        Vec::new()
    } else {
        data.unwrap()
    }
}

/// A nullable pointer as it crosses the boundary: null, or a handle
/// carrying the value.
pub enum NullablePtr<T> {
    Null,
    Addr(T),
}

pub open spec fn spec_encode_option_ptr<T>(v: Option<T>) -> NullablePtr<T> {
    match v {
        Some(x) => NullablePtr::Addr(x),
        None => NullablePtr::Null,
    }
}

pub open spec fn spec_decode_option_ptr<T>(p: NullablePtr<T>) -> Option<T> {
    match p {
        NullablePtr::Null => None,
        NullablePtr::Addr(x) => Some(x),
    }
}

/// Encode an optional pointer-representable value: present becomes the
/// pointer itself, absent becomes null. No wrapper type is involved.
pub fn encode_option_ptr<T>(v: Option<T>) -> (r: NullablePtr<T>)
    ensures
        r == spec_encode_option_ptr(v),
{
    match v {
        Some(x) => NullablePtr::Addr(x),
        None => NullablePtr::Null,
    }
}

/// Decode a nullable pointer: null means absent, anything else carries
/// the value.
pub fn decode_option_ptr<T>(p: NullablePtr<T>) -> (r: Option<T>)
    ensures
        r == spec_decode_option_ptr(p),
{
    match p {
        NullablePtr::Null => None,
        NullablePtr::Addr(x) => Some(x),
    }
}

/// Round trip for optional pointer-representable values: a null pointer
/// decodes to absent and a non-null pointer decodes to present carrying
/// the original value, for every value.
pub proof fn lemma_option_ptr_round_trip<T>(v: Option<T>)
    ensures
        spec_decode_option_ptr(spec_encode_option_ptr(v)) == v,
{
}

/// The tagged union a fallible or value-class optional result crosses
/// the boundary as: a discriminant plus at most one live payload.
pub struct ResultRepr<T, E> {
    pub is_ok: bool,
    pub ok: Option<T>,
    pub err: Option<E>,
}

impl<T, E> ResultRepr<T, E> {
    /// Exactly the side selected by the discriminant is live.
    pub open spec fn wf(&self) -> bool {
        &&& self.is_ok ==> self.err is None
        &&& !self.is_ok ==> self.ok is None
    }
}

pub open spec fn spec_encode_result<T, E>(v: Result<T, E>) -> ResultRepr<T, E> {
    match v {
        Ok(x) => ResultRepr { is_ok: true, ok: Some(x), err: None },
        Err(e) => ResultRepr { is_ok: false, ok: None, err: Some(e) },
    }
}

pub open spec fn spec_decode_result<T, E>(r: ResultRepr<T, E>) -> Result<T, Option<E>> {
    if r.is_ok {
        match r.ok {
            Some(x) => Ok(x),
            None => Err(None),
        }
    } else {
        Err(r.err)
    }
}

/// Encode a fallible result into the tagged wrapper: a success sets the
/// discriminant and carries the ok payload, a failure clears it and
/// carries the error payload.
pub fn encode_result<T, E>(v: Result<T, E>) -> (r: ResultRepr<T, E>)
    ensures
        r == spec_encode_result(v),
        r.wf(),
        r.is_ok == (v is Ok),
        v matches Ok(x) ==> r.ok == Some(x),
        v matches Err(e) ==> r.err == Some(e),
{
    match v {
        Ok(x) => ResultRepr { is_ok: true, ok: Some(x), err: None },
        Err(e) => ResultRepr { is_ok: false, ok: None, err: Some(e) },
    }
}

/// Encode a value-class optional through the wrapper mechanism with an
/// empty error side: present is a success carrying the value, absent a
/// failure carrying nothing.
pub fn encode_option_value<T>(v: Option<T>) -> (r: ResultRepr<T, ()>)
    ensures
        r.wf(),
        r.is_ok == (v is Some),
        v matches Some(x) ==> r.ok == Some(x),
        v is None ==> r.ok is None,
{
    match v {
        Some(x) => ResultRepr { is_ok: true, ok: Some(x), err: None },
        None => ResultRepr { is_ok: false, ok: None, err: Some(()) },
    }
}

/// Decode a value-class optional from its wrapper.
pub fn decode_option_value<T>(r: ResultRepr<T, ()>) -> (v: Option<T>)
    requires
        r.wf(),
        r.is_ok ==> r.ok is Some,
    ensures
        v == if r.is_ok {
            r.ok
        } else {
            None::<T>
        },
{
    if r.is_ok {
        match r.ok {
            Some(x) => Some(x),
            None => None,
        }
    } else {
        None
    }
}

/// Round trip for value-class optionals: the wrapper made from a value
/// decodes back to exactly that value, for every value.
pub proof fn lemma_option_value_round_trip<T>(v: Option<T>)
    ensures
        ({
            let r = match v {
                Some(x) => ResultRepr::<T, ()> { is_ok: true, ok: Some(x), err: None },
                None => ResultRepr::<T, ()> { is_ok: false, ok: None, err: Some(()) },
            };
            &&& r.wf()
            &&& (if r.is_ok {
                r.ok
            } else {
                None::<T>
            }) == v
        }),
{
}

/// How many handles of `s` are still live.
pub open spec fn count_live(s: Seq<bool>) -> nat
    decreases s.len(),
{
    if s.len() == 0 {
        0
    } else {
        count_live(s.drop_last()) + if s.last() {
            1nat
        } else {
            0nat
        }
    }
}

proof fn lemma_count_live_push(s: Seq<bool>, b: bool)
    ensures
        count_live(s.push(b)) == count_live(s) + if b {
            1nat
        } else {
            0nat
        },
{
    assert(s.push(b).drop_last() =~= s);
    assert(s.push(b).last() == b);
}

proof fn lemma_count_live_clear(s: Seq<bool>, i: int)
    requires
        0 <= i < s.len(),
        s[i],
    ensures
        count_live(s.update(i, false)) + 1 == count_live(s),
    decreases s.len(),
{
    if i == s.len() - 1 {
        assert(s.update(i, false).drop_last() =~= s.drop_last());
        assert(!s.update(i, false).last());
    } else {
        lemma_count_live_clear(s.drop_last(), i);
        assert(s.update(i, false).drop_last() =~= s.drop_last().update(i, false));
        assert(s.update(i, false).last() == s.last());
    }
}

/// The ownership ledger of the opaque instances a generated module has
/// handed across the boundary: one slot per handle ever allocated,
/// recording whether it is still live. The generated destructor is the
/// single owner of deallocation: releasing a handle demands that it is
/// still live, so a verified caller can never release the same handle
/// twice, and each release frees exactly one instance.
pub struct HandleLedger {
    pub live: Vec<bool>,
}

impl HandleLedger {
    /// How many instances are still live.
    pub open spec fn live_count(&self) -> nat {
        count_live(self.live@)
    }

    pub fn new() -> (r: HandleLedger)
        ensures
            r.live_count() == 0,
            r.live@.len() == 0,
    {
        HandleLedger { live: Vec::new() }
    }

    /// Hand a new instance across the boundary; the returned handle is
    /// live until released.
    pub fn issue(&mut self) -> (id: usize)
        requires
            old(self).live@.len() < usize::MAX,
        ensures
            final(self).live_count() == old(self).live_count() + 1,
            final(self).live@.len() == old(self).live@.len() + 1,
            id == old(self).live@.len(),
            final(self).live@ == old(self).live@.push(true),
    {
        let id = self.live.len();
        self.live.push(true);
        proof {
            lemma_count_live_push(old(self).live@, true);
        }
        id
    }

    /// Release one live handle: exactly one instance is freed, and a
    /// handle that was already released cannot be released again.
    pub fn release(&mut self, id: usize) -> (freed: bool)
        requires
            id < old(self).live@.len(),
            old(self).live@[id as int],
        ensures
            freed,
            final(self).live_count() + 1 == old(self).live_count(),
            final(self).live@ == old(self).live@.update(id as int, false),
    {
        self.live.set(id, false);
        proof {
            lemma_count_live_clear(old(self).live@, id as int);
        }
        true
    }
}

/// Destroying every live handle of a ledger leaves zero live instances:
/// the live count equals the number of live slots, so after each of the
/// `n` allocated handles has been released once, nothing remains live
/// and no release could have run twice.
pub proof fn lemma_all_released_none_live(s: Seq<bool>)
    requires
        forall|i: int| 0 <= i < s.len() ==> !s[i],
    ensures
        count_live(s) == 0,
    decreases s.len(),
{
    if s.len() > 0 {
        lemma_all_released_none_live(s.drop_last());
    }
}

} // verus!
