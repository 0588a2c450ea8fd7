//! Reference-tracking state that the writer and the reader can carry, so
//! that an object met twice is written once and referred to by its id.
use crate::error::{refused_with, ErrorKind, MemoryPackError};
use crate::reader::{str_to_string, string_push};
use std::any::Any;
use std::collections::HashMap;
use vstd::prelude::*;

verus! {

broadcast use vstd::std_specs::hash::group_hash_axioms;

/// Writer-side state: the id given to each object identity met so far.
pub struct MemoryPackWriterOptionalState {
    next_id: u32,
    object_to_ref: HashMap<usize, u32>,
}

impl MemoryPackWriterOptionalState {
    /// The id that the next new object will get.
    pub closed spec fn next_id(&self) -> u32 {
        self.next_id
    }

    /// The id given to each object identity met so far.
    pub closed spec fn references(&self) -> Map<usize, u32> {
        self.object_to_ref@
    }

    /// Every id given so far is below the next id, and no two objects share one.
    pub open spec fn wf(&self) -> bool {
        &&& forall|k: usize| #[trigger]
            self.references().contains_key(k) ==> self.references()[k] < self.next_id()
        &&& forall|k1: usize, k2: usize|
            #[trigger] self.references().contains_key(k1) && #[trigger] self.references().contains_key(k2)
                && k1 != k2 ==> self.references()[k1] != self.references()[k2]
    }

    pub fn new() -> (s: Self)
        ensures
            s.wf(),
            s.next_id() == 0,
            s.references() == Map::<usize, u32>::empty(),
    {
        Self { next_id: 0, object_to_ref: HashMap::new() }
    }

    /// Forgets every object met so far.
    pub fn reset(&mut self)
        ensures
            final(self).wf(),
            final(self).next_id() == 0,
            final(self).references() == Map::<usize, u32>::empty(),
    {
        self.object_to_ref.clear();
        self.next_id = 0;
    }

    /// Whether `get_or_add_reference` can take `key`: it was met before, or
    /// an id is left to give it.
    pub fn can_get_or_add(&self, key: usize) -> (r: bool)
        ensures
            r == (self.references().contains_key(key) || self.next_id() < u32::MAX),
    {
        self.object_to_ref.contains_key(&key) || self.next_id < u32::MAX
    }

    /// Looks up the object whose identity is `key`. If it was met before,
    /// returns `(true, its id)`; otherwise gives it the next id and returns
    /// `(false, that id)`.
    pub fn get_or_add_reference(&mut self, key: usize) -> (r: (bool, u32))
        requires
            old(self).wf(),
            old(self).references().contains_key(key) || old(self).next_id() < u32::MAX,
        ensures
            final(self).wf(),
            reference_step(*old(self), *final(self), key, r),
    {
        if let Some(id) = self.object_to_ref.get(&key) {
            (true, *id)
        } else {
            let id = self.next_id;
            self.next_id = id + 1;
            self.object_to_ref.insert(key, id);
            proof {
                let m = self.references();
                assert forall|k: usize| #[trigger] m.contains_key(k) implies m[k] < self.next_id() by {
                    if k != key {
                        assert(old(self).references().contains_key(k));
                    }
                }
                assert forall|k1: usize, k2: usize|
                    #[trigger] m.contains_key(k1) && #[trigger] m.contains_key(k2) && k1 != k2
                    implies m[k1] != m[k2] by {
                    if k1 != key && k2 != key {
                        assert(old(self).references().contains_key(k1));
                        assert(old(self).references().contains_key(k2));
                    } else if k1 == key {
                        assert(old(self).references().contains_key(k2));
                    } else {
                        assert(old(self).references().contains_key(k1));
                    }
                }
            }
            (false, id)
        }
    }
}

/// What one call of `get_or_add_reference` with `key` does, going from
/// state `s0` to state `s1` and returning `r`.
pub open spec fn reference_step(
    s0: MemoryPackWriterOptionalState,
    s1: MemoryPackWriterOptionalState,
    key: usize,
    r: (bool, u32),
) -> bool {
    if s0.references().contains_key(key) {
        &&& r == (true, s0.references()[key])
        &&& s1.references() == s0.references()
        &&& s1.next_id() == s0.next_id()
    } else {
        &&& r == (false, s0.next_id())
        &&& s1.references() == s0.references().insert(key, s0.next_id())
        &&& s1.next_id() == s0.next_id() + 1
    }
}

/// Asking twice for the same object gives the same id, and the second
/// answer says that the object was met before.
pub proof fn lemma_reference_is_stable(
    s0: MemoryPackWriterOptionalState,
    s1: MemoryPackWriterOptionalState,
    s2: MemoryPackWriterOptionalState,
    key: usize,
    r1: (bool, u32),
    r2: (bool, u32),
)
    requires
        reference_step(s0, s1, key, r1),
        reference_step(s1, s2, key, r2),
    ensures
        r2 == (true, r1.1),
        s2.references() == s1.references(),
{
}

/// Two different objects never share an id.
pub proof fn lemma_references_are_distinct(
    s0: MemoryPackWriterOptionalState,
    s1: MemoryPackWriterOptionalState,
    s2: MemoryPackWriterOptionalState,
    k1: usize,
    k2: usize,
    r1: (bool, u32),
    r2: (bool, u32),
)
    requires
        reference_step(s0, s1, k1, r1),
        reference_step(s1, s2, k2, r2),
        s0.wf(),
        k1 != k2,
    ensures
        r1.1 != r2.1,
{
    assert(s1.references().contains_key(k1));
}

impl Default for MemoryPackWriterOptionalState {
    fn default() -> (s: Self)
        ensures
            s.wf(),
            s.next_id() == 0,
            s.references() == Map::<usize, u32>::empty(),
    {
        Self::new()
    }
}

/// The objects that a reader has met, by reference id. The objects are of
/// any type, which Verus cannot hold, so the table is opaque to it.
#[verifier::external_body]
pub struct ObjectTable {
    objects: HashMap<u32, Box<dyn Any>>,
}

/// The ids that an object table holds an object for.
pub uninterp spec fn object_ids(t: ObjectTable) -> Set<u32>;

/// `HashMap::new`: a table with no objects.
#[verifier::external_body]
fn table_new() -> (t: ObjectTable)
    ensures
        object_ids(t) == Set::<u32>::empty(),
{
    ObjectTable { objects: HashMap::new() }
}

/// `HashMap::clear`: removes every object.
#[verifier::external_body]
fn table_clear(t: &mut ObjectTable)
    ensures
        object_ids(*final(t)) == Set::<u32>::empty(),
{
    t.objects.clear()
}

/// `HashMap::contains_key`: whether an object is held for `id`.
#[verifier::external_body]
fn table_contains(t: &ObjectTable, id: u32) -> (r: bool)
    ensures
        r == object_ids(*t).contains(id),
{
    t.objects.contains_key(&id)
}

/// `HashMap::insert` of the boxed object: `id` then holds `value`, in place
/// of what it held before.
#[verifier::external_body]
fn table_insert<T: 'static>(t: &mut ObjectTable, id: u32, value: T)
    ensures
        object_ids(*final(t)) == object_ids(*old(t)).insert(id),
{
    t.objects.insert(id, Box::new(value));
}

/// `HashMap::get` followed by `downcast_ref` and `cloned`: a copy of the
/// object held for `id` when one is held and it is a `T`. Which type the held
/// object has is not modeled, so when `id` is held nothing says whether the
/// result is `Some`.
#[verifier::external_body]
fn table_get_cloned<T: 'static + Clone>(t: &ObjectTable, id: u32) -> (r: Option<T>)
    ensures
        r is Some ==> object_ids(*t).contains(id),
{
    t.objects.get(&id).and_then(|b| b.downcast_ref::<T>()).cloned()
}

/// The character of the decimal digit `d`.
pub open spec fn digit_char(d: nat) -> char {
    ((d + 48) as u8) as char
}

/// The decimal digits of `n`, most significant first, with no leading
/// zero; zero is the single digit `0`.
pub open spec fn decimal_text(n: nat) -> Seq<char>
    decreases n,
{
    if n < 10 {
        seq![digit_char(n)]
    } else {
        decimal_text(n / 10).push(digit_char(n % 10))
    }
}

/// The message that names an object reference id: `prefix`, then the id
/// in decimal.
pub open spec fn reference_text(prefix: Seq<char>, id: u32) -> Seq<char> {
    prefix + decimal_text(id as nat)
}

/// Appends the decimal digits of `n` to `s`.
pub(crate) fn push_decimal(s: &mut String, n: u32)
    ensures
        final(s)@ == old(s)@ + decimal_text(n as nat),
    decreases n,
{
    if n >= 10 {
        push_decimal(s, n / 10);
    }
    let d: u8 = (n % 10) as u8;
    let c: char = (d + 48) as char;
    assert(c == digit_char((n % 10) as nat));
    string_push(s, c);
    proof {
        if n >= 10 {
            assert(decimal_text(n as nat) == decimal_text((n / 10) as nat).push(digit_char((n % 10) as nat)));
        } else {
            assert(decimal_text(n as nat) == seq![digit_char(n as nat)]);
        }
        assert(s@ =~= old(s)@ + decimal_text(n as nat));
    }
}

/// The message that goes with a failed lookup of `id`: the prefix, then
/// the id in decimal.
fn reference_message(prefix: &str, id: u32) -> (r: String)
    ensures
        r@ == reference_text(prefix@, id),
{
    let mut s = str_to_string(prefix);
    push_decimal(&mut s, id);
    s
}

/// Reader-side state: the objects met so far, by reference id.
pub struct MemoryPackReaderOptionalState {
    ref_to_object: ObjectTable,
}

impl MemoryPackReaderOptionalState {
    /// The ids for which an object is held.
    pub closed spec fn ids(&self) -> Set<u32> {
        object_ids(self.ref_to_object)
    }

    pub fn new() -> (s: Self)
        ensures
            s.ids() == Set::<u32>::empty(),
    {
        Self { ref_to_object: table_new() }
    }

    pub fn reset(&mut self)
        ensures
            final(self).ids() == Set::<u32>::empty(),
    {
        table_clear(&mut self.ref_to_object);
    }

    /// A copy of the object held for `id`. Fails with a deserialization
    /// error when no object is held for `id`, or when it is not a `T`.
    pub fn get_object_reference<T: 'static + Clone>(&self, id: u32) -> (r: Result<T, MemoryPackError>)
        ensures
            !self.ids().contains(id) ==> (r matches Err(e) && e@ == ErrorKind::DeserializationError),
            r matches Err(e) ==> e@ == ErrorKind::DeserializationError,
            refused_with(r, reference_text("Object is not found in this reference id: "@, id)),
    {
        match table_get_cloned::<T>(&self.ref_to_object, id) {
            Some(v) => Ok(v),
            None => Err(
                MemoryPackError::DeserializationError(
                    reference_message("Object is not found in this reference id: ", id),
                ),
            ),
        }
    }

    /// Holds `value` for `id`; fails, changing nothing, when an object is
    /// already held for `id`.
    pub fn add_object_reference<T: 'static>(&mut self, id: u32, value: T) -> (r: Result<(), MemoryPackError>)
        ensures
            add_step(*old(self), *final(self), id, r),
            refused_with(r, reference_text("Object is already added, id: "@, id)),
    {
        if table_contains(&self.ref_to_object, id) {
            return Err(
                MemoryPackError::DeserializationError(
                    reference_message("Object is already added, id: ", id),
                ),
            );
        }
        table_insert(&mut self.ref_to_object, id, value);
        Ok(())
    }

    /// Replaces the object held for `id` by `value`; fails, changing
    /// nothing, when no object is held for `id`.
    pub fn update_object_reference<T: 'static>(&mut self, id: u32, value: T) -> (r: Result<(), MemoryPackError>)
        ensures
            final(self).ids() == old(self).ids(),
            r is Ok <==> old(self).ids().contains(id),
            r matches Err(e) ==> e@ == ErrorKind::DeserializationError,
            refused_with(r, reference_text("Object not found for update, id: "@, id)),
    {
        if table_contains(&self.ref_to_object, id) {
            table_insert(&mut self.ref_to_object, id, value);
            assert(self.ids() =~= old(self).ids());
            Ok(())
        } else {
            Err(
                MemoryPackError::DeserializationError(
                    reference_message("Object not found for update, id: ", id),
                ),
            )
        }
    }
}

/// What one call of `add_object_reference` with `id` does, going from state
/// `s0` to state `s1` and returning `r`.
pub open spec fn add_step(
    s0: MemoryPackReaderOptionalState,
    s1: MemoryPackReaderOptionalState,
    id: u32,
    r: Result<(), MemoryPackError>,
) -> bool {
    if s0.ids().contains(id) {
        &&& r matches Err(e) && e@ == ErrorKind::DeserializationError
        &&& s1.ids() == s0.ids()
    } else {
        &&& r is Ok
        &&& s1.ids() == s0.ids().insert(id)
    }
}

/// Adding an object for an id that was just added fails and changes nothing.
pub proof fn lemma_add_twice_fails(
    s0: MemoryPackReaderOptionalState,
    s1: MemoryPackReaderOptionalState,
    s2: MemoryPackReaderOptionalState,
    id: u32,
    r1: Result<(), MemoryPackError>,
    r2: Result<(), MemoryPackError>,
)
    requires
        add_step(s0, s1, id, r1),
        add_step(s1, s2, id, r2),
    ensures
        r2 is Err,
        s2.ids() == s1.ids(),
        s1.ids().contains(id),
{
}

impl Default for MemoryPackReaderOptionalState {
    fn default() -> (s: Self)
        ensures
            s.ids() == Set::<u32>::empty(),
    {
        Self::new()
    }
}

} // verus!
