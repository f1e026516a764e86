use vstd::prelude::*;

use std::sync::Arc;

use crate::codec::{copy_units, decode_lossy, decode_utf16, encode_utf16, utf16_of};
use crate::refcounted::RefCount;

verus! {

/// What a fixed-layout string holds: its UTF-16 code units, and whether a
/// destructor is set (the buffer is then owned and must be released exactly
/// once through it).
pub struct StringModel {
    pub units: Seq<u16>,
    pub owned: bool,
}

/// The fixed-layout string record of the foreign ABI: a UTF-16 buffer with
/// its length, and an optional destructor.
pub struct RawString {
    pub units: Vec<u16>,
    pub has_dtor: bool,
}

impl View for RawString {
    type V = StringModel;

    open spec fn view(&self) -> StringModel {
        StringModel { units: self.units@, owned: self.has_dtor }
    }
}

/// The empty record with no destructor, which owns nothing.
pub open spec fn inert() -> StringModel {
    StringModel { units: Seq::empty(), owned: false }
}

/// How many destructor calls releasing a string with this content makes.
pub open spec fn release_calls(m: StringModel) -> nat {
    if m.owned {
        1
    } else {
        0
    }
}

/// A host-owned fixed-layout string. Releasing it calls its destructor, if
/// one is set, exactly once.
pub struct CefString(RawString);

impl View for CefString {
    type V = StringModel;

    closed spec fn view(&self) -> StringModel {
        self.0@
    }
}


impl CefString {
    /// Encodes `source` into a new buffer owned by this string.
    pub fn new(source: &str) -> (r: CefString)
        ensures
            r@.units == utf16_of(source@),
            r@.owned,
    {
        CefString(RawString { units: encode_utf16(source), has_dtor: true })
    }

    /// An empty string with no destructor.
    pub fn empty() -> (r: CefString)
        ensures
            r@ == inert(),
    {
        CefString(RawString { units: Vec::new(), has_dtor: false })
    }

    /// Re-encodes the string in place from `text`; the previous buffer is
    /// replaced by one owned by this string.
    pub fn set_string(&mut self, text: &str)
        ensures
            final(self)@.units == utf16_of(text@),
            final(self)@.owned,
    {
        self.0 = RawString { units: encode_utf16(text), has_dtor: true };
    }

    /// Decodes the string lossily into host text.
    pub fn decode(&self) -> (r: String)
        ensures
            r@ == decode_lossy(self@.units),
    {
        decode_utf16(self.0.units.as_slice())
    }

    /// Gives up ownership: the record is handed out with its destructor,
    /// and this string no longer releases it.
    pub fn into_raw(self) -> (r: RawString)
        ensures
            r@ == self@,
    {
        self.0
    }

    /// The underlying record.
    pub fn as_ptr(&self) -> (r: &RawString)
        ensures
            r@ == self@,
    {
        &self.0
    }

    /// The underlying record, for the foreign side to fill in place; whatever
    /// it holds afterwards belongs to this string.
    pub fn as_ptr_mut(&mut self) -> (r: &mut RawString)
        ensures
            (*r)@ == old(self)@,
            final(self)@ == final(r)@,
    {
        &mut self.0
    }

    /// Takes ownership of a record: releasing the new string calls the
    /// record's destructor, if it has one.
    pub fn from_raw(raw: RawString) -> (r: CefString)
        ensures
            r@ == raw@,
    {
        CefString(raw)
    }

    /// Moves this string into `destination`. Whatever the destination owned
    /// is released first; then it receives this string's buffer and
    /// destructor, and this string is left empty, owning nothing. Returns the
    /// number of destructor calls made.
    pub fn move_to(&mut self, destination: &mut RawString) -> (released: u32)
        ensures
            released == release_calls(old(destination)@),
            final(destination)@ == old(self)@,
            final(self)@ == inert(),
    {
        let released: u32 = if destination.has_dtor {
            1
        } else {
            0
        };
        let mut taken = RawString { units: Vec::new(), has_dtor: false };
        core::mem::swap(&mut self.0, &mut taken);
        *destination = taken;
        released
    }

    /// Releases the string: the number of destructor calls made, one if a
    /// destructor is set and none otherwise.
    pub fn release(self) -> (calls: u32)
        ensures
            calls == release_calls(self@),
    {
        if self.0.has_dtor {
            1
        } else {
            0
        }
    }

    /// A copy of the string that owns a buffer of its own.
    pub fn duplicate(&self) -> (r: CefString)
        ensures
            r@.units == self@.units,
            r@.owned,
    {
        CefString(RawString { units: copy_units(self.0.units.as_slice()), has_dtor: true })
    }
}

/// Moving a string out leaves a source whose release calls no destructor,
/// and the destructor calls owed stay the same: the destination's previous
/// content is released once, and the moved buffer has exactly one owner.
pub proof fn lemma_move_leaves_source_inert(source: StringModel, destination: StringModel)
    ensures
        release_calls(inert()) == 0,
        release_calls(destination) + release_calls(source) == release_calls(destination)
            + release_calls(inert()) + release_calls(source),
{
}

/// The foreign string list record: an ordered sequence of UTF-16 buffers.
pub struct RawStringList {
    pub items: Vec<Vec<u16>>,
}

/// The code units of each string of a list.
pub open spec fn list_units(items: Seq<Vec<u16>>) -> Seq<Seq<u16>> {
    items.map_values(|v: Vec<u16>| v@)
}

/// The texts that lossy decoding gives for each string of a list.
pub open spec fn decoded(items: Seq<Seq<u16>>) -> Seq<Seq<char>> {
    items.map_values(|u: Seq<u16>| decode_lossy(u))
}

/// The UTF-16 encoding of each text.
pub open spec fn encoded(texts: Seq<String>) -> Seq<Seq<u16>> {
    texts.map_values(|t: String| utf16_of(t@))
}

/// A host-owned foreign string list. The list belongs to this value until
/// it is handed over with `into_raw`.
pub struct CefStringList(RawStringList);

impl View for CefStringList {
    type V = Seq<Seq<u16>>;

    closed spec fn view(&self) -> Seq<Seq<u16>> {
        list_units(self.0.items@)
    }
}

impl CefStringList {
    /// An empty list.
    pub fn new() -> (r: CefStringList)
        ensures
            r@ == Seq::<Seq<u16>>::empty(),
    {
        let r = CefStringList(RawStringList { items: Vec::new() });
        assert(r@ =~= Seq::<Seq<u16>>::empty());
        r
    }

    /// The underlying record.
    pub fn as_ptr(&self) -> (r: &RawStringList)
        ensures
            list_units(r.items@) == self@,
    {
        &self.0
    }

    /// The number of strings.
    pub fn len(&self) -> (r: usize)
        ensures
            r == self@.len(),
    {
        self.0.items.len()
    }

    /// A copy of the string at `index`, or `None` where `index` is out of
    /// range.
    pub fn get(&self, index: usize) -> (r: Option<CefString>)
        ensures
            index < self@.len() ==> r is Some && r->0@.units == self@[index as int] && r->0@.owned,
            index >= self@.len() ==> r is None,
    {
        if index < self.0.items.len() {
            Some(CefString(RawString { units: copy_units(self.0.items[index].as_slice()), has_dtor: true }))
        } else {
            None
        }
    }

    /// Appends a copy of `s`.
    pub fn push(&mut self, s: &CefString)
        ensures
            final(self)@ == old(self)@.push(s@.units),
    {
        let units = copy_units(s.0.units.as_slice());
        self.0.items.push(units);
        proof {
            assert(final(self)@ =~= old(self)@.push(s@.units));
        }
    }

    /// Takes ownership of a list record.
    pub fn from_raw(raw: RawStringList) -> (r: CefStringList)
        ensures
            r@ == list_units(raw.items@),
    {
        CefStringList(raw)
    }

    /// Hands the list over for good: it is no longer freed by this value.
    pub fn into_raw(self) -> (r: RawStringList)
        ensures
            list_units(r.items@) == self@,
    {
        self.0
    }

    /// Appends each text, encoded, in order.
    pub fn extend(&mut self, texts: &Vec<String>)
        ensures
            final(self)@ == old(self)@ + encoded(texts@),
    {
        let mut i: usize = 0;
        while i < texts.len()
            invariant
                i <= texts@.len(),
                self@ == old(self)@ + encoded(texts@.take(i as int)),
            decreases texts@.len() - i,
        {
            let s = CefString::new(texts[i].as_str());
            self.push(&s);
            proof {
                assert(encoded(texts@.take(i as int + 1)) =~= encoded(texts@.take(i as int)).push(
                    utf16_of(texts@[i as int]@),
                ));
            }
            i = i + 1;
        }
        proof {
            assert(texts@.take(texts@.len() as int) =~= texts@);
        }
    }

    /// A list of the texts, encoded, in order.
    pub fn from_strings(texts: &Vec<String>) -> (r: CefStringList)
        ensures
            r@ == encoded(texts@),
    {
        let mut r = CefStringList::new();
        r.extend(texts);
        assert(r@ =~= encoded(texts@));
        r
    }

    /// The strings of the list, each decoded lossily, in order.
    pub fn to_strings(&self) -> (r: Vec<String>)
        ensures
            r@.map_values(|t: String| t@) == decoded(self@),
    {
        let mut r: Vec<String> = Vec::new();
        let mut i: usize = 0;
        while i < self.0.items.len()
            invariant
                i <= self@.len(),
                r@.map_values(|t: String| t@) == decoded(self@.take(i as int)),
            decreases self@.len() - i,
        {
            let t = decode_utf16(self.0.items[i].as_slice());
            let ghost before = r@;
            r.push(t);
            proof {
                assert(r@.map_values(|t: String| t@) =~= before.map_values(|t: String| t@).push(
                    decode_lossy(self@[i as int]),
                ));
                assert(decoded(self@.take(i as int + 1)) =~= decoded(self@.take(i as int)).push(
                    decode_lossy(self@[i as int]),
                ));
            }
            i = i + 1;
        }
        proof {
            assert(self@.take(self@.len() as int) =~= self@);
        }
        r
    }
}

/// Implement this trait to receive string values asynchronously.
pub trait StringVisitor: Send + Sync {
    /// Method that will be executed.
    fn visit(&self, string: &str);
}

/// Adapts a host visitor to the foreign visitor interface.
pub struct StringVisitorWrapper<V: StringVisitor> {
    delegate: Arc<V>,
}

/// The foreign visitor object that a wrapper registers: a reference count
/// and the wrapper that its `visit` entry dispatches to. The host visitor
/// lives as long as the foreign side holds a reference.
pub struct CefStringVisitor<V: StringVisitor> {
    base: RefCount,
    wrapper: StringVisitorWrapper<V>,
}

impl<V: StringVisitor> StringVisitorWrapper<V> {
    pub fn new(delegate: Arc<V>) -> (r: StringVisitorWrapper<V>)
        ensures
            r.delegate() == delegate,
    {
        StringVisitorWrapper { delegate }
    }

    /// The host visitor.
    pub closed spec fn delegate(&self) -> Arc<V> {
        self.delegate
    }

    /// The host visitor.
    pub fn borrow(&self) -> (r: &Arc<V>)
        ensures
            *r == self.delegate(),
    {
        &self.delegate
    }

    /// The host text that a foreign visit call hands to the visitor.
    pub fn visit_argument(string: &RawString) -> (r: String)
        ensures
            r@ == decode_lossy(string@.units),
    {
        decode_utf16(string.units.as_slice())
    }

    /// Registers the wrapper as a foreign visitor object at `address`,
    /// holding the one reference of the caller.
    pub fn wrap(self, address: u64) -> (r: CefStringVisitor<V>)
        ensures
            r.base().address() == address,
            r.base().count() == 1,
            r.wrapper().delegate() == self.delegate(),
    {
        CefStringVisitor { base: RefCount::new(address), wrapper: self }
    }

    /// One foreign invocation: the argument is decoded and handed to the host
    /// visitor, which is called exactly once.
    pub fn visit(&self, string: &RawString) {
        let text = Self::visit_argument(string);
        self.delegate.visit(text.as_str());
    }
}

impl<V: StringVisitor> CefStringVisitor<V> {
    /// The object's reference count.
    pub closed spec fn base(&self) -> RefCount {
        self.base
    }

    /// The wrapper the object dispatches to.
    pub closed spec fn wrapper(&self) -> StringVisitorWrapper<V> {
        self.wrapper
    }

    /// The current reference count.
    pub fn ref_count(&self) -> (r: u64)
        ensures
            r == self.base().count(),
    {
        self.base.get()
    }

    /// The foreign `add_ref` entry.
    pub fn add_ref(&mut self)
        requires
            old(self).base().count() < u64::MAX,
        ensures
            final(self).base().count() == old(self).base().count() + 1,
            final(self).base().address() == old(self).base().address(),
            final(self).wrapper() == old(self).wrapper(),
    {
        self.base.add_ref();
    }

    /// The foreign `release` entry; true when the last reference is gone.
    pub fn release(&mut self) -> (freed: bool)
        requires
            old(self).base().count() > 0,
        ensures
            final(self).base().count() == old(self).base().count() - 1,
            final(self).base().address() == old(self).base().address(),
            final(self).wrapper() == old(self).wrapper(),
            freed == (final(self).base().count() == 0),
    {
        self.base.release()
    }

    /// The foreign `visit` entry: dispatches one call to the host visitor.
    pub fn visit(&self, string: &RawString) {
        self.wrapper.visit(string);
    }
}

} // verus!
