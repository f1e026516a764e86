use vstd::prelude::*;

use crate::codec::{copy_units, decode_lossy, decode_utf16, encode_utf16, utf16_of};
use crate::enums::{PostDataElementType, UnrecognizedVariant};

verus! {

/// Which operations the function table of a foreign post data element
/// provides; an absent entry is a null function pointer.
#[derive(Clone, Copy, Debug, PartialEq, Eq, Structural)]
pub struct PostDataElementTable {
    pub is_read_only: bool,
    pub set_to_empty: bool,
    pub set_to_file: bool,
    pub set_to_bytes: bool,
    pub get_type: bool,
    pub get_file: bool,
    pub get_bytes_count: bool,
    pub get_bytes: bool,
}

impl PostDataElementTable {
    /// Every entry is present.
    pub open spec fn is_complete(self) -> bool {
        self.is_read_only && self.set_to_empty && self.set_to_file && self.set_to_bytes
            && self.get_type && self.get_file && self.get_bytes_count && self.get_bytes
    }

    /// A table with every entry present.
    pub fn complete() -> (r: PostDataElementTable)
        ensures
            r.is_complete(),
    {
        PostDataElementTable {
            is_read_only: true,
            set_to_empty: true,
            set_to_file: true,
            set_to_bytes: true,
            get_type: true,
            get_file: true,
            get_bytes_count: true,
            get_bytes: true,
        }
    }

    /// A table with every entry null.
    pub fn null() -> (r: PostDataElementTable)
        ensures
            !r.is_read_only && !r.set_to_empty && !r.set_to_file && !r.set_to_bytes
                && !r.get_type && !r.get_file && !r.get_bytes_count && !r.get_bytes,
    {
        PostDataElementTable {
            is_read_only: false,
            set_to_empty: false,
            set_to_file: false,
            set_to_bytes: false,
            get_type: false,
            get_file: false,
            get_bytes_count: false,
            get_bytes: false,
        }
    }
}

/// What a foreign post data element holds.
pub struct ElementModel {
    pub table: PostDataElementTable,
    pub address: u64,
    pub read_only: bool,
    pub kind: i32,
    pub file: Seq<u16>,
    pub bytes: Seq<u8>,
}

/// A single element of request post data: empty, raw bytes, or a file
/// reference. Every operation tolerates a null entry in the foreign table.
pub struct PostDataElement {
    table: PostDataElementTable,
    address: u64,
    read_only: bool,
    kind: i32,
    file: Vec<u16>,
    bytes: Vec<u8>,
}

impl View for PostDataElement {
    type V = ElementModel;

    closed spec fn view(&self) -> ElementModel {
        ElementModel {
            table: self.table,
            address: self.address,
            read_only: self.read_only,
            kind: self.kind,
            file: self.file@,
            bytes: self.bytes@,
        }
    }
}

/// Whether a mutation through an entry that is present takes effect.
pub open spec fn element_writable(m: ElementModel) -> bool {
    !m.read_only
}

fn copy_bytes(b: &[u8]) -> (r: Vec<u8>)
    ensures
        r@ == b@,
{
    let mut r: Vec<u8> = Vec::new();
    let mut i: usize = 0;
    while i < b.len()
        invariant
            i <= b@.len(),
            r@ == b@.take(i as int),
        decreases b@.len() - i,
    {
        r.push(b[i]);
        proof {
            assert(r@ =~= b@.take(i as int + 1));
        }
        i = i + 1;
    }
    proof {
        assert(b@.take(b@.len() as int) =~= b@);
    }
    r
}


impl PostDataElement {
    /// Creates a writable, empty element at `address`, with every table
    /// entry present.
    pub fn new(address: u64) -> (r: PostDataElement)
        ensures
            r@.table.is_complete(),
            r@.address == address,
            !r@.read_only,
            r@.kind == PostDataElementType::Empty.spec_raw(),
            r@.file.len() == 0,
            r@.bytes.len() == 0,
    {
        Self::with_table(PostDataElementTable::complete(), address)
    }

    /// Creates a writable, empty element at `address` whose table provides
    /// only the entries that `table` marks present.
    pub fn with_table(table: PostDataElementTable, address: u64) -> (r: PostDataElement)
        ensures
            r@.table == table,
            r@.address == address,
            !r@.read_only,
            r@.kind == PostDataElementType::Empty.spec_raw(),
            r@.file.len() == 0,
            r@.bytes.len() == 0,
    {
        PostDataElement { table, address, read_only: false, kind: 0, file: Vec::new(), bytes: Vec::new() }
    }

    /// Marks the element read-only, as the foreign side does once the
    /// element belongs to a request in flight.
    pub fn mark_read_only(&mut self)
        ensures
            final(self)@ == (ElementModel { read_only: true, ..old(self)@ }),
    {
        self.read_only = true;
    }

    /// A copy of the element, with the same identity.
    pub fn duplicate(&self) -> (r: PostDataElement)
        ensures
            r@ == self@,
    {
        PostDataElement {
            table: self.table,
            address: self.address,
            read_only: self.read_only,
            kind: self.kind,
            file: copy_units(self.file.as_slice()),
            bytes: copy_bytes(self.bytes.as_slice()),
        }
    }

    /// Whether two handles refer to the same element.
    pub fn ptr_eq(&self, other: &PostDataElement) -> (r: bool)
        ensures
            r == (self@.address == other@.address),
    {
        self.address == other.address
    }

    /// Returns true if this object is read-only; true as well when the
    /// foreign table cannot tell.
    pub fn is_read_only(&self) -> (r: bool)
        ensures
            r == (!self@.table.is_read_only || self@.read_only),
    {
        if self.table.is_read_only {
            self.read_only
        } else {
            true
        }
    }

    /// Removes all contents from the element.
    pub fn set_to_empty(&mut self)
        ensures
            if old(self)@.table.set_to_empty && element_writable(old(self)@) {
                final(self)@ == (ElementModel {
                    kind: PostDataElementType::Empty.spec_raw(),
                    file: Seq::empty(),
                    bytes: Seq::empty(),
                    ..old(self)@
                })
            } else {
                final(self)@ == old(self)@
            },
    {
        if self.table.set_to_empty && !self.read_only {
            self.kind = 0;
            self.file = Vec::new();
            self.bytes = Vec::new();
            proof {
                assert(self@.file =~= Seq::<u16>::empty());
                assert(self@.bytes =~= Seq::<u8>::empty());
            }
        }
    }

    /// The element will represent the file `file_name`.
    pub fn set_to_file(&mut self, file_name: &str)
        ensures
            if old(self)@.table.set_to_file && element_writable(old(self)@) {
                final(self)@ == (ElementModel {
                    kind: PostDataElementType::File.spec_raw(),
                    file: utf16_of(file_name@),
                    bytes: Seq::empty(),
                    ..old(self)@
                })
            } else {
                final(self)@ == old(self)@
            },
    {
        if self.table.set_to_file && !self.read_only {
            self.kind = 2;
            self.file = encode_utf16(file_name);
            self.bytes = Vec::new();
            proof {
                assert(self@.bytes =~= Seq::<u8>::empty());
            }
        }
    }

    /// The element will represent `bytes`, which are copied.
    pub fn set_to_bytes(&mut self, bytes: &[u8])
        ensures
            if old(self)@.table.set_to_bytes && element_writable(old(self)@) {
                final(self)@ == (ElementModel {
                    kind: PostDataElementType::Bytes.spec_raw(),
                    file: Seq::empty(),
                    bytes: bytes@,
                    ..old(self)@
                })
            } else {
                final(self)@ == old(self)@
            },
    {
        if self.table.set_to_bytes && !self.read_only {
            self.kind = 1;
            self.file = Vec::new();
            self.bytes = copy_bytes(bytes);
            proof {
                assert(self@.file =~= Seq::<u16>::empty());
            }
        }
    }

    /// The kind of the element: `Empty` where the table cannot tell, and an
    /// error for a foreign value that names no kind.
    pub fn get_type(&self) -> (r: Result<PostDataElementType, UnrecognizedVariant>)
        ensures
            !self@.table.get_type ==> r == Ok::<PostDataElementType, UnrecognizedVariant>(
                PostDataElementType::Empty,
            ),
            self@.table.get_type ==> (r is Ok <==> 0 <= self@.kind < 3),
            self@.table.get_type && r is Ok ==> r->Ok_0.spec_raw() == self@.kind,
            self@.table.get_type && r is Err ==> r->Err_0.value == self@.kind,
    {
        if self.table.get_type {
            PostDataElementType::from_unchecked(self.kind)
        } else {
            Ok(PostDataElementType::Empty)
        }
    }

    /// The file name, decoded; empty where the table cannot tell.
    pub fn get_file(&self) -> (r: String)
        ensures
            self@.table.get_file ==> r@ == decode_lossy(self@.file),
            !self@.table.get_file ==> r@.len() == 0,
    {
        if self.table.get_file {
            decode_utf16(self.file.as_slice())
        } else {
            String::new()
        }
    }

    /// The number of bytes; zero where the table cannot tell.
    pub fn get_bytes_count(&self) -> (r: usize)
        ensures
            self@.table.get_bytes_count ==> r == self@.bytes.len(),
            !self@.table.get_bytes_count ==> r == 0,
    {
        if self.table.get_bytes_count {
            self.bytes.len()
        } else {
            0
        }
    }

    /// The bytes, read in one call of the size the count entry reports;
    /// empty where either entry is null.
    pub fn get_bytes(&self) -> (r: Vec<u8>)
        ensures
            self@.table.get_bytes_count && self@.table.get_bytes ==> r@ == self@.bytes,
            !(self@.table.get_bytes_count && self@.table.get_bytes) ==> r@.len() == 0,
    {
        let size = self.get_bytes_count();
        if size > 0 && self.table.get_bytes {
            copy_bytes(self.bytes.as_slice())
        } else {
            Vec::new()
        }
    }
}

/// Which operations the function table of a foreign post data object
/// provides; an absent entry is a null function pointer.
#[derive(Clone, Copy, Debug, PartialEq, Eq, Structural)]
pub struct PostDataTable {
    pub is_read_only: bool,
    pub has_excluded_elements: bool,
    pub get_element_count: bool,
    pub get_elements: bool,
    pub remove_element: bool,
    pub add_element: bool,
    pub remove_elements: bool,
}

impl PostDataTable {
    /// Every entry is present.
    pub open spec fn is_complete(self) -> bool {
        self.is_read_only && self.has_excluded_elements && self.get_element_count
            && self.get_elements && self.remove_element && self.add_element && self.remove_elements
    }

    /// A table with every entry present.
    pub fn complete() -> (r: PostDataTable)
        ensures
            r.is_complete(),
    {
        PostDataTable {
            is_read_only: true,
            has_excluded_elements: true,
            get_element_count: true,
            get_elements: true,
            remove_element: true,
            add_element: true,
            remove_elements: true,
        }
    }

    /// A table with every entry null.
    pub fn null() -> (r: PostDataTable)
        ensures
            !r.is_read_only && !r.has_excluded_elements && !r.get_element_count
                && !r.get_elements && !r.remove_element && !r.add_element && !r.remove_elements,
    {
        PostDataTable {
            is_read_only: false,
            has_excluded_elements: false,
            get_element_count: false,
            get_elements: false,
            remove_element: false,
            add_element: false,
            remove_elements: false,
        }
    }
}

/// What a foreign post data object holds.
pub struct PostDataModel {
    pub table: PostDataTable,
    pub read_only: bool,
    pub has_excluded: bool,
    pub elements: Seq<ElementModel>,
}

/// The models of a sequence of elements.
pub open spec fn element_models(v: Seq<PostDataElement>) -> Seq<ElementModel> {
    v.map_values(|e: PostDataElement| e@)
}

/// The position of the first element at `address`, or -1 where there is
/// none.
pub open spec fn element_index(s: Seq<ElementModel>, address: u64) -> int
    decreases s.len(),
{
    if s.len() == 0 {
        -1
    } else {
        let j = element_index(s.drop_last(), address);
        if j >= 0 {
            j
        } else if s.last().address == address {
            s.len() - 1
        } else {
            -1
        }
    }
}

proof fn lemma_element_index(s: Seq<ElementModel>, address: u64)
    ensures
        -1 <= element_index(s, address) < s.len(),
        element_index(s, address) == -1 <==> forall|i: int|
            0 <= i < s.len() ==> s[i].address != address,
        element_index(s, address) >= 0 ==> s[element_index(s, address)].address == address,
        forall|i: int| 0 <= i < element_index(s, address) ==> s[i].address != address,
    decreases s.len(),
{
    if s.len() > 0 {
        lemma_element_index(s.drop_last(), address);
        let d = s.drop_last();
        assert(forall|i: int| 0 <= i < d.len() ==> d[i] == s[i]);
    }
}

/// The post data of a request: a sequence of elements, possibly with
/// elements that this model does not represent (flagged as excluded).
pub struct PostData {
    table: PostDataTable,
    read_only: bool,
    has_excluded: bool,
    elements: Vec<PostDataElement>,
}

impl View for PostData {
    type V = PostDataModel;

    closed spec fn view(&self) -> PostDataModel {
        PostDataModel {
            table: self.table,
            read_only: self.read_only,
            has_excluded: self.has_excluded,
            elements: element_models(self.elements@),
        }
    }
}

impl PostData {
    /// Creates writable post data without elements, with every table entry
    /// present.
    pub fn new() -> (r: PostData)
        ensures
            r@.table.is_complete(),
            !r@.read_only,
            !r@.has_excluded,
            r@.elements.len() == 0,
    {
        Self::with_table(PostDataTable::complete())
    }

    /// Creates writable post data without elements whose table provides only
    /// the entries that `table` marks present.
    pub fn with_table(table: PostDataTable) -> (r: PostData)
        ensures
            r@.table == table,
            !r@.read_only,
            !r@.has_excluded,
            r@.elements.len() == 0,
    {
        PostData { table, read_only: false, has_excluded: false, elements: Vec::new() }
    }

    /// Marks the post data read-only, as the foreign side does for the post
    /// data of a request in flight.
    pub fn mark_read_only(&mut self)
        ensures
            final(self)@ == (PostDataModel { read_only: true, ..old(self)@ }),
    {
        self.read_only = true;
    }

    /// Records that the underlying data holds elements this model does not
    /// represent, such as multi-part file uploads.
    pub fn mark_excluded_elements(&mut self)
        ensures
            final(self)@ == (PostDataModel { has_excluded: true, ..old(self)@ }),
    {
        self.has_excluded = true;
    }

    /// Returns true if this object is read-only; true as well when the
    /// foreign table cannot tell.
    pub fn is_read_only(&self) -> (r: bool)
        ensures
            r == (!self@.table.is_read_only || self@.read_only),
    {
        if self.table.is_read_only {
            self.read_only
        } else {
            true
        }
    }

    /// Returns true if the underlying data includes elements that are not
    /// represented here; false when the foreign table cannot tell.
    pub fn has_excluded_elements(&self) -> (r: bool)
        ensures
            r == (self@.table.has_excluded_elements && self@.has_excluded),
    {
        self.table.has_excluded_elements && self.has_excluded
    }

    /// The number of elements; zero when the foreign table cannot tell.
    pub fn get_element_count(&self) -> (r: usize)
        ensures
            self@.table.get_element_count ==> r == self@.elements.len(),
            !self@.table.get_element_count ==> r == 0,
    {
        if self.table.get_element_count {
            self.elements.len()
        } else {
            0
        }
    }

    /// The elements, read in one call of the size the count entry reports;
    /// empty where either entry is null.
    pub fn get_elements(&self) -> (r: Vec<PostDataElement>)
        ensures
            self@.table.get_element_count && self@.table.get_elements ==> element_models(r@)
                == self@.elements,
            !(self@.table.get_element_count && self@.table.get_elements) ==> r@.len() == 0,
    {
        let count = self.get_element_count();
        let mut r: Vec<PostDataElement> = Vec::new();
        if count > 0 && self.table.get_elements {
            let mut i: usize = 0;
            while i < count
                invariant
                    count == self@.elements.len(),
                    i <= count,
                    element_models(r@) == self@.elements.take(i as int),
                decreases count - i,
            {
                let e = self.elements[i].duplicate();
                let ghost before = r@;
                r.push(e);
                proof {
                    assert(element_models(r@) =~= element_models(before).push(e@));
                    assert(self@.elements.take(i as int + 1) =~= self@.elements.take(i as int).push(
                        self@.elements[i as int],
                    ));
                }
                i = i + 1;
            }
            proof {
                assert(self@.elements.take(count as int) =~= self@.elements);
            }
        } else {
            proof {
                if self@.table.get_element_count && self@.table.get_elements {
                    assert(self@.elements.len() == 0);
                    assert(element_models(r@) =~= self@.elements);
                }
            }
        }
        r
    }

    fn find(&self, element: &PostDataElement) -> (r: Option<usize>)
        ensures
            match r {
                Some(j) => j == element_index(self@.elements, element@.address),
                None => element_index(self@.elements, element@.address) == -1,
            },
    {
        let ghost s = self@.elements;
        let ghost a = element@.address;
        proof {
            lemma_element_index(s, a);
        }
        let mut i: usize = 0;
        while i < self.elements.len()
            invariant
                s == self@.elements,
                a == element@.address,
                i <= s.len(),
                forall|m: int| 0 <= m < i ==> s[m].address != a,
                -1 <= element_index(s, a) < s.len(),
                element_index(s, a) == -1 <==> forall|m: int| 0 <= m < s.len() ==> s[m].address != a,
                element_index(s, a) >= 0 ==> s[element_index(s, a)].address == a,
                forall|m: int| 0 <= m < element_index(s, a) ==> s[m].address != a,
            decreases s.len() - i,
        {
            assert(s[i as int] == self.elements@[i as int]@);
            if self.elements[i].ptr_eq(element) {
                return Some(i);
            }
            i = i + 1;
        }
        None
    }

    /// Removes the first element that is the same object as `element`.
    /// Returns true if the removal succeeds.
    pub fn remove_element(&mut self, element: &PostDataElement) -> (r: bool)
        ensures
            r == (old(self)@.table.remove_element && !old(self)@.read_only && element_index(
                old(self)@.elements,
                element@.address,
            ) >= 0),
            r ==> final(self)@ == (PostDataModel {
                elements: old(self)@.elements.remove(
                    element_index(old(self)@.elements, element@.address),
                ),
                ..old(self)@
            }),
            !r ==> final(self)@ == old(self)@,
    {
        proof {
            lemma_element_index(self@.elements, element@.address);
        }
        if self.table.remove_element && !self.read_only {
            match self.find(element) {
                Some(j) => {
                    let ghost before = self.elements@;
                    let _removed = self.elements.remove(j);
                    proof {
                        assert(element_models(self.elements@) =~= element_models(before).remove(
                            j as int,
                        ));
                    }
                    true
                },
                None => false,
            }
        } else {
            false
        }
    }

    /// Adds a copy of `element` at the end. Returns true if the add succeeds.
    pub fn add_element(&mut self, element: &PostDataElement) -> (r: bool)
        ensures
            r == (old(self)@.table.add_element && !old(self)@.read_only),
            r ==> final(self)@ == (PostDataModel {
                elements: old(self)@.elements.push(element@),
                ..old(self)@
            }),
            !r ==> final(self)@ == old(self)@,
    {
        if self.table.add_element && !self.read_only {
            let ghost before = self.elements@;
            self.elements.push(element.duplicate());
            proof {
                assert(element_models(self.elements@) =~= element_models(before).push(element@));
            }
            true
        } else {
            false
        }
    }

    /// Removes all elements.
    pub fn remove_elements(&mut self)
        ensures
            old(self)@.table.remove_elements && !old(self)@.read_only ==> final(self)@ == (
            PostDataModel { elements: Seq::empty(), ..old(self)@ }),
            !(old(self)@.table.remove_elements && !old(self)@.read_only) ==> final(self)@ == old(
                self,
            )@,
    {
        if self.table.remove_elements && !self.read_only {
            self.elements = Vec::new();
            proof {
                assert(element_models(self.elements@) =~= Seq::<ElementModel>::empty());
            }
        }
    }
}

} // verus!
