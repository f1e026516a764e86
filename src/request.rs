use vstd::prelude::*;

use crate::codec::{copy_units, decode_lossy, decode_utf16, encode_utf16, lemma_utf16_round_trip, utf16_of};
use crate::enums::{ReferrerPolicy, ResourceType, UnrecognizedVariant};
use crate::flags::{flags_in, bitfield_of, URLRequestFlags, FLAG_COUNT};
use crate::multimap::{flatten, group, zip, Entries, HeaderMap, Pairs};
use crate::postdata::{PostData, PostDataModel};

verus! {

/// Which operations the function table of a foreign request provides; an
/// absent entry is a null function pointer.
#[derive(Clone, Copy, Debug, PartialEq, Eq, Structural)]
pub struct RequestTable {
    pub is_read_only: bool,
    pub get_url: bool,
    pub set_url: bool,
    pub get_method: bool,
    pub set_method: bool,
    pub set_referrer: bool,
    pub get_referrer_url: bool,
    pub get_referrer_policy: bool,
    pub get_post_data: bool,
    pub set_post_data: bool,
    pub get_header_map: bool,
    pub get_header_by_name: bool,
    pub set_header_by_name: bool,
    pub set: bool,
    pub get_flags: bool,
    pub set_flags: bool,
    pub get_first_party_for_cookies: bool,
    pub set_first_party_for_cookies: bool,
    pub get_resource_type: bool,
    pub get_transition_type: bool,
    pub get_identifier: bool,
}

impl RequestTable {
    /// Every entry is present.
    pub open spec fn is_complete(self) -> bool {
        &&& self.is_read_only && self.get_url && self.set_url && self.get_method
        &&& self.set_method && self.set_referrer && self.get_referrer_url
        &&& self.get_referrer_policy && self.get_post_data && self.set_post_data
        &&& self.get_header_map && self.get_header_by_name && self.set_header_by_name
        &&& self.set && self.get_flags && self.set_flags && self.get_first_party_for_cookies
        &&& self.set_first_party_for_cookies && self.get_resource_type
        &&& self.get_transition_type && self.get_identifier
    }

    /// Every entry is null.
    pub open spec fn is_null(self) -> bool {
        &&& !self.is_read_only && !self.get_url && !self.set_url && !self.get_method
        &&& !self.set_method && !self.set_referrer && !self.get_referrer_url
        &&& !self.get_referrer_policy && !self.get_post_data && !self.set_post_data
        &&& !self.get_header_map && !self.get_header_by_name && !self.set_header_by_name
        &&& !self.set && !self.get_flags && !self.set_flags && !self.get_first_party_for_cookies
        &&& !self.set_first_party_for_cookies && !self.get_resource_type
        &&& !self.get_transition_type && !self.get_identifier
    }

    /// A table with every entry present.
    pub fn complete() -> (r: RequestTable)
        ensures
            r.is_complete(),
    {
        RequestTable {
            is_read_only: true,
            get_url: true,
            set_url: true,
            get_method: true,
            set_method: true,
            set_referrer: true,
            get_referrer_url: true,
            get_referrer_policy: true,
            get_post_data: true,
            set_post_data: true,
            get_header_map: true,
            get_header_by_name: true,
            set_header_by_name: true,
            set: true,
            get_flags: true,
            set_flags: true,
            get_first_party_for_cookies: true,
            set_first_party_for_cookies: true,
            get_resource_type: true,
            get_transition_type: true,
            get_identifier: true,
        }
    }

    /// A table with every entry null.
    pub fn null() -> (r: RequestTable)
        ensures
            r.is_null(),
    {
        RequestTable {
            is_read_only: false,
            get_url: false,
            set_url: false,
            get_method: false,
            set_method: false,
            set_referrer: false,
            get_referrer_url: false,
            get_referrer_policy: false,
            get_post_data: false,
            set_post_data: false,
            get_header_map: false,
            get_header_by_name: false,
            set_header_by_name: false,
            set: false,
            get_flags: false,
            set_flags: false,
            get_first_party_for_cookies: false,
            set_first_party_for_cookies: false,
            get_resource_type: false,
            get_transition_type: false,
            get_identifier: false,
        }
    }
}

/// One header of the foreign header multimap, in UTF-16.
pub struct RawHeader {
    pub name: Vec<u16>,
    pub value: Vec<u16>,
}

/// The code units of each header.
pub open spec fn header_units(h: Seq<RawHeader>) -> Seq<(Seq<u16>, Seq<u16>)> {
    h.map_values(|x: RawHeader| (x.name@, x.value@))
}

/// Headers decoded into text pairs.
pub open spec fn decoded_pairs(p: Seq<(Seq<u16>, Seq<u16>)>) -> Pairs {
    p.map_values(|x: (Seq<u16>, Seq<u16>)| (decode_lossy(x.0), decode_lossy(x.1)))
}

/// Text pairs encoded into headers.
pub open spec fn encoded_pairs(p: Pairs) -> Seq<(Seq<u16>, Seq<u16>)> {
    p.map_values(|x: (Seq<char>, Seq<char>)| (utf16_of(x.0), utf16_of(x.1)))
}

/// The position of the first header named `k`, or -1 where there is none.
pub open spec fn header_index(p: Seq<(Seq<u16>, Seq<u16>)>, k: Seq<u16>) -> int
    decreases p.len(),
{
    if p.len() == 0 {
        -1
    } else {
        let j = header_index(p.drop_last(), k);
        if j >= 0 {
            j
        } else if p.last().0 == k {
            p.len() - 1
        } else {
            -1
        }
    }
}

/// The headers not named `k`, in order.
pub open spec fn without_name(p: Seq<(Seq<u16>, Seq<u16>)>, k: Seq<u16>) -> Seq<
    (Seq<u16>, Seq<u16>),
>
    decreases p.len(),
{
    if p.len() == 0 {
        p
    } else if p.last().0 == k {
        without_name(p.drop_last(), k)
    } else {
        without_name(p.drop_last(), k).push(p.last())
    }
}

/// The headers after `name` is set to `value`: with `overwrite`, every
/// earlier value of `name` is replaced; without it, a name already present
/// is left as it is.
pub open spec fn set_header_spec(
    p: Seq<(Seq<u16>, Seq<u16>)>,
    name: Seq<u16>,
    value: Seq<u16>,
    overwrite: bool,
) -> Seq<(Seq<u16>, Seq<u16>)> {
    if overwrite {
        without_name(p, name).push((name, value))
    } else if header_index(p, name) >= 0 {
        p
    } else {
        p.push((name, value))
    }
}

proof fn lemma_header_index(p: Seq<(Seq<u16>, Seq<u16>)>, k: Seq<u16>)
    ensures
        -1 <= header_index(p, k) < p.len(),
        header_index(p, k) == -1 <==> forall|i: int| 0 <= i < p.len() ==> p[i].0 != k,
        header_index(p, k) >= 0 ==> p[header_index(p, k)].0 == k,
        forall|i: int| 0 <= i < header_index(p, k) ==> p[i].0 != k,
    decreases p.len(),
{
    if p.len() > 0 {
        lemma_header_index(p.drop_last(), k);
        let d = p.drop_last();
        assert(forall|i: int| 0 <= i < d.len() ==> d[i] == p[i]);
    }
}

/// ASCII lower case of one code unit.
pub open spec fn ascii_lower(u: u16) -> u16 {
    if 0x41 <= u <= 0x5A {
        (u + 0x20) as u16
    } else {
        u
    }
}

/// "referer" in UTF-16.
pub open spec fn referer_units() -> Seq<u16> {
    seq![0x72u16, 0x65, 0x66, 0x65, 0x72, 0x65, 0x72]
}

/// Whether a header name is the Referer header, in any ASCII case.
pub open spec fn is_referer(k: Seq<u16>) -> bool {
    k.len() == 7 && forall|i: int| 0 <= i < 7 ==> ascii_lower(k[i]) == referer_units()[i]
}

/// The headers other than Referer, in order.
pub open spec fn without_referer(p: Seq<(Seq<u16>, Seq<u16>)>) -> Seq<(Seq<u16>, Seq<u16>)>
    decreases p.len(),
{
    if p.len() == 0 {
        p
    } else if is_referer(p.last().0) {
        without_referer(p.drop_last())
    } else {
        without_referer(p.drop_last()).push(p.last())
    }
}

/// The method after post data is set: a "GET" request becomes a "POST"
/// request, and any other method stays.
pub open spec fn method_with_post_data(method: Seq<u16>) -> Seq<u16> {
    if method == utf16_of("GET"@) {
        utf16_of("POST"@)
    } else {
        method
    }
}

fn is_referer_name(k: &Vec<u16>) -> (r: bool)
    ensures
        r == is_referer(k@),
{
    let lower: [u16; 7] = [0x72, 0x65, 0x66, 0x65, 0x72, 0x65, 0x72];
    assert(lower@ =~= referer_units());
    if k.len() != 7 {
        return false;
    }
    let mut i: usize = 0;
    while i < 7
        invariant
            k@.len() == 7,
            lower@ == referer_units(),
            i <= 7,
            forall|m: int| 0 <= m < i ==> ascii_lower(k@[m]) == referer_units()[m],
        decreases 7 - i,
    {
        let u = k[i];
        let l: u16 = if 0x41 <= u && u <= 0x5A {
            u + 0x20
        } else {
            u
        };
        if l != lower[i] {
            return false;
        }
        i = i + 1;
    }
    true
}

proof fn lemma_no_referer(p: Seq<(Seq<u16>, Seq<u16>)>)
    requires
        forall|i: int| 0 <= i < p.len() ==> !is_referer(#[trigger] p[i].0),
    ensures
        without_referer(p) == p,
    decreases p.len(),
{
    if p.len() > 0 {
        let d = p.drop_last();
        assert forall|i: int| 0 <= i < d.len() implies !is_referer(#[trigger] d[i].0) by {
            assert(d[i] == p[i]);
        }
        lemma_no_referer(d);
        assert(!is_referer(p[p.len() - 1].0));
        assert(d.push(p.last()) =~= p);
    }
}

proof fn lemma_flatten_names(e: Entries, i: int)
    requires
        0 <= i < flatten(e).len(),
    ensures
        exists|j: int| 0 <= j < e.len() && e[j].0 == #[trigger] flatten(e)[i].0,
    decreases e.len(),
{
    let d = e.drop_last();
    let f = flatten(d);
    if i < f.len() {
        lemma_flatten_names(d, i);
        let j = choose|j: int| 0 <= j < d.len() && d[j].0 == f[i].0;
        assert(e[j] == d[j]);
    } else {
        assert(flatten(e)[i].0 == e.last().0);
        assert(e[e.len() - 1].0 == flatten(e)[i].0);
    }
}

/// Headers written into a request at one time and read back as a mapping
/// come back unchanged, each name with its values in the same order, when
/// no name is Referer: encoding to UTF-16 pairs and decoding loses nothing.
pub proof fn lemma_header_marshal_round_trip(m: &HeaderMap)
    requires
        m.wf(),
        forall|j: int| 0 <= j < m@.len() ==> !is_referer(utf16_of(#[trigger] m@[j].0)),
    ensures
        group(decoded_pairs(without_referer(encoded_pairs(flatten(m@))))) == m@,
{
    let p = flatten(m@);
    let q = encoded_pairs(p);
    assert forall|i: int| 0 <= i < q.len() implies !is_referer(#[trigger] q[i].0) by {
        lemma_flatten_names(m@, i);
        let j = choose|j: int| 0 <= j < m@.len() && m@[j].0 == p[i].0;
        assert(!is_referer(utf16_of(m@[j].0)));
    }
    lemma_no_referer(q);
    assert forall|i: int| 0 <= i < p.len() implies #[trigger] decoded_pairs(q)[i] == p[i] by {
        lemma_utf16_round_trip(p[i].0);
        lemma_utf16_round_trip(p[i].1);
    }
    assert(decoded_pairs(q) =~= p);
    m.lemma_pairs_round_trip();
}

/// What a foreign request holds, in the foreign representation.
pub struct RequestModel {
    pub table: RequestTable,
    pub read_only: bool,
    pub url: Seq<u16>,
    pub method: Seq<u16>,
    pub referrer_url: Seq<u16>,
    pub referrer_policy: i32,
    pub post_data: Option<PostDataModel>,
    pub headers: Seq<(Seq<u16>, Seq<u16>)>,
    pub flags: i32,
    pub first_party_for_cookies: Seq<u16>,
    pub resource_type: i32,
    pub transition_type: u32,
    pub identifier: u64,
}

/// A web request. Every operation tolerates a null entry in the foreign
/// table and then returns a fixed default or changes nothing.
pub struct Request {
    table: RequestTable,
    read_only: bool,
    url: Vec<u16>,
    method: Vec<u16>,
    referrer_url: Vec<u16>,
    referrer_policy: i32,
    post_data: Option<PostData>,
    headers: Vec<RawHeader>,
    flags: i32,
    first_party_for_cookies: Vec<u16>,
    resource_type: i32,
    transition_type: u32,
    identifier: u64,
}

impl View for Request {
    type V = RequestModel;

    closed spec fn view(&self) -> RequestModel {
        RequestModel {
            table: self.table,
            read_only: self.read_only,
            url: self.url@,
            method: self.method@,
            referrer_url: self.referrer_url@,
            referrer_policy: self.referrer_policy,
            post_data: match self.post_data {
                Some(p) => Some(p@),
                None => None,
            },
            headers: header_units(self.headers@),
            flags: self.flags,
            first_party_for_cookies: self.first_party_for_cookies@,
            resource_type: self.resource_type,
            transition_type: self.transition_type,
            identifier: self.identifier,
        }
    }
}

/// Whether a mutation through an entry that is present takes effect.
pub open spec fn writable(m: RequestModel) -> bool {
    !m.read_only
}

fn same_units(a: &Vec<u16>, b: &Vec<u16>) -> (r: bool)
    ensures
        r == (a@ == b@),
{
    if a.len() != b.len() {
        return false;
    }
    let mut i: usize = 0;
    while i < a.len()
        invariant
            a@.len() == b@.len(),
            i <= a@.len(),
            forall|m: int| 0 <= m < i ==> a@[m] == b@[m],
        decreases a@.len() - i,
    {
        if a[i] != b[i] {
            return false;
        }
        i = i + 1;
    }
    assert(a@ =~= b@);
    true
}


impl Request {
    /// Creates a writable request with method "GET", nothing else set, and
    /// every table entry present.
    pub fn new() -> (r: Request)
        ensures
            r@.table.is_complete(),
            !r@.read_only,
            r@.url.len() == 0,
            r@.method == utf16_of("GET"@),
            r@.referrer_url.len() == 0,
            r@.referrer_policy == ReferrerPolicy::Default.spec_raw(),
            r@.post_data is None,
            r@.headers.len() == 0,
            r@.flags == 0,
            r@.first_party_for_cookies.len() == 0,
            r@.resource_type == ResourceType::SubResource.spec_raw(),
            r@.transition_type == 0,
            r@.identifier == 0,
    {
        Self::with_table(RequestTable::complete())
    }

    /// Creates a request like `new` whose table provides only the entries
    /// that `table` marks present.
    pub fn with_table(table: RequestTable) -> (r: Request)
        ensures
            r@.table == table,
            !r@.read_only,
            r@.url.len() == 0,
            r@.method == utf16_of("GET"@),
            r@.referrer_url.len() == 0,
            r@.referrer_policy == ReferrerPolicy::Default.spec_raw(),
            r@.post_data is None,
            r@.headers.len() == 0,
            r@.flags == 0,
            r@.first_party_for_cookies.len() == 0,
            r@.resource_type == ResourceType::SubResource.spec_raw(),
            r@.transition_type == 0,
            r@.identifier == 0,
    {
        let r = Request {
            table,
            read_only: false,
            url: Vec::new(),
            method: encode_utf16("GET"),
            referrer_url: Vec::new(),
            referrer_policy: 0,
            post_data: None,
            headers: Vec::new(),
            flags: 0,
            first_party_for_cookies: Vec::new(),
            resource_type: 6,
            transition_type: 0,
            identifier: 0,
        };
        assert(r@.headers =~= Seq::<(Seq<u16>, Seq<u16>)>::empty());
        r
    }

    /// Marks the request read-only, as the foreign side does for a request
    /// in flight.
    pub fn mark_read_only(&mut self)
        ensures
            final(self)@ == (RequestModel { read_only: true, ..old(self)@ }),
    {
        self.read_only = true;
    }

    /// Records the identifier, resource type and transition type that the
    /// foreign side assigns to a request it issues.
    pub fn assign(&mut self, identifier: u64, resource_type: i32, transition_type: u32)
        ensures
            final(self)@ == (RequestModel {
                identifier: identifier,
                resource_type: resource_type,
                transition_type: transition_type,
                ..old(self)@
            }),
    {
        self.identifier = identifier;
        self.resource_type = resource_type;
        self.transition_type = transition_type;
    }

    /// Returns true if this object is read-only; true as well when the
    /// foreign table cannot tell.
    pub fn is_read_only(&self) -> (r: bool)
        ensures
            r == (!self@.table.is_read_only || self@.read_only),
    {
        if self.table.is_read_only {
            self.read_only
        } else {
            true
        }
    }

    /// The fully qualified URL; empty when the table cannot tell.
    pub fn get_url(&self) -> (r: String)
        ensures
            self@.table.get_url ==> r@ == decode_lossy(self@.url),
            !self@.table.get_url ==> r@.len() == 0,
    {
        if self.table.get_url {
            decode_utf16(self.url.as_slice())
        } else {
            String::new()
        }
    }

    /// Sets the fully qualified URL.
    pub fn set_url(&mut self, url: &str)
        ensures
            if old(self)@.table.set_url && writable(old(self)@) {
                final(self)@ == (RequestModel { url: utf16_of(url@), ..old(self)@ })
            } else {
                final(self)@ == old(self)@
            },
    {
        if self.table.set_url && !self.read_only {
            self.url = encode_utf16(url);
        }
    }

    /// The request method; "GET" when the table cannot tell.
    pub fn get_method(&self) -> (r: String)
        ensures
            self@.table.get_method ==> r@ == decode_lossy(self@.method),
            !self@.table.get_method ==> r@ == "GET"@,
    {
        if self.table.get_method {
            decode_utf16(self.method.as_slice())
        } else {
            String::from_str("GET")
        }
    }

    /// Sets the request method.
    pub fn set_method(&mut self, method: &str)
        ensures
            if old(self)@.table.set_method && writable(old(self)@) {
                final(self)@ == (RequestModel { method: utf16_of(method@), ..old(self)@ })
            } else {
                final(self)@ == old(self)@
            },
    {
        if self.table.set_method && !self.read_only {
            self.method = encode_utf16(method);
        }
    }

    /// Sets the referrer URL and policy. Without a URL nothing changes.
    pub fn set_referrer(&mut self, referrer_url: Option<&str>, policy: ReferrerPolicy)
        ensures
            if old(self)@.table.set_referrer && writable(old(self)@) && referrer_url is Some {
                final(self)@ == (RequestModel {
                    referrer_url: utf16_of(referrer_url->0@),
                    referrer_policy: policy.spec_raw(),
                    ..old(self)@
                })
            } else {
                final(self)@ == old(self)@
            },
    {
        if self.table.set_referrer && !self.read_only {
            match referrer_url {
                Some(u) => {
                    self.referrer_url = encode_utf16(u);
                    self.referrer_policy = policy.to_raw();
                },
                None => {},
            }
        }
    }

    /// The referrer URL; empty when the table cannot tell.
    pub fn get_referrer_url(&self) -> (r: String)
        ensures
            self@.table.get_referrer_url ==> r@ == decode_lossy(self@.referrer_url),
            !self@.table.get_referrer_url ==> r@.len() == 0,
    {
        if self.table.get_referrer_url {
            decode_utf16(self.referrer_url.as_slice())
        } else {
            String::new()
        }
    }

    /// The referrer policy: `Default` when the table cannot tell, and an
    /// error for a foreign value that names no policy.
    pub fn get_referrer_policy(&self) -> (r: Result<ReferrerPolicy, UnrecognizedVariant>)
        ensures
            !self@.table.get_referrer_policy ==> r == Ok::<ReferrerPolicy, UnrecognizedVariant>(
                ReferrerPolicy::Default,
            ),
            self@.table.get_referrer_policy ==> (r is Ok <==> 0 <= self@.referrer_policy < 8),
            self@.table.get_referrer_policy && r is Ok ==> r->Ok_0.spec_raw()
                == self@.referrer_policy,
            self@.table.get_referrer_policy && r is Err ==> r->Err_0.value
                == self@.referrer_policy,
    {
        if self.table.get_referrer_policy {
            ReferrerPolicy::from_unchecked(self.referrer_policy)
        } else {
            Ok(ReferrerPolicy::Default)
        }
    }

    /// The post data; `None` when there is none or the table cannot tell.
    pub fn get_post_data(&self) -> (r: Option<&PostData>)
        ensures
            self@.table.get_post_data ==> match r {
                Some(p) => self@.post_data == Some(p@),
                None => self@.post_data is None,
            },
            !self@.table.get_post_data ==> r is None,
    {
        if self.table.get_post_data {
            match &self.post_data {
                Some(p) => Some(p),
                None => None,
            }
        } else {
            None
        }
    }

    /// Sets the post data.
    pub fn set_post_data(&mut self, post_data: PostData)
        ensures
            if old(self)@.table.set_post_data && writable(old(self)@) {
                final(self)@ == (RequestModel {
                    post_data: Some(post_data@),
                    method: method_with_post_data(old(self)@.method),
                    ..old(self)@
                })
            } else {
                final(self)@ == old(self)@
            },
    {
        if self.table.set_post_data && !self.read_only {
            let get = encode_utf16("GET");
            if same_units(&self.method, &get) {
                self.method = encode_utf16("POST");
            }
            self.post_data = Some(post_data);
        }
    }

    fn decoded_lists(&self) -> (r: (Vec<String>, Vec<String>))
        ensures
            r.0@.len() == r.1@.len(),
            zip(r.0@, r.1@) == decoded_pairs(self@.headers),
    {
        let mut names: Vec<String> = Vec::new();
        let mut values: Vec<String> = Vec::new();
        let mut i: usize = 0;
        while i < self.headers.len()
            invariant
                i <= self@.headers.len(),
                names@.len() == i,
                values@.len() == i,
                zip(names@, values@) == decoded_pairs(self@.headers.take(i as int)),
            decreases self@.headers.len() - i,
        {
            let ghost (n0, v0) = (names@, values@);
            names.push(decode_utf16(self.headers[i].name.as_slice()));
            values.push(decode_utf16(self.headers[i].value.as_slice()));
            proof {
                assert(zip(names@, values@) =~= zip(n0, v0).push(
                    (decode_lossy(self@.headers[i as int].0), decode_lossy(self@.headers[i as int].1)),
                ));
                assert(decoded_pairs(self@.headers.take(i as int + 1)) =~= decoded_pairs(
                    self@.headers.take(i as int),
                ).push(
                    (decode_lossy(self@.headers[i as int].0), decode_lossy(self@.headers[i as int].1)),
                ));
            }
            i = i + 1;
        }
        proof {
            assert(self@.headers.take(self@.headers.len() as int) =~= self@.headers);
        }
        (names, values)
    }

    /// The header values, grouped by name. Empty when the table cannot tell.
    pub fn get_header_map(&self) -> (r: HeaderMap)
        ensures
            r.wf(),
            self@.table.get_header_map ==> r@ == group(decoded_pairs(self@.headers)),
            !self@.table.get_header_map ==> r@.len() == 0,
    {
        if self.table.get_header_map {
            let (names, values) = self.decoded_lists();
            HeaderMap::from_pairs(&names, &values)
        } else {
            HeaderMap::new()
        }
    }

    /// The first value of the header `name`, or `None` where there is none
    /// or the table cannot tell.
    pub fn get_header_by_name(&self, name: &str) -> (r: Option<String>)
        ensures
            self@.table.get_header_by_name && header_index(self@.headers, utf16_of(name@)) >= 0
                ==> r is Some && r->0@ == decode_lossy(
                self@.headers[header_index(self@.headers, utf16_of(name@))].1,
            ),
            !(self@.table.get_header_by_name && header_index(self@.headers, utf16_of(name@)) >= 0)
                ==> r is None,
    {
        if !self.table.get_header_by_name {
            return None;
        }
        let key = encode_utf16(name);
        let ghost p = self@.headers;
        proof {
            lemma_header_index(p, key@);
        }
        let mut i: usize = 0;
        while i < self.headers.len()
            invariant
                p == self@.headers,
                key@ == utf16_of(name@),
                self@.table.get_header_by_name,
                i <= p.len(),
                forall|m: int| 0 <= m < i ==> p[m].0 != key@,
                -1 <= header_index(p, key@) < p.len(),
                header_index(p, key@) == -1 <==> forall|m: int| 0 <= m < p.len() ==> p[m].0 != key@,
                header_index(p, key@) >= 0 ==> p[header_index(p, key@)].0 == key@,
                forall|m: int| 0 <= m < header_index(p, key@) ==> p[m].0 != key@,
            decreases p.len() - i,
        {
            assert(p[i as int] == (self.headers@[i as int].name@, self.headers@[i as int].value@));
            if same_units(&self.headers[i].name, &key) {
                assert(header_index(p, key@) == i);
                return Some(decode_utf16(self.headers[i].value.as_slice()));
            }
            i = i + 1;
        }
        assert(header_index(p, key@) == -1);
        None
    }

    /// Sets the header `name` to `value`. With `overwrite`, any earlier
    /// values of `name` are replaced; without it, a name already present
    /// keeps its values. The Referer header cannot be set this way: use
    /// `set_referrer`.
    pub fn set_header_by_name(&mut self, name: &str, value: &str, overwrite: bool)
        ensures
            if old(self)@.table.set_header_by_name && writable(old(self)@) && !is_referer(
                utf16_of(name@),
            ) {
                final(self)@ == (RequestModel {
                    headers: set_header_spec(
                        old(self)@.headers,
                        utf16_of(name@),
                        utf16_of(value@),
                        overwrite,
                    ),
                    ..old(self)@
                })
            } else {
                final(self)@ == old(self)@
            },
    {
        if !(self.table.set_header_by_name && !self.read_only) {
            return;
        }
        let key = encode_utf16(name);
        if is_referer_name(&key) {
            return;
        }
        let val = encode_utf16(value);
        let ghost p = self@.headers;
        let mut kept: Vec<RawHeader> = Vec::new();
        let mut found = false;
        let mut i: usize = 0;
        while i < self.headers.len()
            invariant
                p == self@.headers,
                i <= p.len(),
                header_units(kept@) == without_name(p.take(i as int), key@),
                found == (header_index(p.take(i as int), key@) >= 0),
            decreases p.len() - i,
        {
            let ghost k0 = kept@;
            proof {
                assert(p.take(i as int + 1).drop_last() =~= p.take(i as int));
                assert(p.take(i as int + 1).last() == p[i as int]);
            }
            if same_units(&self.headers[i].name, &key) {
                found = true;
            } else {
                kept.push(
                    RawHeader {
                        name: copy_units(self.headers[i].name.as_slice()),
                        value: copy_units(self.headers[i].value.as_slice()),
                    },
                );
                proof {
                    assert(header_units(kept@) =~= header_units(k0).push(p[i as int]));
                }
            }
            i = i + 1;
        }
        proof {
            assert(p.take(p.len() as int) =~= p);
        }
        if overwrite {
            let ghost k0 = kept@;
            kept.push(RawHeader { name: key, value: val });
            proof {
                assert(header_units(kept@) =~= header_units(k0).push((utf16_of(name@), utf16_of(value@))));
            }
            self.headers = kept;
        } else if !found {
            let ghost h0 = self.headers@;
            self.headers.push(RawHeader { name: key, value: val });
            proof {
                assert(header_units(self.headers@) =~= header_units(h0).push(
                    (utf16_of(name@), utf16_of(value@)),
                ));
            }
        }
    }

    /// Sets the URL, method, post data and headers at one time. A Referer
    /// entry of the headers is left out: use `set_referrer`.
    pub fn set(&mut self, url: &str, method: &str, post_data: PostData, header_map: &HeaderMap)
        requires
            header_map.wf(),
        ensures
            if old(self)@.table.set && writable(old(self)@) {
                final(self)@ == (RequestModel {
                    url: utf16_of(url@),
                    method: utf16_of(method@),
                    post_data: Some(post_data@),
                    headers: without_referer(encoded_pairs(flatten(header_map@))),
                    ..old(self)@
                })
            } else {
                final(self)@ == old(self)@
            },
    {
        if !(self.table.set && !self.read_only) {
            return;
        }
        let (names, values) = header_map.to_pairs();
        let ghost p = flatten(header_map@);
        let mut headers: Vec<RawHeader> = Vec::new();
        let mut i: usize = 0;
        while i < names.len()
            invariant
                names@.len() == values@.len(),
                zip(names@, values@) == p,
                i <= names@.len(),
                header_units(headers@) == without_referer(encoded_pairs(p.take(i as int))),
            decreases names@.len() - i,
        {
            let ghost h0 = headers@;
            let name_units = encode_utf16(names[i].as_str());
            let value_units = encode_utf16(values[i].as_str());
            proof {
                assert(p[i as int] == (names@[i as int]@, values@[i as int]@));
                let q = encoded_pairs(p.take(i as int + 1));
                assert(q.drop_last() =~= encoded_pairs(p.take(i as int)));
                assert(q.last() == (utf16_of(p[i as int].0), utf16_of(p[i as int].1)));
            }
            if !is_referer_name(&name_units) {
                headers.push(RawHeader { name: name_units, value: value_units });
                proof {
                    assert(header_units(headers@) =~= header_units(h0).push(
                        (utf16_of(p[i as int].0), utf16_of(p[i as int].1)),
                    ));
                }
            }
            i = i + 1;
        }
        proof {
            assert(p.take(p.len() as int) =~= p);
        }
        self.url = encode_utf16(url);
        self.method = encode_utf16(method);
        self.post_data = Some(post_data);
        self.headers = headers;
    }

    /// The flags; none when the table cannot tell.
    pub fn get_flags(&self) -> (r: Vec<URLRequestFlags>)
        ensures
            self@.table.get_flags ==> r@ == flags_in(self@.flags, FLAG_COUNT as nat),
            !self@.table.get_flags ==> r@.len() == 0,
    {
        if self.table.get_flags {
            URLRequestFlags::from_bitfield(self.flags)
        } else {
            Vec::new()
        }
    }

    /// Sets the flags.
    pub fn set_flags(&mut self, flags: &[URLRequestFlags])
        ensures
            if old(self)@.table.set_flags && writable(old(self)@) {
                final(self)@ == (RequestModel { flags: bitfield_of(flags@), ..old(self)@ })
            } else {
                final(self)@ == old(self)@
            },
    {
        if self.table.set_flags && !self.read_only {
            self.flags = URLRequestFlags::to_bitfield(flags);
        }
    }

    /// The URL of the first party for cookies; empty when the table cannot
    /// tell.
    pub fn get_first_party_for_cookies(&self) -> (r: String)
        ensures
            self@.table.get_first_party_for_cookies ==> r@ == decode_lossy(
                self@.first_party_for_cookies,
            ),
            !self@.table.get_first_party_for_cookies ==> r@.len() == 0,
    {
        if self.table.get_first_party_for_cookies {
            decode_utf16(self.first_party_for_cookies.as_slice())
        } else {
            String::new()
        }
    }

    /// Sets the URL of the first party for cookies.
    pub fn set_first_party_for_cookies(&mut self, url: &str)
        ensures
            if old(self)@.table.set_first_party_for_cookies && writable(old(self)@) {
                final(self)@ == (RequestModel {
                    first_party_for_cookies: utf16_of(url@),
                    ..old(self)@
                })
            } else {
                final(self)@ == old(self)@
            },
    {
        if self.table.set_first_party_for_cookies && !self.read_only {
            self.first_party_for_cookies = encode_utf16(url);
        }
    }

    /// The resource type: `SubResource` when the table cannot tell, and an
    /// error for a foreign value that names no resource type.
    pub fn get_resource_type(&self) -> (r: Result<ResourceType, UnrecognizedVariant>)
        ensures
            !self@.table.get_resource_type ==> r == Ok::<ResourceType, UnrecognizedVariant>(
                ResourceType::SubResource,
            ),
            self@.table.get_resource_type ==> (r is Ok <==> 0 <= self@.resource_type < 18),
            self@.table.get_resource_type && r is Ok ==> r->Ok_0.spec_raw()
                == self@.resource_type,
            self@.table.get_resource_type && r is Err ==> r->Err_0.value == self@.resource_type,
    {
        if self.table.get_resource_type {
            ResourceType::from_unchecked(self.resource_type)
        } else {
            Ok(ResourceType::SubResource)
        }
    }

    /// The raw transition type; zero when the table cannot tell.
    pub fn get_transition_type(&self) -> (r: u32)
        ensures
            self@.table.get_transition_type ==> r == self@.transition_type,
            !self@.table.get_transition_type ==> r == 0,
    {
        if self.table.get_transition_type {
            self.transition_type
        } else {
            0
        }
    }

    /// The globally unique identifier of the request, or 0 if not specified
    /// or the table cannot tell.
    pub fn get_identifier(&self) -> (r: u64)
        ensures
            self@.table.get_identifier ==> r == self@.identifier,
            !self@.table.get_identifier ==> r == 0,
    {
        if self.table.get_identifier {
            self.identifier
        } else {
            0
        }
    }
}

} // verus!
