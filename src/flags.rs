use vstd::prelude::*;

verus! {

/// Flags used to customize the behavior of a URL request.
///
/// On the foreign side a set of flags is a 32-bit signed bitfield in which
/// bit `i` stands for the flag declared at position `i`.
#[derive(Clone, Copy, Debug, PartialEq, Eq, Structural)]
pub enum URLRequestFlags {
    /// The cache is skipped when handling the request.
    SkipCache,
    /// The request fails if it cannot be served from the cache.
    OnlyFromCache,
    /// The cache is not used at all.
    DisableCache,
    /// User name, password and cookies may be sent, and cookies may be saved.
    AllowStoredCredentials,
    /// Upload progress events are generated when a request has a body.
    ReportUploadProgress,
    /// Downloaded data is not reported.
    NoDownloadData,
    /// 5XX redirect errors are propagated instead of retried.
    NoRetryOn5xx,
    /// 3XX responses halt the fetch instead of following the redirect.
    StopOnRedirect,
}

/// Number of defined flags.
pub const FLAG_COUNT: u32 = 8;

impl URLRequestFlags {
    /// Declaration position of the flag.
    pub open spec fn spec_index(self) -> u32 {
        match self {
            URLRequestFlags::SkipCache => 0,
            URLRequestFlags::OnlyFromCache => 1,
            URLRequestFlags::DisableCache => 2,
            URLRequestFlags::AllowStoredCredentials => 3,
            URLRequestFlags::ReportUploadProgress => 4,
            URLRequestFlags::NoDownloadData => 5,
            URLRequestFlags::NoRetryOn5xx => 6,
            URLRequestFlags::StopOnRedirect => 7,
        }
    }

    /// The bit that stands for the flag in a bitfield.
    pub open spec fn spec_bit(self) -> i32 {
        1i32 << self.spec_index()
    }

    /// The flag declared at position `i`.
    pub open spec fn spec_at(i: u32) -> URLRequestFlags {
        if i == 0 {
            URLRequestFlags::SkipCache
        } else if i == 1 {
            URLRequestFlags::OnlyFromCache
        } else if i == 2 {
            URLRequestFlags::DisableCache
        } else if i == 3 {
            URLRequestFlags::AllowStoredCredentials
        } else if i == 4 {
            URLRequestFlags::ReportUploadProgress
        } else if i == 5 {
            URLRequestFlags::NoDownloadData
        } else if i == 6 {
            URLRequestFlags::NoRetryOn5xx
        } else {
            URLRequestFlags::StopOnRedirect
        }
    }

    pub fn index(&self) -> (r: u32)
        ensures
            r == self.spec_index(),
            r < FLAG_COUNT,
    {
        match self {
            URLRequestFlags::SkipCache => 0,
            URLRequestFlags::OnlyFromCache => 1,
            URLRequestFlags::DisableCache => 2,
            URLRequestFlags::AllowStoredCredentials => 3,
            URLRequestFlags::ReportUploadProgress => 4,
            URLRequestFlags::NoDownloadData => 5,
            URLRequestFlags::NoRetryOn5xx => 6,
            URLRequestFlags::StopOnRedirect => 7,
        }
    }

    /// The flag declared at position `i`.
    pub fn at(i: u32) -> (r: URLRequestFlags)
        requires
            i < FLAG_COUNT,
        ensures
            r == Self::spec_at(i),
            r.spec_index() == i,
    {
        if i == 0 {
            URLRequestFlags::SkipCache
        } else if i == 1 {
            URLRequestFlags::OnlyFromCache
        } else if i == 2 {
            URLRequestFlags::DisableCache
        } else if i == 3 {
            URLRequestFlags::AllowStoredCredentials
        } else if i == 4 {
            URLRequestFlags::ReportUploadProgress
        } else if i == 5 {
            URLRequestFlags::NoDownloadData
        } else if i == 6 {
            URLRequestFlags::NoRetryOn5xx
        } else {
            URLRequestFlags::StopOnRedirect
        }
    }

    /// The bit that stands for the flag in a bitfield.
    pub fn bit(&self) -> (r: i32)
        ensures
            r == self.spec_bit(),
    {
        1i32 << self.index()
    }

    /// Encodes a list of flags as a bitfield: the OR of the bits of its flags.
    pub fn to_bitfield(flags: &[URLRequestFlags]) -> (r: i32)
        ensures
            r == bitfield_of(flags@),
    {
        let mut acc: i32 = 0;
        let mut i: usize = 0;
        while i < flags.len()
            invariant
                i <= flags@.len(),
                acc == bitfield_of(flags@.subrange(0, i as int)),
            decreases flags@.len() - i,
        {
            proof {
                assert(flags@.subrange(0, i as int + 1).drop_last() =~= flags@.subrange(0, i as int));
            }
            acc = acc | flags[i].bit();
            i = i + 1;
        }
        proof {
            assert(flags@.subrange(0, flags@.len() as int) =~= flags@);
        }
        acc
    }

    /// Decodes a bitfield: the defined flags whose bit is set, in declaration
    /// order. Bits that stand for no flag are ignored.
    pub fn from_bitfield(bitfield: i32) -> (r: Vec<URLRequestFlags>)
        ensures
            r@ == flags_in(bitfield, FLAG_COUNT as nat),
    {
        let mut r: Vec<URLRequestFlags> = Vec::new();
        let mut i: u32 = 0;
        while i < FLAG_COUNT
            invariant
                i <= FLAG_COUNT,
                r@ == flags_in(bitfield, i as nat),
            decreases FLAG_COUNT - i,
        {
            let f = URLRequestFlags::at(i);
            if bitfield & f.bit() != 0 {
                r.push(f);
            }
            i = i + 1;
        }
        r
    }
}

/// The bitfield of a sequence of flags: the OR of their bits.
pub open spec fn bitfield_of(s: Seq<URLRequestFlags>) -> i32
    decreases s.len(),
{
    if s.len() == 0 {
        0
    } else {
        bitfield_of(s.drop_last()) | s.last().spec_bit()
    }
}

/// The flags among the first `n` declared whose bit is set in `b`, in
/// declaration order.
pub open spec fn flags_in(b: i32, n: nat) -> Seq<URLRequestFlags>
    decreases n,
{
    if n == 0 {
        Seq::empty()
    } else {
        let f = URLRequestFlags::spec_at((n - 1) as u32);
        if b & f.spec_bit() != 0 {
            flags_in(b, (n - 1) as nat).push(f)
        } else {
            flags_in(b, (n - 1) as nat)
        }
    }
}

proof fn lemma_or_bit(a: i32, i: u32, j: u32)
    requires
        i < 8,
        j < 8,
    ensures
        ((a | (1i32 << i)) & (1i32 << j) != 0) <==> ((a & (1i32 << j)) != 0 || i == j),
{
    assert(((a | (1i32 << i)) & (1i32 << j) != 0) <==> ((a & (1i32 << j)) != 0 || i == j))
        by (bit_vector)
        requires
            i < 8,
            j < 8,
    ;
}

proof fn lemma_zero_has_no_bit(j: u32)
    requires
        j < 8,
    ensures
        (0i32 & (1i32 << j)) == 0,
{
    assert((0i32 & (1i32 << j)) == 0) by (bit_vector);
}

/// A flag's bit is set in the bitfield of a sequence exactly when the flag
/// occurs in it.
proof fn lemma_bitfield_has(s: Seq<URLRequestFlags>, f: URLRequestFlags)
    ensures
        (bitfield_of(s) & f.spec_bit() != 0) <==> s.contains(f),
    decreases s.len(),
{
    if s.len() == 0 {
        lemma_zero_has_no_bit(f.spec_index());
    } else {
        lemma_bitfield_has(s.drop_last(), f);
        lemma_or_bit(bitfield_of(s.drop_last()), s.last().spec_index(), f.spec_index());
        if s.contains(f) && !s.drop_last().contains(f) {
            let k = choose|k: int| 0 <= k < s.len() && s[k] == f;
            if k < s.len() - 1 {
                assert(s.drop_last()[k] == f);
            }
        }
        if s.drop_last().contains(f) {
            let k = choose|k: int| 0 <= k < s.len() - 1 && s.drop_last()[k] == f;
            assert(s[k] == f);
        }
        if s.last() == f {
            assert(s[s.len() - 1] == f);
        }
    }
}

/// A flag occurs among the decoded flags of the first `n` positions exactly
/// when it is declared before `n` and its bit is set.
proof fn lemma_flags_in_has(b: i32, n: nat, f: URLRequestFlags)
    requires
        n <= 8,
    ensures
        flags_in(b, n).contains(f) <==> (f.spec_index() < n && b & f.spec_bit() != 0),
    decreases n,
{
    if n > 0 {
        lemma_flags_in_has(b, (n - 1) as nat, f);
        let g = URLRequestFlags::spec_at((n - 1) as u32);
        let p = flags_in(b, (n - 1) as nat);
        if b & g.spec_bit() != 0 {
            assert(p.push(g)[p.len() as int] == g);
            if p.push(g).contains(f) && f != g {
                let k = choose|k: int| 0 <= k < p.len() + 1 && p.push(g)[k] == f;
                assert(p[k] == f);
            }
            if p.contains(f) {
                let k = choose|k: int| 0 <= k < p.len() && p[k] == f;
                assert(p.push(g)[k] == f);
            }
        }
    }
}

/// Encoding a set of flags as a bitfield and decoding it again gives back the
/// same set of flags.
pub proof fn lemma_bitfield_round_trip(s: Seq<URLRequestFlags>)
    ensures
        flags_in(bitfield_of(s), FLAG_COUNT as nat).to_set() == s.to_set(),
{
    assert forall|f: URLRequestFlags|
        flags_in(bitfield_of(s), FLAG_COUNT as nat).to_set().contains(f) <==> s.to_set().contains(f)
    by {
        lemma_flags_in_has(bitfield_of(s), FLAG_COUNT as nat, f);
        lemma_bitfield_has(s, f);
    }
    assert(flags_in(bitfield_of(s), FLAG_COUNT as nat).to_set() =~= s.to_set());
}

} // verus!
