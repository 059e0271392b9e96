use vstd::prelude::*;

verus! {

/// Line separator in secrets files.
pub const NL: u8 = 10;

/// Comment marker in secrets files.
pub const HASH: u8 = 35;

/// Key/value separator in secrets files.
pub const EQ: u8 = 61;

pub const SLASH: u8 = 47;

pub const COLON: u8 = 58;

/// ASCII whitespace: tab through carriage return, and space.
pub open spec fn is_space(b: u8) -> bool {
    b == 32 || (9 <= b && b <= 13)
}

pub fn is_space_byte(b: u8) -> (r: bool)
    ensures
        r == is_space(b),
{
    b == 32 || (9 <= b && b <= 13)
}

/// Index of the first occurrence of `b` in `s` at or after `from`.
pub open spec fn find_from(s: Seq<u8>, from: int, b: u8) -> Option<int>
    decreases s.len() - from,
{
    if from < 0 || from >= s.len() {
        None
    } else if s[from] == b {
        Some(from)
    } else {
        find_from(s, from + 1, b)
    }
}

/// What `find_from` returns: the first hit, or a guarantee that there is none.
pub proof fn lemma_find_from_props(s: Seq<u8>, from: int, b: u8)
    requires
        0 <= from <= s.len(),
    ensures
        (match find_from(s, from, b) {
            Some(i) => from <= i < s.len() && s[i] == b && (forall|j: int|
                from <= j < i ==> s[j] != b),
            None => forall|j: int| from <= j < s.len() ==> s[j] != b,
        }),
    decreases s.len() - from,
{
    if from < s.len() && s[from] != b {
        lemma_find_from_props(s, from + 1, b);
    }
}

pub proof fn lemma_find_from_some(s: Seq<u8>, from: int, b: u8, i: int)
    requires
        0 <= from <= i < s.len(),
        s[i] == b,
        forall|j: int| from <= j < i ==> s[j] != b,
    ensures
        find_from(s, from, b) == Some(i),
    decreases i - from,
{
    if from < i {
        lemma_find_from_some(s, from + 1, b, i);
    }
}

pub proof fn lemma_find_from_none(s: Seq<u8>, from: int, b: u8)
    requires
        0 <= from <= s.len(),
        forall|j: int| from <= j < s.len() ==> s[j] != b,
    ensures
        find_from(s, from, b) is None,
    decreases s.len() - from,
{
    if from < s.len() {
        lemma_find_from_none(s, from + 1, b);
    }
}

/// Searching a suffix finds the same occurrence, shifted by the offset.
pub proof fn lemma_find_from_skip(s: Seq<u8>, pos: int, b: u8)
    requires
        0 <= pos <= s.len(),
    ensures
        (match find_from(s, pos, b) {
            Some(i) => find_from(s.skip(pos), 0, b) == Some(i - pos),
            None => find_from(s.skip(pos), 0, b) is None,
        }),
{
    lemma_find_from_props(s, pos, b);
    match find_from(s, pos, b) {
        Some(i) => {
            assert(s.skip(pos)[i - pos] == b);
            lemma_find_from_some(s.skip(pos), 0, b, i - pos);
        },
        None => {
            lemma_find_from_none(s.skip(pos), 0, b);
        },
    }
}

pub fn find_byte(s: &Vec<u8>, from: usize, b: u8) -> (r: Option<usize>)
    requires
        from <= s@.len(),
    ensures
        (match r {
            Some(i) => from <= i < s@.len() && find_from(s@, from as int, b) == Some(i as int),
            None => find_from(s@, from as int, b) is None,
        }),
{
    let mut i: usize = from;
    while i < s.len()
        invariant
            from <= i <= s@.len(),
            find_from(s@, from as int, b) == find_from(s@, i as int, b),
        decreases s@.len() - i,
    {
        if s[i] == b {
            return Some(i);
        }
        i = i + 1;
    }
    None
}

/// `s` with leading ASCII whitespace removed.
pub open spec fn trim_front(s: Seq<u8>) -> Seq<u8>
    decreases s.len(),
{
    if s.len() > 0 && is_space(s[0]) {
        trim_front(s.skip(1))
    } else {
        s
    }
}

/// `s` with trailing ASCII whitespace removed.
pub open spec fn trim_back(s: Seq<u8>) -> Seq<u8>
    decreases s.len(),
{
    if s.len() > 0 && is_space(s[s.len() - 1]) {
        trim_back(s.take(s.len() - 1))
    } else {
        s
    }
}

/// `s` with surrounding ASCII whitespace removed.
pub open spec fn trim(s: Seq<u8>) -> Seq<u8> {
    trim_back(trim_front(s))
}

/// Copy of `s[lo..hi]`.
pub fn copy_range(s: &Vec<u8>, lo: usize, hi: usize) -> (r: Vec<u8>)
    requires
        lo <= hi <= s@.len(),
    ensures
        r@ == s@.subrange(lo as int, hi as int),
{
    let mut r: Vec<u8> = Vec::new();
    let mut i: usize = lo;
    while i < hi
        invariant
            lo <= i <= hi <= s@.len(),
            r@ == s@.subrange(lo as int, i as int),
        decreases hi - i,
    {
        r.push(s[i]);
        i = i + 1;
        proof {
            assert(s@.subrange(lo as int, i as int) =~= s@.subrange(lo as int, i - 1).push(
                s@[i - 1],
            ));
        }
    }
    r
}

/// Append a copy of `s` to `out`.
pub fn append_bytes(out: &mut Vec<u8>, s: &Vec<u8>)
    ensures
        final(out)@ == old(out)@ + s@,
{
    let mut i: usize = 0;
    while i < s.len()
        invariant
            i <= s@.len(),
            out@ == old(out)@ + s@.take(i as int),
        decreases s@.len() - i,
    {
        out.push(s[i]);
        i = i + 1;
        proof {
            assert(old(out)@ + s@.take(i as int) =~= (old(out)@ + s@.take(i - 1)).push(s@[i - 1]));
        }
    }
    proof {
        assert(s@.take(s@.len() as int) =~= s@);
    }
}

/// Copy of `s`.
pub fn copy_bytes(s: &Vec<u8>) -> (r: Vec<u8>)
    ensures
        r@ == s@,
{
    let r = copy_range(s, 0, s.len());
    proof {
        assert(s@.subrange(0, s@.len() as int) =~= s@);
    }
    r
}

/// Remove surrounding ASCII whitespace.
pub fn trim_bytes(s: &Vec<u8>) -> (r: Vec<u8>)
    ensures
        r@ == trim(s@),
{
    let mut lo: usize = 0;
    let mut hi: usize = s.len();
    proof {
        assert(s@.skip(0) =~= s@);
    }
    while lo < hi && is_space_byte(s[lo])
        invariant
            lo <= hi <= s@.len(),
            hi == s@.len(),
            trim_front(s@) == trim_front(s@.skip(lo as int)),
        decreases hi - lo,
    {
        proof {
            assert(s@.skip(lo as int).skip(1) =~= s@.skip(lo as int + 1));
        }
        lo = lo + 1;
    }
    proof {
        assert(trim_front(s@.skip(lo as int)) == s@.skip(lo as int));
        assert(s@.skip(lo as int).take(hi - lo) =~= s@.skip(lo as int));
    }
    while lo < hi && is_space_byte(s[hi - 1])
        invariant
            lo <= hi <= s@.len(),
            trim_front(s@) == s@.skip(lo as int),
            trim_back(s@.skip(lo as int)) == trim_back(s@.skip(lo as int).take(hi - lo)),
        decreases hi - lo,
    {
        proof {
            let t = s@.skip(lo as int);
            assert(t.take(hi - lo)[hi - lo - 1] == s@[hi - 1]);
            assert(t.take(hi - lo).take(hi - lo - 1) =~= t.take(hi - 1 - lo));
        }
        hi = hi - 1;
    }
    proof {
        let t = s@.skip(lo as int);
        assert(trim_back(t.take(hi - lo)) == t.take(hi - lo));
        assert(s@.subrange(lo as int, hi as int) =~= t.take(hi - lo));
    }
    copy_range(s, lo, hi)
}

} // verus!
