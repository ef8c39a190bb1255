//! Profiles returned by the ListAvailableProfiles API, and the region of a profile ARN.

use vstd::prelude::*;
use vstd::string::StrSliceExecFns;

verus! {

/// ListAvailableProfiles response.
#[derive(Debug, Clone)]
pub struct ListAvailableProfilesResponse {
    /// Available profiles (empty when the field is absent).
    pub profiles: Vec<Profile>,
}

/// One profile.
#[derive(Debug, Clone)]
pub struct Profile {
    /// Profile ARN, `arn:aws:codewhisperer:{region}:{account}:profile/{id}`.
    pub arn: String,
    /// Display name, when present.
    pub profile_name: Option<String>,
}

/// Index of the first `sep` in `s`.
pub open spec fn sep_index(s: Seq<char>, sep: char) -> Option<int>
    decreases s.len(),
{
    if s.len() == 0 {
        None
    } else if s[0] == sep {
        Some(0)
    } else {
        match sep_index(s.drop_first(), sep) {
            Some(i) => Some(i + 1),
            None => None,
        }
    }
}

/// The `k`-th (0-based) `sep`-separated field of `s`, if `s` has that many fields.
pub open spec fn nth_field(s: Seq<char>, sep: char, k: nat) -> Option<Seq<char>>
    decreases s.len(),
{
    match sep_index(s, sep) {
        None => if k == 0 { Some(s) } else { None },
        Some(i) => if k == 0 {
            Some(s.take(i))
        } else if 0 <= i < s.len() {
            nth_field(s.skip(i + 1), sep, (k - 1) as nat)
        } else {
            None
        },
    }
}

/// The region of an ARN: its fourth `:`-separated field, when present and not empty.
pub open spec fn arn_region(arn: Seq<char>) -> Option<Seq<char>> {
    match nth_field(arn, ':', 3) {
        Some(r) => if r.len() > 0 { Some(r) } else { None },
        None => None,
    }
}

proof fn lemma_sep_index_at(s: Seq<char>, sep: char, m: int)
    requires
        0 <= m <= s.len(),
        forall|j: int| 0 <= j < m ==> s[j] != sep,
    ensures
        m < s.len() && s[m] == sep ==> sep_index(s, sep) == Some(m),
        m == s.len() ==> sep_index(s, sep) is None,
    decreases m,
{
    if m > 0 {
        lemma_sep_index_at(s.drop_first(), sep, m - 1);
    }
}

impl Profile {
    /// The region named by the ARN (its fourth `:`-separated field); `None` when the ARN has
    /// fewer fields or that field is empty.
    pub fn region_from_arn(&self) -> (res: Option<&str>)
        ensures
            match arn_region(self.arn@) {
                Some(r) => res is Some && res->0@ == r,
                None => res is None,
            },
    {
        let s = self.arn.as_str();
        let n = s.unicode_len();
        let ghost full = s@;
        let mut start: usize = 0;
        let mut field: usize = 0;
        let mut i: usize = 0;
        assert(full.skip(0) =~= full);
        // Find where field 3 starts.
        while i < n && field < 3
            invariant
                n == full.len(),
                full == s@,
                start <= i <= n,
                field <= 3,
                forall|j: int| start <= j < i ==> full[j] != ':',
                nth_field(full, ':', 3) == nth_field(full.skip(start as int), ':', (3 - field) as nat),
            decreases n - i,
        {
            if s.get_char(i) == ':' {
                proof {
                    let t = full.skip(start as int);
                    lemma_sep_index_at(t, ':', i - start);
                    assert(t.skip(i - start + 1) =~= full.skip(i + 1));
                }
                field += 1;
                start = i + 1;
            }
            i += 1;
        }
        if field < 3 {
            proof {
                let t = full.skip(start as int);
                lemma_sep_index_at(t, ':', i - start);
            }
            return None;
        }
        // Field 3 runs up to the next separator or the end.
        let mut end = start;
        while end < n && s.get_char(end) != ':'
            invariant
                n == full.len(),
                full == s@,
                start <= end <= n,
                forall|j: int| start <= j < end ==> full[j] != ':',
            decreases n - end,
        {
            end += 1;
        }
        proof {
            let t = full.skip(start as int);
            lemma_sep_index_at(t, ':', end - start);
            assert(t.take(end - start) =~= full.subrange(start as int, end as int));
            if end == n {
                assert(t =~= full.subrange(start as int, end as int));
            }
        }
        if end == start {
            None
        } else {
            Some(s.substring_char(start, end))
        }
    }
}

} // verus!
