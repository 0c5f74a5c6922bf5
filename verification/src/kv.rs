use vstd::prelude::*;
use crate::error::HttpError;

verus! {

/// One `key=value` token from the command line: the key is everything
/// before the first `=`, the value everything after it (so the value may
/// itself contain `=` characters, which are literal content).
#[derive(Debug)]
pub struct KvPair {
    pub key: String,
    pub value: String,
}

impl View for KvPair {
    type V = (Seq<char>, Seq<char>);

    open spec fn view(&self) -> (Seq<char>, Seq<char>) {
        (self.key@, self.value@)
    }
}

/// `s` contains at least one `=`.
pub open spec fn has_eq(s: Seq<char>) -> bool {
    exists|i: int| 0 <= i < s.len() && s[i] == '='
}

/// `p` is `s` split at its first `=`: key before, value after.
pub open spec fn splits_kv(s: Seq<char>, p: KvPair) -> bool {
    exists|i: int| splits_at_first_eq(s, i, p)
}

/// `i` is the position of the first `=` in `s`, and `p` is `s` split
/// around it: key before, value after.
pub open spec fn splits_at_first_eq(s: Seq<char>, i: int, p: KvPair) -> bool {
    &&& 0 <= i < s.len()
    &&& s[i] == '='
    &&& (forall|j: int| 0 <= j < i ==> s[j] != '=')
    &&& p.key@ == s.subrange(0, i)
    &&& p.value@ == s.subrange(i + 1, s.len() as int)
}

impl KvPair {
    /// Parses one token. A token without `=` is rejected with
    /// `MalformedKeyValuePair`; otherwise the token is split at its first
    /// `=` into key and value (the value may be empty).
    pub fn from_str(s: &str) -> (r: Result<KvPair, HttpError>)
        ensures
            has_eq(s@) <==> r is Ok,
            r matches Ok(p) ==> splits_kv(s@, p),
            r matches Err(e) ==> (e matches HttpError::MalformedKeyValuePair { token }
                && token@ == s@),
    {
        let n = s.unicode_len();
        let mut i: usize = 0;
        while i < n
            invariant
                n == s@.len(),
                0 <= i <= n,
                forall|j: int| 0 <= j < i ==> s@[j] != '=',
            decreases n - i,
        {
            if s.get_char(i) == '=' {
                let key = s.substring_char(0, i).to_owned();
                let value = s.substring_char(i + 1, n).to_owned();
                let p = KvPair { key, value };
                proof {
                    assert(splits_at_first_eq(s@, i as int, p));
                    assert(splits_kv(s@, p));
                    assert(has_eq(s@));
                }
                return Ok(p);
            }
            i = i + 1;
        }
        Err(HttpError::MalformedKeyValuePair { token: s.to_owned() })
    }
}

} // verus!
