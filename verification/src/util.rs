use vstd::prelude::*;
use vstd::string::StringExecFns;

verus! {

/// The decimal rendering of one digit.
pub open spec fn digit_char(d: int) -> char
    recommends
        0 <= d < 10,
{
    if d == 0 {
        '0'
    } else if d == 1 {
        '1'
    } else if d == 2 {
        '2'
    } else if d == 3 {
        '3'
    } else if d == 4 {
        '4'
    } else if d == 5 {
        '5'
    } else if d == 6 {
        '6'
    } else if d == 7 {
        '7'
    } else if d == 8 {
        '8'
    } else {
        '9'
    }
}

/// The decimal rendering of a number, most significant digit first.
pub open spec fn dec_digits(n: int) -> Seq<char>
    recommends
        n >= 0,
    decreases n,
{
    if n < 10 {
        seq![digit_char(n)]
    } else {
        dec_digits(n / 10).push(digit_char(n % 10))
    }
}

/// Relies on `core::fmt::Display` for `u64`: plain decimal digits,
/// no sign, no padding.
#[verifier::external_body]
pub fn u64_to_string(n: u64) -> (r: String)
    ensures
        r@ == dec_digits(n as int),
{
    format!("{}", n)
}

/// An identifier built from a fixed prefix and a serial number.
pub open spec fn serial_id(prefix: Seq<char>, n: int) -> Seq<char> {
    prefix + dec_digits(n)
}

pub fn make_id(prefix: &str, n: u64) -> (s: String)
    ensures
        s@ == serial_id(prefix@, n as int),
{
    let digits = u64_to_string(n);
    let s = String::from_str(prefix).concat(digits.as_str());
    s
}

/// What `str::to_uppercase` returns: a function of the characters alone.
pub uninterp spec fn upper_of(s: Seq<char>) -> Seq<char>;

/// Relies on `str::to_uppercase`: the result depends on the characters alone,
/// and an empty string stays empty.
#[verifier::external_body]
pub fn to_upper(s: &String) -> (r: String)
    ensures
        r@ == upper_of(s@),
        s@.len() == 0 ==> r@.len() == 0,
{
    s.to_uppercase()
}

/// The views of a list of key-value pairs.
pub open spec fn pairs_view(s: Seq<(String, String)>) -> Seq<(Seq<char>, Seq<char>)> {
    s.map_values(|p: (String, String)| (p.0@, p.1@))
}

/// Copies a list of key-value pairs, keeping its contents.
pub fn clone_pairs(v: &Vec<(String, String)>) -> (r: Vec<(String, String)>)
    ensures
        pairs_view(r@) == pairs_view(v@),
{
    let mut r: Vec<(String, String)> = Vec::new();
    let n = v.len();
    let mut i: usize = 0;
    while i < n
        invariant
            n == v@.len(),
            i <= n,
            r@.len() == i,
            forall|j: int| 0 <= j < i ==> (#[trigger] r@[j].0@, r@[j].1@) == (v@[j].0@, v@[j].1@),
        decreases n - i,
    {
        let p = &v[i];
        r.push((p.0.clone(), p.1.clone()));
        i += 1;
    }
    proof {
        assert(pairs_view(r@) =~= pairs_view(v@));
    }
    r
}

/// The views of a list of strings.
pub open spec fn strings_view(s: Seq<String>) -> Seq<Seq<char>> {
    s.map_values(|t: String| t@)
}

/// Whether a list of strings holds one with the given contents.
pub open spec fn strings_contain(s: Seq<Seq<char>>, x: Seq<char>) -> bool {
    exists|i: int| 0 <= i < s.len() && s[i] == x
}

pub fn contains_string(v: &Vec<String>, x: &String) -> (r: bool)
    ensures
        r == strings_contain(strings_view(v@), x@),
{
    let n = v.len();
    let mut i: usize = 0;
    while i < n
        invariant
            n == v@.len(),
            i <= n,
            forall|j: int| 0 <= j < i ==> #[trigger] v@[j]@ != x@,
        decreases n - i,
    {
        if v[i].eq(x) {
            proof {
                assert(strings_view(v@)[i as int] == x@);
            }
            return true;
        }
        i += 1;
    }
    proof {
        assert forall|j: int| 0 <= j < strings_view(v@).len() implies strings_view(v@)[j]
            != x@ by {
            assert(v@[j]@ != x@);
        }
    }
    false
}

/// The views of a list of borrowed records.
pub open spec fn ref_views<T: View>(s: Seq<&T>) -> Seq<T::V> {
    s.map_values(|t: &T| t@)
}

/// The first value filed under `key` in a list of key-value pairs.
pub open spec fn meta_lookup(pairs: Seq<(Seq<char>, Seq<char>)>, key: Seq<char>) -> Option<
    Seq<char>,
>
    decreases pairs.len(),
{
    if pairs.len() == 0 {
        Option::<Seq<char>>::None
    } else if pairs[0].0 == key {
        Option::Some(pairs[0].1)
    } else {
        meta_lookup(pairs.drop_first(), key)
    }
}

proof fn lemma_meta_lookup_at(pairs: Seq<(Seq<char>, Seq<char>)>, key: Seq<char>, i: int)
    requires
        0 <= i < pairs.len(),
        forall|j: int| 0 <= j < i ==> (#[trigger] pairs[j]).0 != key,
        pairs[i].0 == key,
    ensures
        meta_lookup(pairs, key) == Some(pairs[i].1),
    decreases i,
{
    if i > 0 {
        lemma_meta_lookup_at(pairs.drop_first(), key, i - 1);
    }
}

proof fn lemma_meta_lookup_none(pairs: Seq<(Seq<char>, Seq<char>)>, key: Seq<char>)
    requires
        forall|j: int| 0 <= j < pairs.len() ==> (#[trigger] pairs[j]).0 != key,
    ensures
        meta_lookup(pairs, key) is None,
    decreases pairs.len(),
{
    if pairs.len() > 0 {
        lemma_meta_lookup_none(pairs.drop_first(), key);
    }
}

/// Finds the first value filed under `key`, handing back a copy.
pub fn find_meta_value(pairs: &Vec<(String, String)>, key: &String) -> (r: Option<String>)
    ensures
        match r {
            Some(v) => meta_lookup(pairs_view(pairs@), key@) == Some(v@),
            None => meta_lookup(pairs_view(pairs@), key@) is None,
        },
{
    let n = pairs.len();
    let mut i: usize = 0;
    while i < n
        invariant
            n == pairs@.len(),
            i <= n,
            forall|j: int| 0 <= j < i ==> (#[trigger] pairs_view(pairs@)[j]).0 != key@,
        decreases n - i,
    {
        if pairs[i].0.eq(key) {
            proof {
                assert(pairs_view(pairs@)[i as int].0 == key@);
                lemma_meta_lookup_at(pairs_view(pairs@), key@, i as int);
            }
            return Some(pairs[i].1.clone());
        }
        i += 1;
    }
    proof {
        lemma_meta_lookup_none(pairs_view(pairs@), key@);
    }
    None
}

/// Copies an opaque byte blob, keeping its contents.
pub fn clone_bytes(v: &Vec<u8>) -> (r: Vec<u8>)
    ensures
        r@ == v@,
{
    let r = v.clone();
    proof {
        assert(r@ =~= v@);
    }
    r
}

} // verus!
