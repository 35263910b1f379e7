use vstd::prelude::*;
use vstd::string::StringExecFns;

verus! {

/// The textual form of the distinguished anonymous identity.
pub open spec fn anonymous_text() -> Seq<char> {
    "2vxsx-fae"@
}

/// An identity on the platform (a caller, an owner, a unit, a ledger),
/// carried in its canonical textual form.
#[derive(Debug)]
pub struct Principal {
    pub text: String,
}

impl View for Principal {
    type V = Seq<char>;

    open spec fn view(&self) -> Seq<char> {
        self.text@
    }
}

impl Clone for Principal {
    fn clone(&self) -> (r: Self)
        ensures
            r@ == self@,
    {
        Principal { text: self.text.clone() }
    }
}

impl Principal {
    pub fn from_text(text: String) -> (p: Principal)
        ensures
            p@ == text@,
    {
        Principal { text }
    }

    /// The distinguished anonymous identity.
    pub fn anonymous() -> (p: Principal)
        ensures
            p@ == anonymous_text(),
    {
        Principal { text: String::from_str("2vxsx-fae") }
    }

    pub fn eq_p(&self, other: &Principal) -> (r: bool)
        ensures
            r == (self@ == other@),
    {
        self.text.eq(&other.text)
    }

    pub fn is_anonymous(&self) -> (r: bool)
        ensures
            r == (self@ == anonymous_text()),
    {
        let a = Principal::anonymous();
        self.text.eq(&a.text)
    }
}

/// The texts of a list of identities.
pub open spec fn principals_view(s: Seq<Principal>) -> Seq<Seq<char>> {
    s.map_values(|p: Principal| p@)
}

/// Copies a list of identities, keeping its contents.
pub fn clone_principals(v: &Vec<Principal>) -> (r: Vec<Principal>)
    ensures
        principals_view(r@) == principals_view(v@),
{
    let mut r: Vec<Principal> = Vec::new();
    let n = v.len();
    let mut i: usize = 0;
    while i < n
        invariant
            n == v@.len(),
            i <= n,
            r@.len() == i,
            forall|j: int| 0 <= j < i ==> #[trigger] r@[j]@ == v@[j]@,
        decreases n - i,
    {
        r.push(v[i].clone());
        i += 1;
    }
    proof {
        assert(principals_view(r@) =~= principals_view(v@));
    }
    r
}

} // verus!
