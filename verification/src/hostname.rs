use vstd::prelude::*;
use vstd::string::StringExecFns;

use core::cmp::Ordering;
use vstd::std_specs::cmp::PartialOrdSpec;

use crate::text::{
    chars_before, chars_before_exec, lemma_chars_before_trichotomy, chars_of, ends_with_exec, ends_with_seq, occurs_at, contains_seq, remove_all,
    remove_all_exec, string_from_chars,
};

verus! {

/// The suffix that mDNS gives to names of the local link.
pub const LOCAL_HOSTNAME_PREFIX: &'static str = ".local";

/// `LOCAL_HOSTNAME_PREFIX` as characters.
pub open spec fn local_suffix() -> Seq<char> {
    seq!['.', 'l', 'o', 'c', 'a', 'l']
}

/// What `Hostname::new` keeps of a name: a name that ends with `.local` loses every
/// `.local` in it; any other name is kept as it is.
pub open spec fn hostname_normal_form(s: Seq<char>) -> Seq<char> {
    if ends_with_seq(s, local_suffix()) {
        remove_all(s, local_suffix())
    } else {
        s
    }
}

/// The name under which a device announces itself, without the mDNS `.local` suffix.
#[derive(Debug, Hash, Ord)]
pub struct Hostname(String);

impl View for Hostname {
    type V = Seq<char>;

    closed spec fn view(&self) -> Seq<char> {
        self.0@
    }
}

fn local_suffix_chars() -> (res: Vec<char>)
    ensures
        res@ == local_suffix(),
{
    let v = chars_of(LOCAL_HOSTNAME_PREFIX);
    proof {
        reveal_strlit(".local");
    }
    assert(v@ =~= local_suffix());
    v
}

impl Hostname {
    /// Builds a host name, dropping the `.local` suffix that mDNS answers carry.
    pub fn new(value: String) -> (res: Hostname)
        ensures
            res@ == hostname_normal_form(value@),
    {
        let chars = chars_of(value.as_str());
        let suffix = local_suffix_chars();
        if ends_with_exec(&chars, &suffix) {
            let kept = remove_all_exec(&chars, &suffix);
            Hostname(string_from_chars(&kept))
        } else {
            Hostname(value)
        }
    }

    /// The name in the `.local` domain, as mDNS and TLS know this device.
    pub fn to_local_dns_name(&self) -> (res: String)
        ensures
            res@ == self@ + local_suffix(),
    {
        let mut res = self.0.clone();
        res.append(LOCAL_HOSTNAME_PREFIX);
        proof {
            reveal_strlit(".local");
        }
        assert(res@ =~= self@ + local_suffix());
        res
    }

    /// The fully qualified mDNS host name: the local DNS name with the root dot.
    pub fn to_mdns_name(&self) -> (res: String)
        ensures
            res@ == self@ + local_suffix() + seq!['.'],
    {
        let mut res = self.to_local_dns_name();
        res.append(".");
        proof {
            reveal_strlit(".");
        }
        assert(res@ =~= self@ + local_suffix() + seq!['.']);
        res
    }

    /// The name as a string slice.
    pub fn as_str(&self) -> (res: &str)
        ensures
            res@ == self@,
    {
        self.0.as_str()
    }

    /// The name as an owned string.
    pub fn into_inner(self) -> (res: String)
        ensures
            res@ == self@,
    {
        self.0
    }
}

impl Clone for Hostname {
    fn clone(&self) -> (res: Self)
        ensures
            res == *self,
    {
        Hostname(self.0.clone())
    }
}

impl PartialEq for Hostname {
    fn eq(&self, other: &Self) -> (res: bool) {
        self.0 == other.0
    }
}

impl vstd::std_specs::cmp::PartialEqSpecImpl for Hostname {
    open spec fn obeys_eq_spec() -> bool {
        true
    }

    open spec fn eq_spec(&self, other: &Self) -> bool {
        self@ == other@
    }
}

impl PartialOrd for Hostname {
    fn partial_cmp(&self, other: &Self) -> (res: Option<Ordering>) {
        let a = chars_of(self.0.as_str());
        let b = chars_of(other.0.as_str());
        if chars_before_exec(&a, &b) {
            Some(Ordering::Less)
        } else if chars_before_exec(&b, &a) {
            Some(Ordering::Greater)
        } else {
            Some(Ordering::Equal)
        }
    }
}

impl vstd::std_specs::cmp::PartialOrdSpecImpl for Hostname {
    open spec fn obeys_partial_cmp_spec() -> bool {
        true
    }

    /// Host names are ordered by their names' characters.
    open spec fn partial_cmp_spec(&self, other: &Self) -> Option<Ordering> {
        if chars_before(self@, other@) {
            Some(Ordering::Less)
        } else if chars_before(other@, self@) {
            Some(Ordering::Greater)
        } else {
            Some(Ordering::Equal)
        }
    }
}

/// Host names compare as their names do: equal exactly when the names are, and one
/// before the other exactly when the other is after it.
pub proof fn law_hostname_order_follows_names(a: Hostname, b: Hostname)
    ensures
        (a.partial_cmp_spec(&b) == Some(Ordering::Equal)) <==> a@ == b@,
        (a.partial_cmp_spec(&b) == Some(Ordering::Less)) <==> (b.partial_cmp_spec(&a) == Some(
            Ordering::Greater,
        )),
        a.partial_cmp_spec(&b) is Some,
{
    lemma_chars_before_trichotomy(a@, b@);
}

impl Eq for Hostname {
}

/// Removing `.local` from a name followed by `.local` gives the name back, when the
/// name itself holds no `.local`.
proof fn lemma_remove_all_before_suffix(s: Seq<char>)
    requires
        forall|i: int| 0 <= i < s.len() ==> !occurs_at(s + local_suffix(), local_suffix(), i),
    ensures
        remove_all(s + local_suffix(), local_suffix()) == s,
    decreases s.len(),
{
    let p = local_suffix();
    let t = s + p;
    if s.len() == 0 {
        assert(t =~= p);
        assert(t.subrange(0, 6) =~= p);
        assert(t.subrange(6, 6) =~= Seq::<char>::empty());
        assert(remove_all(Seq::<char>::empty(), p) == Seq::<char>::empty());
    } else {
        assert(!occurs_at(t, p, 0));
        assert(t.subrange(0, p.len() as int) != p);
        let s1 = s.subrange(1, s.len() as int);
        assert(t.subrange(1, t.len() as int) =~= s1 + p);
        assert forall|i: int| 0 <= i < s1.len() implies !occurs_at(s1 + p, p, i) by {
            assert(!occurs_at(t, p, i + 1));
            if occurs_at(s1 + p, p, i) {
                assert((s1 + p).subrange(i, i + 6) =~= t.subrange(i + 1, i + 7));
            }
        }
        lemma_remove_all_before_suffix(s1);
        assert(seq![s[0]] + s1 =~= s);
    }
}

/// Reading back a device's local DNS name with `Hostname::new` gives the device's name,
/// when that name holds no `.local` of its own.
#[verifier::spinoff_prover]
pub proof fn law_local_dns_name_round_trip(name: Seq<char>)
    requires
        !contains_seq(name, local_suffix()),
    ensures
        hostname_normal_form(name + local_suffix()) == name,
{
    let p = local_suffix();
    let t = name + p;
    assert(t.subrange(t.len() - 6, t.len() as int) =~= p);
    assert forall|i: int| 0 <= i < name.len() implies !occurs_at(t, p, i) by {
        if occurs_at(t, p, i) {
            if i + 6 <= name.len() {
                assert(t.subrange(i, i + 6) =~= name.subrange(i, i + 6));
                assert(occurs_at(name, p, i));
            } else {
                let k = name.len() - i;
                assert(t.subrange(i, i + 6)[k] == t[name.len() as int]);
                assert(t[name.len() as int] == '.');
            }
        }
    }
    lemma_remove_all_before_suffix(name);
}

} // verus!
